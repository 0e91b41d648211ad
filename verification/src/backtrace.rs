//! Frame-pointer stack walking. A backtrace starts from the stopped
//! process's instruction pointer and conventional frame-base register and
//! follows the saved-frame-base chain: the caller's frame base and the
//! caller's return address are read from the current frame. The walk ends at
//! the process entry function, at an address no function resolves to, or
//! when the chain cannot be read — whichever comes first — so it terminates
//! even on a corrupt chain.
//!
//! Resolving an address to a function and line is the symbol provider's
//! work, outside this library: the driver resolves the walker's current
//! address and hands the answer to `step`, which records one frame and
//! decides whether the walk goes on.
//!
//! A ghost read log ties each advance to the chain rule: when a step
//! continues, the caller's frame base is the word read at the current frame
//! base, and the caller's return address the word read eight bytes above
//! it. The recorded pairs are (address read, value obtained).

use vstd::prelude::*;

use crate::errors::DebugError;
use crate::inferior::{Inferior, ProcState};
use crate::trace::{peek_word, read_registers};

verus! {

/// One reconstructed stack frame: an instruction pointer with the function
/// name and source line the symbol provider resolved it to, where it could.
pub struct StackFrame {
    pub ip: u64,
    pub func: Option<String>,
    pub line: Option<u64>,
}

/// The mathematical shape of a `StackFrame`.
pub struct StackFrameModel {
    pub ip: u64,
    pub func: Option<Seq<char>>,
    pub line: Option<u64>,
}

impl View for StackFrame {
    type V = StackFrameModel;

    open spec fn view(&self) -> StackFrameModel {
        StackFrameModel {
            ip: self.ip,
            func: match self.func {
                Some(f) => Some(f@),
                None => None,
            },
            line: self.line,
        }
    }
}

/// The views of a sequence of frames.
pub open spec fn frame_views(s: Seq<StackFrame>) -> Seq<StackFrameModel> {
    s.map_values(|f: StackFrame| f@)
}

/// Whether a backtrace continues past a frame whose address resolved to
/// `func`: it stops at the process entry function and at an unresolvable
/// caller.
pub open spec fn walk_continues(func: Option<Seq<char>>) -> bool {
    match func {
        Some(f) => f != "main"@,
        None => false,
    }
}

/// How many frames a walk records when the resolver answers, innermost
/// first, as `answers` says: it stops with the first frame whose answer is
/// terminal (the entry function or no function at all).
pub open spec fn walk_length(answers: Seq<Option<Seq<char>>>) -> int
    decreases answers.len(),
{
    if answers.len() == 0 {
        0
    } else if !walk_continues(answers[0]) {
        1
    } else {
        1 + walk_length(answers.skip(1))
    }
}

/// An in-progress backtrace of a stopped process: a finite, non-restartable
/// walk from the innermost frame toward the entry frame.
pub struct BacktraceWalker {
    pid: i32,
    rip: u64,
    rbp: u64,
    frames: Vec<StackFrame>,
    done: bool,
    reads: Ghost<Seq<(u64, u64)>>,
}

impl BacktraceWalker {
    /// The process being walked.
    pub closed spec fn spec_pid(self) -> i32 {
        self.pid
    }

    /// The address the next frame will record.
    pub closed spec fn spec_ip(self) -> u64 {
        self.rip
    }

    /// The frame base the next chain step will read from.
    pub closed spec fn spec_fb(self) -> u64 {
        self.rbp
    }

    /// The target-memory words the walk has read: (address, value) pairs,
    /// in order.
    pub closed spec fn reads(self) -> Seq<(u64, u64)> {
        self.reads@
    }

    /// Whether the walk has ended.
    pub closed spec fn spec_done(self) -> bool {
        self.done
    }

    /// The frames recorded so far, innermost first.
    pub closed spec fn spec_frames(self) -> Seq<StackFrameModel> {
        frame_views(self.frames@)
    }

    /// Whether the walk has ended.
    pub fn is_done(&self) -> (b: bool)
        ensures
            b == self.spec_done(),
    {
        self.done
    }

    /// The address to hand to the symbol provider for the next frame.
    pub fn current_ip(&self) -> (ip: u64)
        ensures
            ip == self.spec_ip(),
    {
        self.rip
    }

    /// The frames recorded so far, innermost first.
    pub fn frames(&self) -> (r: &Vec<StackFrame>)
        ensures
            frame_views(r@) == self.spec_frames(),
    {
        &self.frames
    }

    /// Records the frame at the current position, given how the symbol
    /// provider resolved its address, then follows the saved-frame-base
    /// chain to the caller: the caller's frame base is the word read at the
    /// current frame base, and the caller's return address the word read
    /// eight bytes above it — both on the read log. Answers whether the
    /// walk continues: it ends at the entry function, at an unresolved
    /// address, or when the chain cannot be read.
    pub fn step(&mut self, func: Option<String>, line: Option<u64>) -> (more: bool)
        requires
            !old(self).spec_done(),
        ensures
            final (self).spec_pid() == old(self).spec_pid(),
            final (self).spec_frames() == old(self).spec_frames().push(
                StackFrameModel {
                    ip: old(self).spec_ip(),
                    func: match func {
                        Some(f) => Some(f@),
                        None => None,
                    },
                    line: line,
                },
            ),
            more == !final (self).spec_done(),
            more ==> walk_continues(
                match func {
                    Some(f) => Some(f@),
                    None => None,
                },
            ),
            more ==> old(self).spec_fb() + 8 <= u64::MAX && final (self).reads() == old(
                self,
            ).reads().push((old(self).spec_fb(), final (self).spec_fb())).push(
                ((old(self).spec_fb() + 8) as u64, final (self).spec_ip()),
            ),
            !more ==> final (self).reads() == old(self).reads() && final (self).spec_ip() == old(
                self,
            ).spec_ip() && final (self).spec_fb() == old(self).spec_fb(),
    {
        let ghost prev = self.frames@;
        let ghost fv: Option<Seq<char>> = match &func {
            Some(f) => Some(f@),
            None => None,
        };
        let continues = match &func {
            Some(f) => !is_entry_name(f),
            None => false,
        };
        let frame = StackFrame { ip: self.rip, func, line };
        proof {
            assert(frame@ == (StackFrameModel { ip: self.rip, func: fv, line }));
        }
        self.frames.push(frame);
        proof {
            assert(frame_views(self.frames@) =~= frame_views(prev).push(frame@));
        }
        if !continues {
            self.done = true;
            return false;
        }
        if self.rbp > u64::MAX - 8 {
            self.done = true;
            return false;
        }
        let caller_rbp = match peek_word(self.pid, self.rbp) {
            Ok(w) => w,
            Err(_) => {
                self.done = true;
                return false;
            },
        };
        let caller_rip = match peek_word(self.pid, self.rbp + 8) {
            Ok(w) => w,
            Err(_) => {
                self.done = true;
                return false;
            },
        };
        let ghost fb = self.rbp;
        proof {
            self.reads@ = self.reads@.push((fb, caller_rbp)).push(((fb + 8) as u64, caller_rip));
        }
        self.rbp = caller_rbp;
        self.rip = caller_rip;
        true
    }
}

/// Whether `f` names the process entry function.
fn is_entry_name(f: &String) -> (r: bool)
    ensures
        r == (f@ == "main"@),
{
    let m: String = "main".to_owned();
    *f == m
}

impl Inferior {
    /// Begins a backtrace at the process's current stop position: the walk
    /// starts from the instruction pointer and frame-base register, with no
    /// frame recorded yet.
    pub fn backtrace(&self) -> (r: Result<BacktraceWalker, DebugError>)
        requires
            self.state() == ProcState::Stopped,
        ensures
            match r {
                Ok(w) => !w.spec_done() && w.spec_frames() == Seq::<StackFrameModel>::empty()
                    && w.spec_pid() == self.spec_pid() && w.reads() == Seq::<(u64, u64)>::empty(),
                Err(e) => e matches DebugError::TraceError(_),
            },
    {
        match read_registers(self.pid()) {
            Ok((rip, rbp)) => {
                let w = BacktraceWalker {
                    pid: self.pid(),
                    rip,
                    rbp,
                    frames: Vec::new(),
                    done: false,
                    reads: Ghost(Seq::empty()),
                };
                proof {
                    assert(frame_views(w.frames@) =~= Seq::<StackFrameModel>::empty());
                }
                Ok(w)
            },
            Err(e) => Err(DebugError::TraceError(e)),
        }
    }
}

} // verus!
