//! The inferior controller: owns one traced target process, resumes and
//! halts it, reads and writes its memory, and carries the step-over protocol
//! that lets execution pass an installed breakpoint without disarming it.
//!
//! Every operation successfully issued to the target — a byte written, the
//! instruction pointer rewound, a single step, a continue — is recorded, in
//! order, in a ghost operation log. The contracts pin the exact sequence of
//! operations each function may issue: that is what keeps a trap
//! instruction from being executed or leaking into a resumed instruction
//! stream, and what shows a resume really rewinds, steps exactly once and
//! re-arms before running on.

use vstd::prelude::*;

use crate::bits::{align_addr_to_word, extract_byte, patch_byte_in_word, TRAP_BYTE};
use crate::breakpoints::{seq_lookup, Breakpoint, BreakpointTable};
use crate::errors::DebugError;
use crate::trace::{
    continue_execution, peek_word, poke_word, read_registers, send_sigkill, single_step, wait_for,
    write_instruction_pointer, WaitEvent,
};

verus! {

/// errno of "no such process": the only memory-patch failure that does not
/// mean a bad address.
pub const NO_SUCH_PROCESS_ERRNO: i32 = 3;

/// Where a traced process stands in its lifecycle. A target that has not
/// been started yet is the session's empty inferior slot; a live `Inferior`
/// starts out `Running`.
#[derive(Clone, Copy, PartialEq, Eq, Structural, Debug)]
pub enum ProcState {
    Running,
    Stopped,
    Exited,
    Terminated,
}

/// The result of one OS wait on the inferior, produced synchronously and
/// consumed at once, never cached.
#[derive(Clone, Copy, PartialEq, Eq, Structural, Debug)]
pub enum Status {
    /// Stopped by the given signal; carries the instruction pointer it
    /// stopped at.
    Stopped(i32, u64),
    /// Exited normally with the given code.
    Exited(i32),
    /// Terminated by the given signal.
    Signaled(i32),
}

/// One operation issued to the traced process and recorded in the
/// controller's ghost log.
#[derive(Clone, Copy, PartialEq, Eq, Structural, Debug)]
pub enum TraceOp {
    /// One byte of target memory set: (address, value).
    WriteByte(u64, u8),
    /// The instruction pointer rewritten to the given address.
    SetIp(u64),
    /// One single machine instruction stepped.
    Step,
    /// A full continue issued.
    Continue,
}

/// The byte writes among a sequence of operations, in order.
pub open spec fn byte_writes(ops: Seq<TraceOp>) -> Seq<(u64, u8)>
    decreases ops.len(),
{
    if ops.len() == 0 {
        Seq::empty()
    } else {
        let rest = byte_writes(ops.skip(1));
        match ops[0] {
            TraceOp::WriteByte(a, b) => seq![(a, b)] + rest,
            _ => rest,
        }
    }
}

/// The byte writes a full step-over makes at breakpoint address `a` with
/// saved original byte `b`: restore the original, then re-install the trap.
pub open spec fn step_over_writes(a: u64, b: u8) -> Seq<(u64, u8)> {
    seq![(a, b), (a, TRAP_BYTE)]
}

/// The full step-over protocol at breakpoint address `a` with saved
/// original byte `b`, in its required order: restore the original byte at
/// `a`, rewind the instruction pointer to that same `a`, step exactly one
/// instruction, re-install the trap at `a`.
pub open spec fn step_over_ops(a: u64, b: u8) -> Seq<TraceOp> {
    seq![
        TraceOp::WriteByte(a, b),
        TraceOp::SetIp(a),
        TraceOp::Step,
        TraceOp::WriteByte(a, TRAP_BYTE),
    ]
}

/// `w` names an installed breakpoint of `bps`: an entry at address `w.0`
/// whose saved original byte is `w.1`.
pub open spec fn is_installed_pair(bps: Seq<Breakpoint>, w: (u64, u8)) -> bool {
    seq_lookup(bps, w.0) == Some(Some(w.1))
}

/// The operations a completed resume may have issued, in order: a bare
/// continue; a full step-over at an installed breakpoint followed by a
/// continue; or — only when the process never stopped again, so no trap
/// could fire — the restore, rewind and single step alone, the re-install
/// skipped. Every completed resume issues at least a step or a continue.
pub open spec fn resume_ops_complete(
    bps: Seq<Breakpoint>,
    d: Seq<TraceOp>,
    stopped_again: bool,
) -> bool {
    d == seq![TraceOp::Continue] || exists|w: (u64, u8)|
        #[trigger] is_installed_pair(bps, w) && (d == step_over_ops(w.0, w.1).push(
            TraceOp::Continue,
        ) || (d == step_over_ops(w.0, w.1).take(3) && !stopped_again))
}

/// The operations a failed resume may have issued: a prefix of one of the
/// complete sequences, cut where the failure struck.
pub open spec fn resume_ops_partial(bps: Seq<Breakpoint>, d: Seq<TraceOp>) -> bool {
    d.is_prefix_of(seq![TraceOp::Continue]) || exists|w: (u64, u8)|
        #[trigger] is_installed_pair(bps, w) && d.is_prefix_of(
            step_over_ops(w.0, w.1).push(TraceOp::Continue),
        )
}

/// What the log may have grown by when the resume reaches its final
/// continue: nothing, or one full step-over at an installed breakpoint.
spec fn pre_continue_shape(bps: Seq<Breakpoint>, d: Seq<TraceOp>) -> bool {
    d == Seq::<TraceOp>::empty() || exists|w: (u64, u8)|
        #[trigger] is_installed_pair(bps, w) && d == step_over_ops(w.0, w.1)
}

/// One traced target process.
pub struct Inferior {
    pid: i32,
    state: ProcState,
    ops: Ghost<Seq<TraceOp>>,
}

impl Inferior {
    /// The OS process identifier.
    pub closed spec fn spec_pid(self) -> i32 {
        self.pid
    }

    /// The lifecycle state; it changes only through the operations here.
    pub closed spec fn state(self) -> ProcState {
        self.state
    }

    /// Every operation successfully issued to the target, in order.
    pub closed spec fn log(self) -> Seq<TraceOp> {
        self.ops@
    }

    /// Adopts a process that was just spawned with tracing enabled; it is
    /// running toward its initial stop and no operation has been issued.
    pub fn new(pid: i32) -> (inf: Inferior)
        ensures
            inf.spec_pid() == pid,
            inf.state() == ProcState::Running,
            inf.log() == Seq::<TraceOp>::empty(),
    {
        Inferior { pid, state: ProcState::Running, ops: Ghost(Seq::empty()) }
    }

    /// The OS process identifier.
    pub fn pid(&self) -> (p: i32)
        ensures
            p == self.spec_pid(),
    {
        self.pid
    }

    /// Writes one byte of the target's memory by a word-aligned
    /// read-modify-write that leaves the other bytes of the word unchanged,
    /// and answers the byte previously there. Fails with `InvalidAddress`
    /// when the address is not mapped or writable (`TraceError` when the
    /// process itself is gone); nothing at all changes then.
    pub fn write_byte(&mut self, addr: u64, val: u8) -> (r: Result<u8, DebugError>)
        requires
            old(self).state() == ProcState::Stopped,
        ensures
            final (self).spec_pid() == old(self).spec_pid(),
            final (self).state() == old(self).state(),
            match r {
                Ok(_) => final (self).log() == old(self).log().push(TraceOp::WriteByte(addr, val)),
                Err(e) => *final (self) == *old(self) && (e == DebugError::InvalidAddress
                    || e matches DebugError::TraceError(_)),
            },
    {
        let aligned = align_addr_to_word(addr);
        let offset = addr - aligned;
        let word = match peek_word(self.pid, aligned) {
            Ok(w) => w,
            Err(e) => {
                return Err(mem_error(e));
            },
        };
        let orig = extract_byte(word, offset);
        let updated = patch_byte_in_word(word, offset, val);
        match poke_word(self.pid, aligned, updated) {
            Ok(_) => {
                proof {
                    self.ops@ = self.ops@.push(TraceOp::WriteByte(addr, val));
                }
                Ok(orig)
            },
            Err(e) => Err(mem_error(e)),
        }
    }

    /// Blocks until the traced process changes state, classifies the
    /// outcome through `classify_wait`, and moves the lifecycle state to
    /// match; a stop first captures the current instruction pointer.
    pub fn wait(&mut self) -> (r: Result<Status, DebugError>)
        requires
            old(self).state() == ProcState::Running,
        ensures
            final (self).spec_pid() == old(self).spec_pid(),
            final (self).log() == old(self).log(),
            match r {
                Ok(Status::Stopped(_, _)) => final (self).state() == ProcState::Stopped,
                Ok(Status::Exited(_)) => final (self).state() == ProcState::Exited,
                Ok(Status::Signaled(_)) => final (self).state() == ProcState::Terminated,
                Err(e) => final (self).state() == ProcState::Running && (e matches
                    DebugError::TraceError(_) || e == DebugError::UnexpectedWaitStatus),
            },
    {
        let ev = match wait_for(self.pid) {
            Ok(ev) => ev,
            Err(e) => {
                return Err(DebugError::TraceError(e));
            },
        };
        let rip: u64 = match ev {
            WaitEvent::Stopped(_) => {
                match read_registers(self.pid) {
                    Ok((rip, _)) => rip,
                    Err(e) => {
                        return Err(DebugError::TraceError(e));
                    },
                }
            },
            _ => 0,
        };
        let st = classify_wait(ev, rip)?;
        match st {
            Status::Stopped(_, _) => {
                self.state = ProcState::Stopped;
            },
            Status::Exited(_) => {
                self.state = ProcState::Exited;
            },
            Status::Signaled(_) => {
                self.state = ProcState::Terminated;
            },
        }
        Ok(st)
    }

    /// Resumes the stopped process until its next state change.
    ///
    /// If the instruction pointer sits exactly one byte past an installed
    /// breakpoint — the landing position after its trap fired — the
    /// step-over protocol runs first: restore the original byte there,
    /// rewind the instruction pointer to the breakpoint address, single-step
    /// one real instruction, and re-install the trap (skipped when the step
    /// itself ended the process). Only then is the process continued. The
    /// operation log pins that order exactly.
    pub fn cont(&mut self, breakpoints: &BreakpointTable) -> (r: Result<Status, DebugError>)
        requires
            old(self).state() == ProcState::Stopped,
        ensures
            final (self).spec_pid() == old(self).spec_pid(),
            old(self).log().is_prefix_of(final (self).log()),
            match r {
                Ok(st) => (match st {
                    Status::Stopped(_, _) => final (self).state() == ProcState::Stopped,
                    Status::Exited(_) => final (self).state() == ProcState::Exited,
                    Status::Signaled(_) => final (self).state() == ProcState::Terminated,
                }) && resume_ops_complete(
                    breakpoints@,
                    final (self).log().skip(old(self).log().len() as int),
                    st is Stopped,
                ),
                Err(e) => resume_ops_partial(
                    breakpoints@,
                    final (self).log().skip(old(self).log().len() as int),
                ) && (e matches DebugError::TraceError(_) || e == DebugError::InvalidAddress || e
                    == DebugError::UnexpectedWaitStatus),
            },
    {
        let ghost base = self.log();
        let (rip, _rbp) = match read_registers(self.pid) {
            Ok(regs) => regs,
            Err(e) => {
                proof {
                    assert(self.log().skip(base.len() as int) =~= Seq::<TraceOp>::empty());
                    assert(self.log().skip(base.len() as int).is_prefix_of(
                        seq![TraceOp::Continue],
                    ));
                }
                return Err(DebugError::TraceError(e));
            },
        };
        if rip >= 1 {
            let bp_addr = rip - 1;
            match breakpoints.lookup(bp_addr) {
                Some(Some(orig)) => {
                    let ghost full = step_over_ops(bp_addr, orig).push(TraceOp::Continue);
                    proof {
                        assert(is_installed_pair(breakpoints@, (bp_addr, orig)));
                    }
                    match self.write_byte(bp_addr, orig) {
                        Ok(_) => {},
                        Err(e) => {
                            proof {
                                assert(self.log().skip(base.len() as int) =~= Seq::<
                                    TraceOp,
                                >::empty());
                                assert(self.log().skip(base.len() as int).is_prefix_of(
                                    seq![TraceOp::Continue],
                                ));
                            }
                            return Err(e);
                        },
                    }
                    proof {
                        assert(self.log().skip(base.len() as int) =~= full.subrange(0, 1));
                        assert(self.log().skip(base.len() as int).is_prefix_of(full));
                    }
                    if let Err(e) = write_instruction_pointer(self.pid, bp_addr) {
                        return Err(DebugError::TraceError(e));
                    }
                    proof {
                        self.ops@ = self.ops@.push(TraceOp::SetIp(bp_addr));
                        assert(self.log().skip(base.len() as int) =~= full.subrange(0, 2));
                        assert(self.log().skip(base.len() as int).is_prefix_of(full));
                    }
                    if let Err(e) = single_step(self.pid) {
                        return Err(DebugError::TraceError(e));
                    }
                    proof {
                        self.ops@ = self.ops@.push(TraceOp::Step);
                        assert(self.log().skip(base.len() as int) =~= full.subrange(0, 3));
                        assert(self.log().skip(base.len() as int).is_prefix_of(full));
                        assert(self.log().skip(base.len() as int) =~= step_over_ops(
                            bp_addr,
                            orig,
                        ).take(3));
                    }
                    self.state = ProcState::Running;
                    let st = self.wait()?;
                    match st {
                        Status::Exited(code) => {
                            proof {
                                assert(resume_ops_complete(
                                    breakpoints@,
                                    self.log().skip(base.len() as int),
                                    false,
                                ));
                            }
                            return Ok(Status::Exited(code));
                        },
                        Status::Signaled(sig) => {
                            proof {
                                assert(resume_ops_complete(
                                    breakpoints@,
                                    self.log().skip(base.len() as int),
                                    false,
                                ));
                            }
                            return Ok(Status::Signaled(sig));
                        },
                        Status::Stopped(_, _) => {
                            match self.write_byte(bp_addr, TRAP_BYTE) {
                                Ok(_) => {},
                                Err(e) => {
                                    return Err(e);
                                },
                            }
                            proof {
                                assert(self.log().skip(base.len() as int) =~= step_over_ops(
                                    bp_addr,
                                    orig,
                                ));
                                assert(self.log().skip(base.len() as int) =~= full.subrange(0, 4));
                                assert(self.log().skip(base.len() as int).is_prefix_of(full));
                                assert(pre_continue_shape(
                                    breakpoints@,
                                    self.log().skip(base.len() as int),
                                ));
                            }
                        },
                    }
                },
                _ => {
                    proof {
                        assert(self.log().skip(base.len() as int) =~= Seq::<TraceOp>::empty());
                        assert(self.log().skip(base.len() as int).is_prefix_of(
                            seq![TraceOp::Continue],
                        ));
                        assert(pre_continue_shape(
                            breakpoints@,
                            self.log().skip(base.len() as int),
                        ));
                    }
                },
            }
        } else {
            proof {
                assert(self.log().skip(base.len() as int) =~= Seq::<TraceOp>::empty());
                assert(self.log().skip(base.len() as int).is_prefix_of(seq![TraceOp::Continue]));
                assert(pre_continue_shape(breakpoints@, self.log().skip(base.len() as int)));
            }
        }
        let ghost before_cont = self.log().skip(base.len() as int);
        if let Err(e) = continue_execution(self.pid) {
            return Err(DebugError::TraceError(e));
        }
        proof {
            self.ops@ = self.ops@.push(TraceOp::Continue);
            let d = self.log().skip(base.len() as int);
            assert(d =~= before_cont.push(TraceOp::Continue));
            if before_cont.len() == 0 {
                assert(d =~= seq![TraceOp::Continue]);
                assert(d.is_prefix_of(seq![TraceOp::Continue]));
            } else {
                let w = choose|w: (u64, u8)|
                    #[trigger] is_installed_pair(breakpoints@, w) && before_cont == step_over_ops(
                        w.0,
                        w.1,
                    );
                assert(d == step_over_ops(w.0, w.1).push(TraceOp::Continue));
                assert(d =~= step_over_ops(w.0, w.1).push(TraceOp::Continue).subrange(
                    0,
                    d.len() as int,
                ));
                assert(d.is_prefix_of(step_over_ops(w.0, w.1).push(TraceOp::Continue)));
            }
            assert(resume_ops_complete(breakpoints@, d, true));
            assert(resume_ops_complete(breakpoints@, d, false));
            assert(resume_ops_partial(breakpoints@, d));
        }
        self.state = ProcState::Running;
        let st = self.wait()?;
        Ok(st)
    }

    /// Forcibly terminates and reaps the process. Idempotent: on a process
    /// that already exited or was terminated it does nothing.
    pub fn kill(&mut self)
        ensures
            final (self).spec_pid() == old(self).spec_pid(),
            final (self).log() == old(self).log(),
            final (self).state() == (if old(self).state() == ProcState::Exited {
                ProcState::Exited
            } else {
                ProcState::Terminated
            }),
    {
        match self.state {
            ProcState::Exited | ProcState::Terminated => {},
            _ => {
                let _ = send_sigkill(self.pid);
                let _ = wait_for(self.pid);
            },
        }
        match self.state {
            ProcState::Exited => {},
            _ => {
                self.state = ProcState::Terminated;
            },
        }
    }
}

/// Classifies one OS wait outcome into the status handed to the operator:
/// the exit code, signal number and stopped instruction pointer pass
/// through exactly, and a wait category the protocol does not model is the
/// fatal `UnexpectedWaitStatus`, never silently mapped to a modeled one.
pub fn classify_wait(ev: WaitEvent, rip: u64) -> (r: Result<Status, DebugError>)
    ensures
        match ev {
            WaitEvent::Exited(code) => r == Ok::<Status, DebugError>(Status::Exited(code)),
            WaitEvent::Signaled(sig) => r == Ok::<Status, DebugError>(Status::Signaled(sig)),
            WaitEvent::Stopped(sig) => r == Ok::<Status, DebugError>(Status::Stopped(sig, rip)),
            WaitEvent::Other => r == Err::<Status, DebugError>(DebugError::UnexpectedWaitStatus),
        },
{
    match ev {
        WaitEvent::Exited(code) => Ok(Status::Exited(code)),
        WaitEvent::Signaled(sig) => Ok(Status::Signaled(sig)),
        WaitEvent::Stopped(sig) => Ok(Status::Stopped(sig, rip)),
        WaitEvent::Other => Err(DebugError::UnexpectedWaitStatus),
    }
}

/// Classifies a failed memory patch: a vanished process is a trace failure,
/// anything else means the address is not mapped or writable.
fn mem_error(errno: i32) -> (e: DebugError)
    ensures
        e == DebugError::InvalidAddress || e matches DebugError::TraceError(_),
{
    if errno == NO_SUCH_PROCESS_ERRNO {
        DebugError::TraceError(errno)
    } else {
        DebugError::InvalidAddress
    }
}

} // verus!
