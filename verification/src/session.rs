//! The debug session: orchestrates commands against the inferior controller
//! and the breakpoint table. It owns the single current-inferior slot and
//! the table; every error is recovered here and surfaced as a report, and
//! the session stays ready for further commands.
//!
//! A ghost list records every inferior the session discards; each entry had
//! reached a terminal state — it exited on its own or was killed — before it
//! was let go, so no command path leaves a traced process behind.
//!
//! Spawning the target executable and resolving symbols are outside work:
//! the driver spawns with tracing enabled and hands the process identifier
//! to `attach_run`; breakpoint location tokens are parsed here and resolved
//! addresses handed to `add_breakpoint`.

use vstd::prelude::*;

use crate::backtrace::{BacktraceWalker, StackFrameModel};
use crate::bits::TRAP_BYTE;
use crate::breakpoints::{seq_contains_addr, seq_index_of, Breakpoint, BreakpointTable};
use crate::errors::DebugError;
use crate::inferior::{resume_ops_complete, Inferior, ProcState, Status, TraceOp};

verus! {

/// How a stop is reported: function and line when both resolve, otherwise
/// the raw address, with the stopping signal either way.
pub enum StopDescription {
    AtSymbol { signal: i32, func: String, line: u64 },
    Raw { signal: i32, addr: u64 },
}

/// Describes a stop at `addr` under `signal`, given how the symbol provider
/// resolved the address: the function and line when both resolved, the raw
/// address otherwise.
pub fn describe_stop(addr: u64, signal: i32, func: Option<String>, line: Option<u64>) -> (r:
    StopDescription)
    ensures
        match r {
            StopDescription::AtSymbol { signal: s, func: f, line: l } => func matches Some(ff)
                && f@ == ff@ && line == Some(l) && s == signal,
            StopDescription::Raw { signal: s, addr: a } => (func is None || line is None) && a
                == addr && s == signal,
        },
{
    match (func, line) {
        (Some(f), Some(l)) => StopDescription::AtSymbol { signal, func: f, line: l },
        (_, _) => StopDescription::Raw { signal, addr },
    }
}

/// `post` extends `pre` by exactly one discarded inferior: the process with
/// the given identifier, which had reached a terminal state — exited on its
/// own or killed — before it was let go.
pub open spec fn disposal_of(pre: Seq<Inferior>, post: Seq<Inferior>, pid: i32) -> bool {
    exists|d: Inferior|
        post == #[trigger] pre.push(d) && d.spec_pid() == pid && (d.state() == ProcState::Exited
            || d.state() == ProcState::Terminated)
}

/// One debug session: the breakpoint table and the single, optional slot for
/// the current traced process. Between commands the slot only ever holds a
/// stopped process; a process that exited, died or was killed is discarded
/// at once, onto the ghost disposal list.
pub struct Debugger {
    breakpoints: BreakpointTable,
    inferior: Option<Inferior>,
    disposed: Ghost<Seq<Inferior>>,
}

impl Debugger {
    #[verifier::type_invariant]
    spec fn wf(self) -> bool {
        match self.inferior {
            Some(inf) => inf.state() == ProcState::Stopped,
            None => true,
        }
    }

    /// The recorded breakpoints, in insertion order.
    pub closed spec fn table(self) -> Seq<Breakpoint> {
        self.breakpoints@
    }

    /// The current inferior slot.
    pub closed spec fn current_inferior(self) -> Option<Inferior> {
        self.inferior
    }

    /// Every inferior the session has discarded, in order.
    pub closed spec fn disposed(self) -> Seq<Inferior> {
        self.disposed@
    }

    /// A fresh session: no breakpoints, no process, nothing discarded.
    pub fn new() -> (d: Debugger)
        ensures
            d.table() == Seq::<Breakpoint>::empty(),
            d.current_inferior() is None,
            d.disposed() == Seq::<Inferior>::empty(),
    {
        Debugger { breakpoints: BreakpointTable::new(), inferior: None, disposed: Ghost(Seq::empty()) }
    }

    /// Whether a process is currently under the session's control.
    pub fn has_live_process(&self) -> (b: bool)
        ensures
            b == (self.current_inferior() is Some),
    {
        self.inferior.is_some()
    }

    /// The breakpoint table.
    pub fn breakpoints(&self) -> (t: &BreakpointTable)
        ensures
            t@ == self.table(),
    {
        &self.breakpoints
    }

    /// Kills, reaps and discards the current process, if any. Used before a
    /// new `run` and by `quit`; afterwards no traced process is under the
    /// session's control, and the discarded one is on record as terminated.
    fn terminate_current(&mut self)
        ensures
            final (self).current_inferior() is None,
            final (self).table() == old(self).table(),
            match old(self).current_inferior() {
                Some(inf) => disposal_of(
                    old(self).disposed(),
                    final (self).disposed(),
                    inf.spec_pid(),
                ),
                None => final (self).disposed() == old(self).disposed(),
            },
    {
        proof {
            use_type_invariant(&*self);
        }
        let mut slot: Option<Inferior> = None;
        std::mem::swap(&mut slot, &mut self.inferior);
        match slot {
            Some(mut inf) => {
                inf.kill();
                proof {
                    self.disposed@ = self.disposed@.push(inf);
                }
            },
            None => {},
        }
    }

    /// The first half of the `run` command: terminates any existing
    /// inferior — the discarded process is on record as terminated — so the
    /// driver can spawn the new target with tracing enabled and hand its
    /// process identifier to `attach_run`.
    pub fn prepare_run(&mut self)
        ensures
            final (self).current_inferior() is None,
            final (self).table() == old(self).table(),
            match old(self).current_inferior() {
                Some(inf) => disposal_of(
                    old(self).disposed(),
                    final (self).disposed(),
                    inf.spec_pid(),
                ),
                None => final (self).disposed() == old(self).disposed(),
            },
    {
        self.terminate_current();
    }

    /// The second half of the `run` command, with the freshly spawned
    /// process: waits for its initial stop, installs every recorded
    /// breakpoint (addresses that cannot be patched are answered in the
    /// failure list, and the run proceeds without them), and immediately
    /// resumes the process until its first real stop.
    ///
    /// On success the saved-byte fields of the table say exactly which
    /// breakpoints are installed: those not in the failure list, whether
    /// they were recorded before this run or during an earlier one — and
    /// for each of those a trap write into this very process is on record.
    /// The kept process's operation log is exactly trap installs followed by
    /// a completed resume. A process that exited or died at once is
    /// discarded onto the disposal record; a failure before the initial stop
    /// kills the process and reports `SpawnError` or the tracing error.
    pub fn attach_run(&mut self, pid: i32) -> (r: Result<(Status, Vec<u64>), DebugError>)
        requires
            old(self).current_inferior() is None,
        ensures
            final (self).table().len() == old(self).table().len(),
            forall|i: int|
                0 <= i < old(self).table().len() ==> final (self).table()[i].addr == old(
                    self,
                ).table()[i].addr,
            match r {
                Ok((st, failed)) => {
                    &&& (forall|i: int|
                        0 <= i < final (self).table().len() ==> ((#[trigger] final (self).table()[i].orig is Some) <==> !failed@.contains(
                            final (self).table()[i].addr,
                        )))
                    &&& (match st {
                        Status::Stopped(_, _) => final (self).current_inferior() matches Some(inf)
                            && inf.state() == ProcState::Stopped && inf.spec_pid() == pid && (
                        forall|i: int|
                            0 <= i < old(self).table().len() && !failed@.contains(
                                #[trigger] old(self).table()[i].addr,
                            ) ==> exists|j: int|
                                0 <= j < inf.log().len() && inf.log()[j] == TraceOp::WriteByte(
                                old(self).table()[i].addr,
                                TRAP_BYTE,
                            )) && (exists|k: int|
                            0 <= k <= inf.log().len() && resume_ops_complete(
                                final (self).table(),
                                #[trigger] inf.log().skip(k),
                                true,
                            ) && (forall|j: int|
                                0 <= j < k ==> (#[trigger] inf.log()[j]) matches TraceOp::WriteByte(
                                    _,
                                    _,
                                )))
                            && final (self).disposed() == old(self).disposed(),
                        _ => final (self).current_inferior() is None && disposal_of(
                            old(self).disposed(),
                            final (self).disposed(),
                            pid,
                        ),
                    })
                },
                Err(_) => final (self).current_inferior() is None && disposal_of(
                    old(self).disposed(),
                    final (self).disposed(),
                    pid,
                ),
            },
    {
        proof {
            use_type_invariant(&*self);
        }
        let mut inf = Inferior::new(pid);
        let st0 = match inf.wait() {
            Ok(s) => s,
            Err(e) => {
                inf.kill();
                proof {
                    self.disposed@ = self.disposed@.push(inf);
                }
                return Err(e);
            },
        };
        match st0 {
            Status::Stopped(_, _) => {},
            _ => {
                inf.kill();
                proof {
                    self.disposed@ = self.disposed@.push(inf);
                }
                return Err(DebugError::SpawnError);
            },
        }
        let mut table = BreakpointTable::new();
        std::mem::swap(&mut table, &mut self.breakpoints);
        let failed = table.install_all(&mut inf);
        let ghost installed_log = inf.log();
        let st = match inf.cont(&table) {
            Ok(s) => s,
            Err(e) => {
                inf.kill();
                self.breakpoints = table;
                proof {
                    self.disposed@ = self.disposed@.push(inf);
                }
                return Err(e);
            },
        };
        self.breakpoints = table;
        match st {
            Status::Stopped(_, _) => {
                proof {
                    assert(installed_log =~= inf.log().subrange(0, installed_log.len() as int));
                    assert forall|i: int|
                        0 <= i < old(self).table().len() && !failed@.contains(
                            #[trigger] old(self).table()[i].addr,
                        ) implies exists|j: int|
                        0 <= j < inf.log().len() && inf.log()[j] == TraceOp::WriteByte(
                            old(self).table()[i].addr,
                            TRAP_BYTE,
                        ) by {
                        let j = choose|j: int|
                            0 <= j < installed_log.len() && installed_log[j] == TraceOp::WriteByte(
                                old(self).table()[i].addr,
                                TRAP_BYTE,
                            );
                        assert(inf.log()[j] == installed_log[j]);
                    }
                    assert forall|j: int|
                        0 <= j < installed_log.len() implies (#[trigger] inf.log()[j]) matches
                        TraceOp::WriteByte(_, _) by {
                        assert(inf.log()[j] == installed_log[j]);
                        let k = choose|k: int|
                            0 <= k < old(self).table().len() && installed_log[j]
                                == TraceOp::WriteByte(old(self).table()[k].addr, TRAP_BYTE);
                    }
                    assert(resume_ops_complete(
                        self.table(),
                        inf.log().skip(installed_log.len() as int),
                        true,
                    ));
                }
                self.inferior = Some(inf);
            },
            _ => {
                proof {
                    self.disposed@ = self.disposed@.push(inf);
                }
            },
        }
        Ok((st, failed))
    }

    /// The `continue` command: resumes the current process until its next
    /// stop. With no process under control it reports `NoActiveProcess` —
    /// and only then — leaving the session unchanged and ready. A process
    /// that exited or died is discarded onto the disposal record; a tracing
    /// failure kills and discards it likewise.
    pub fn continue_(&mut self) -> (r: Result<Status, DebugError>)
        ensures
            final (self).table() == old(self).table(),
            (r == Err::<Status, DebugError>(DebugError::NoActiveProcess)) <==> old(
                self,
            ).current_inferior() is None,
            old(self).current_inferior() is None ==> final (self).current_inferior() is None
                && final (self).disposed() == old(self).disposed(),
            match r {
                Ok(st) => {
                    &&& old(self).current_inferior() matches Some(inf1)
                    &&& (match st {
                        Status::Stopped(_, _) => final (self).disposed() == old(self).disposed()
                            && (final (self).current_inferior() matches Some(inf2) && (old(
                            self,
                        ).current_inferior() matches Some(inf1) ==> inf2.spec_pid()
                            == inf1.spec_pid() && inf1.log().is_prefix_of(inf2.log())
                            && resume_ops_complete(
                            old(self).table(),
                            inf2.log().skip(inf1.log().len() as int),
                            true,
                        ))),
                        _ => final (self).current_inferior() is None && (old(
                        self,
                        ).current_inferior() matches Some(inf1) ==> disposal_of(
                            old(self).disposed(),
                            final (self).disposed(),
                            inf1.spec_pid(),
                        )),
                    })
                },
                Err(_) => final (self).current_inferior() is None && (match old(
                    self,
                ).current_inferior() {
                    Some(inf1) => disposal_of(
                        old(self).disposed(),
                        final (self).disposed(),
                        inf1.spec_pid(),
                    ),
                    None => final (self).disposed() == old(self).disposed(),
                }),
            },
    {
        proof {
            use_type_invariant(&*self);
        }
        let mut slot: Option<Inferior> = None;
        std::mem::swap(&mut slot, &mut self.inferior);
        match slot {
            None => Err(DebugError::NoActiveProcess),
            Some(mut inf) => {
                match inf.cont(&self.breakpoints) {
                    Ok(st) => {
                        match st {
                            Status::Stopped(_, _) => {
                                self.inferior = Some(inf);
                            },
                            _ => {
                                proof {
                                    self.disposed@ = self.disposed@.push(inf);
                                }
                            },
                        }
                        Ok(st)
                    },
                    Err(e) => {
                        inf.kill();
                        proof {
                            self.disposed@ = self.disposed@.push(inf);
                        }
                        Err(e)
                    },
                }
            },
        }
    }

    /// The `breakpoint` command, once the location is resolved to an
    /// address. A duplicate address is a no-op answering the existing
    /// ordinal. With a process under control the trap byte is planted at
    /// once — the hot patch is on the kept process's operation log — and an
    /// address that cannot be patched is reported as `InvalidAddress` and
    /// not recorded, the process untouched. With no process the breakpoint
    /// is recorded for installation at the next `run`.
    pub fn add_breakpoint(&mut self, addr: u64) -> (r: Result<usize, DebugError>)
        ensures
            final (self).disposed() == old(self).disposed(),
            match r {
                Ok(ord) => {
                    if seq_contains_addr(old(self).table(), addr) {
                        final (self).table() == old(self).table() && ord == seq_index_of(
                            old(self).table(),
                            addr,
                        ) + 1 && final (self).current_inferior() == old(self).current_inferior()
                    } else {
                        ord == old(self).table().len() + 1 && (match old(
                            self,
                        ).current_inferior() {
                            None => final (self).table() == old(self).table().push(
                                Breakpoint { addr, orig: None },
                            ) && final (self).current_inferior() is None,
                            Some(inf) => exists|b: u8|
                                final (self).table() == #[trigger] old(self).table().push(
                                    Breakpoint { addr, orig: Some(b) },
                                ) && (final (self).current_inferior() matches Some(inf2)
                                    && inf2.spec_pid() == inf.spec_pid() && inf2.state()
                                    == inf.state() && inf2.log() == inf.log().push(
                                    TraceOp::WriteByte(addr, TRAP_BYTE),
                                )),
                        })
                    }
                },
                Err(e) => {
                    &&& final (self).table() == old(self).table()
                    &&& (e == DebugError::InvalidAddress || e matches DebugError::TraceError(_))
                    &&& !seq_contains_addr(old(self).table(), addr)
                    &&& old(self).current_inferior() is Some
                    &&& final (self).current_inferior() == old(self).current_inferior()
                },
            },
    {
        proof {
            use_type_invariant(&*self);
        }
        let mut table = BreakpointTable::new();
        std::mem::swap(&mut table, &mut self.breakpoints);
        let already = match table.lookup(addr) {
            Some(_) => true,
            None => false,
        };
        if already {
            let ord = table.add(addr);
            self.breakpoints = table;
            return Ok(ord);
        }
        let mut slot: Option<Inferior> = None;
        std::mem::swap(&mut slot, &mut self.inferior);
        match slot {
            None => {
                let ord = table.add(addr);
                self.breakpoints = table;
                proof {
                    assert(self.table() == old(self).table().push(
                        Breakpoint { addr, orig: None::<u8> },
                    ));
                }
                Ok(ord)
            },
            Some(mut inf) => {
                match inf.write_byte(addr, TRAP_BYTE) {
                    Ok(prev) => {
                        let ord = table.add(addr);
                        table.set_orig_at(ord - 1, Some(prev));
                        proof {
                            assert(table@ =~= old(self).table().push(
                                Breakpoint { addr, orig: Some(prev) },
                            ));
                        }
                        self.breakpoints = table;
                        self.inferior = Some(inf);
                        Ok(ord)
                    },
                    Err(e) => {
                        self.breakpoints = table;
                        self.inferior = Some(inf);
                        Err(e)
                    },
                }
            },
        }
    }

    /// The `backtrace` command: begins a walk of the current process's call
    /// stack. With no process under control it reports `NoActiveProcess` —
    /// and only then. The walk is driven outside: resolve the walker's
    /// current address and hand the answer to its `step`.
    pub fn backtrace(&self) -> (r: Result<BacktraceWalker, DebugError>)
        ensures
            (r == Err::<BacktraceWalker, DebugError>(DebugError::NoActiveProcess))
                <==> self.current_inferior() is None,
            match r {
                Ok(w) => !w.spec_done() && w.spec_frames() == Seq::<StackFrameModel>::empty()
                    && (self.current_inferior() matches Some(inf) ==> w.spec_pid()
                    == inf.spec_pid()),
                Err(_) => true,
            },
    {
        proof {
            use_type_invariant(self);
        }
        match &self.inferior {
            None => Err(DebugError::NoActiveProcess),
            Some(inf) => inf.backtrace(),
        }
    }

    /// The `quit` command: terminates any running inferior before the
    /// session ends — the discarded process is on record as terminated — so
    /// no orphaned traced process survives the debugger.
    pub fn quit(&mut self)
        ensures
            final (self).current_inferior() is None,
            final (self).table() == old(self).table(),
            match old(self).current_inferior() {
                Some(inf) => disposal_of(
                    old(self).disposed(),
                    final (self).disposed(),
                    inf.spec_pid(),
                ),
                None => final (self).disposed() == old(self).disposed(),
            },
    {
        self.terminate_current();
    }
}

} // verus!
