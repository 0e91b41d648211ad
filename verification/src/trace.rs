//! The trusted boundary to the OS tracing facility. Each function here wraps
//! one low-level operation on the traced process; what comes back depends on
//! the target process and the machine, so the wrappers promise nothing about
//! the values — the verified callers state what holds of every outcome.
//! Errors are reported as the raw OS errno.

use vstd::prelude::*;

verus! {

/// One OS wait outcome, reduced to the categories the protocol models.
pub enum WaitEvent {
    /// The process exited normally with the given code.
    Exited(i32),
    /// The process was terminated by the given signal.
    Signaled(i32),
    /// The process stopped under the tracer with the given signal.
    Stopped(i32),
    /// Any other wait category (still alive, continued, tracer-internal
    /// events); the protocol treats it as a fatal logic error.
    Other,
}

/// Relies on nix::sys::ptrace::getregs: reads the stopped tracee's
/// general-purpose registers. Yields (instruction pointer, frame base).
#[verifier::external_body]
pub(crate) fn read_registers(pid: i32) -> (r: Result<(u64, u64), i32>) {
    match nix::sys::ptrace::getregs(nix::unistd::Pid::from_raw(pid)) {
        Ok(regs) => Ok((regs.rip, regs.rbp)),
        Err(e) => Err(e as i32),
    }
}

/// Relies on nix::sys::ptrace::getregs and nix::sys::ptrace::setregs: the
/// register-set write needs the full register block, so it is read, the
/// instruction pointer replaced, and the block written back.
#[verifier::external_body]
pub(crate) fn write_instruction_pointer(pid: i32, rip: u64) -> (r: Result<(), i32>) {
    let p = nix::unistd::Pid::from_raw(pid);
    match nix::sys::ptrace::getregs(p) {
        Ok(mut regs) => {
            regs.rip = rip;
            match nix::sys::ptrace::setregs(p, regs) {
                Ok(()) => Ok(()),
                Err(e) => Err(e as i32),
            }
        },
        Err(e) => Err(e as i32),
    }
}

/// Relies on nix::sys::ptrace::read: reads the machine word at `addr` in the
/// stopped tracee's memory.
#[verifier::external_body]
pub(crate) fn peek_word(pid: i32, addr: u64) -> (r: Result<u64, i32>) {
    let p = nix::unistd::Pid::from_raw(pid);
    match nix::sys::ptrace::read(p, addr as usize as nix::sys::ptrace::AddressType) {
        Ok(w) => Ok(w as u64),
        Err(e) => Err(e as i32),
    }
}

/// Relies on nix::sys::ptrace::write: writes the machine word at `addr` in
/// the stopped tracee's memory.
#[verifier::external_body]
pub(crate) fn poke_word(pid: i32, addr: u64, word: u64) -> (r: Result<(), i32>) {
    let p = nix::unistd::Pid::from_raw(pid);
    match nix::sys::ptrace::write(p, addr as usize as nix::sys::ptrace::AddressType, word as i64) {
        Ok(()) => Ok(()),
        Err(e) => Err(e as i32),
    }
}

/// Relies on nix::sys::ptrace::step: lets the stopped tracee execute exactly
/// one machine instruction, delivering no signal.
#[verifier::external_body]
pub(crate) fn single_step(pid: i32) -> (r: Result<(), i32>) {
    match nix::sys::ptrace::step(nix::unistd::Pid::from_raw(pid), None) {
        Ok(()) => Ok(()),
        Err(e) => Err(e as i32),
    }
}

/// Relies on nix::sys::ptrace::cont: resumes the stopped tracee, delivering
/// no signal.
#[verifier::external_body]
pub(crate) fn continue_execution(pid: i32) -> (r: Result<(), i32>) {
    match nix::sys::ptrace::cont(nix::unistd::Pid::from_raw(pid), None) {
        Ok(()) => Ok(()),
        Err(e) => Err(e as i32),
    }
}

/// Relies on nix::sys::wait::waitpid: blocks until the process changes
/// state. Each wait category maps to one `WaitEvent` variant; signals are
/// reported by number.
#[verifier::external_body]
pub(crate) fn wait_for(pid: i32) -> (r: Result<WaitEvent, i32>) {
    match nix::sys::wait::waitpid(nix::unistd::Pid::from_raw(pid), None) {
        Ok(nix::sys::wait::WaitStatus::Exited(_, code)) => Ok(WaitEvent::Exited(code)),
        Ok(nix::sys::wait::WaitStatus::Signaled(_, sig, _)) => Ok(WaitEvent::Signaled(sig as i32)),
        Ok(nix::sys::wait::WaitStatus::Stopped(_, sig)) => Ok(WaitEvent::Stopped(sig as i32)),
        Ok(_) => Ok(WaitEvent::Other),
        Err(e) => Err(e as i32),
    }
}

/// Relies on nix::sys::signal::kill: sends SIGKILL to the process.
#[verifier::external_body]
pub(crate) fn send_sigkill(pid: i32) -> (r: Result<(), i32>) {
    match nix::sys::signal::kill(nix::unistd::Pid::from_raw(pid), nix::sys::signal::Signal::SIGKILL) {
        Ok(()) => Ok(()),
        Err(e) => Err(e as i32),
    }
}

} // verus!
