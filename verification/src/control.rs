//! The process-control interface through which tracees are driven.
//!
//! The limiter and the supervisor do not call the kernel themselves: they
//! are handed a [`ProcessControl`]. [`Ptrace`] is the one that drives real
//! processes.

use vstd::prelude::*;

verus! {

/// The kernel's error number for "no such process".
pub const ESRCH: i32 = 3;

/// The kernel's option bit that reports the forks of a tracee.
pub const PTRACE_O_TRACEFORK: i32 = 0x02;

/// The kernel's option bit that reports the vforks of a tracee.
pub const PTRACE_O_TRACEVFORK: i32 = 0x04;

/// The kernel's option bit that reports the clones of a tracee.
pub const PTRACE_O_TRACECLONE: i32 = 0x08;

/// The kernel's option bit that reports the execs of a tracee.
pub const PTRACE_O_TRACEEXEC: i32 = 0x10;

/// The events that a tracee is stopped for and that its children inherit.
#[derive(Clone, Copy, Debug, PartialEq, Eq)]
pub struct TraceOptions {
    pub trace_fork: bool,
    pub trace_vfork: bool,
    pub trace_clone: bool,
    pub trace_exec: bool,
}

impl TraceOptions {
    /// The options as the kernel's bit set.
    pub open spec fn spec_bits(self) -> int {
        (if self.trace_fork { PTRACE_O_TRACEFORK as int } else { 0 })
            + (if self.trace_vfork { PTRACE_O_TRACEVFORK as int } else { 0 })
            + (if self.trace_clone { PTRACE_O_TRACECLONE as int } else { 0 })
            + (if self.trace_exec { PTRACE_O_TRACEEXEC as int } else { 0 })
    }

    /// The options as the kernel's bit set.
    pub fn bits(&self) -> (bits: i32)
        ensures
            bits == self.spec_bits(),
    {
        let mut bits: i32 = 0;
        if self.trace_fork {
            bits = bits + PTRACE_O_TRACEFORK;
        }
        if self.trace_vfork {
            bits = bits + PTRACE_O_TRACEVFORK;
        }
        if self.trace_clone {
            bits = bits + PTRACE_O_TRACECLONE;
        }
        if self.trace_exec {
            bits = bits + PTRACE_O_TRACEEXEC;
        }
        bits
    }
}

/// What the supervisor and the limiter ask of the kernel's process-tracing
/// facility. Each operation fails with the kernel's error number.
///
/// Nothing is assumed of an implementation: whatever an operation returns
/// is handled.
pub trait ProcessControl {
    /// Attach to the running process `pid` without stopping it, with
    /// `options` set.
    fn seize(&mut self, pid: i32, options: TraceOptions) -> Result<(), i32>;

    /// Resume the stopped tracee `pid`, injecting the signal numbered
    /// `signal` if one is given.
    fn cont(&mut self, pid: i32, signal: Option<i32>) -> Result<(), i32>;

    /// The message of the latest event-stop of `pid`: for a fork, vfork or
    /// clone, the process id of the child.
    fn getevent(&mut self, pid: i32) -> Result<i64, i32>;
}

/// Process control by the kernel's `ptrace`.
#[derive(Clone, Copy, Debug)]
pub struct Ptrace;

impl ProcessControl for Ptrace {
    fn seize(&mut self, pid: i32, options: TraceOptions) -> Result<(), i32> {
        ptrace_seize(pid, options.bits())
    }

    fn cont(&mut self, pid: i32, signal: Option<i32>) -> Result<(), i32> {
        ptrace_cont(pid, signal)
    }

    fn getevent(&mut self, pid: i32) -> Result<i64, i32> {
        ptrace_getevent(pid)
    }
}

/// Calls `nix::sys::ptrace::seize` with the options whose bits are set in
/// `bits`; bits that name no option are dropped. An error comes back as
/// its number. Nothing is claimed of the result: it depends on the
/// processes of the machine.
#[verifier::external_body]
fn ptrace_seize(pid: i32, bits: i32) -> Result<(), i32> {
    let options = nix::sys::ptrace::Options::from_bits_truncate(bits);
    match nix::sys::ptrace::seize(nix::unistd::Pid::from_raw(pid), options) {
        Ok(()) => Ok(()),
        Err(errno) => Err(errno as i32),
    }
}

/// Calls `nix::sys::ptrace::cont`; a number that names no signal injects
/// none. An error comes back as its number. Nothing is claimed of the
/// result: it depends on the processes of the machine.
#[verifier::external_body]
fn ptrace_cont(pid: i32, signal: Option<i32>) -> Result<(), i32> {
    let signal = match signal {
        Some(number) => nix::sys::signal::Signal::try_from(number).ok(),
        None => None,
    };
    match nix::sys::ptrace::cont(nix::unistd::Pid::from_raw(pid), signal) {
        Ok(()) => Ok(()),
        Err(errno) => Err(errno as i32),
    }
}

/// Calls `nix::sys::ptrace::getevent`. An error comes back as its number.
/// Nothing is claimed of the result: it depends on the processes of the
/// machine.
#[verifier::external_body]
fn ptrace_getevent(pid: i32) -> Result<i64, i32> {
    match nix::sys::ptrace::getevent(nix::unistd::Pid::from_raw(pid)) {
        Ok(message) => Ok(message as i64),
        Err(errno) => Err(errno as i32),
    }
}

} // verus!
