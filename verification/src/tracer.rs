//! The tracing supervisor: what to do about each state change of a tracee.
//!
//! The supervisor does not wait for state changes itself. Its caller waits,
//! hands each status over, together with the command line of a process
//! that has just executed a program, and carries on or stops as
//! [`on_wait_error`] says.

use vstd::prelude::*;
use crate::control::{ProcessControl, ESRCH};
use crate::limiter::{Limiter, OnExecResult};
use crate::model::{LimiterState, Waiting};
use crate::nixutil::{cmdline_args, parse_cmdline};
use crate::resources::resource_profile::ResourceProfile;
use crate::resources::rules::profile_of;

verus! {

/// The kernel's code for the event-stop of a fork.
pub const PTRACE_EVENT_FORK: i32 = 1;

/// The kernel's code for the event-stop of a vfork.
pub const PTRACE_EVENT_VFORK: i32 = 2;

/// The kernel's code for the event-stop of a clone.
pub const PTRACE_EVENT_CLONE: i32 = 3;

/// The kernel's code for the event-stop of an exec.
pub const PTRACE_EVENT_EXEC: i32 = 4;

/// The kernel's code for a group-stop of a seized tracee.
pub const PTRACE_EVENT_STOP: i32 = 128;

/// The kernel's error number for "no child processes".
pub const ECHILD: i32 = 10;

/// The kernel's error number for "interrupted system call".
pub const EINTR: i32 = 4;

/// A signal that stopped or killed a traced process.
#[derive(Clone, Copy, Debug, PartialEq, Eq)]
pub enum Signal {
    /// `SIGTRAP`, which tracing itself raises.
    Trap,
    /// `SIGSTOP`, which tracing itself raises.
    Stop,
    /// Any other signal, by its number.
    Other(i32),
}

/// A state change of a traced process, as the wait for any descendant
/// reports it.
#[derive(Clone, Copy, Debug, PartialEq, Eq)]
pub enum WaitStatus {
    /// The process exited normally with the given exit code.
    Exited { pid: i32, code: i32 },
    /// The process was killed by the given signal.
    Signaled { pid: i32, signal: Signal, core_dumped: bool },
    /// The process is in a signal-delivery-stop.
    Stopped { pid: i32, signal: Signal },
    /// The process is in an event-stop with the given event code.
    PtraceEvent { pid: i32, event: i32 },
    /// The process is in a syscall-stop.
    PtraceSyscall { pid: i32 },
    /// The process was resumed by a `SIGCONT`.
    Continued { pid: i32 },
    /// Nothing has changed.
    StillAlive,
}

/// How a tracee came to have a child.
#[derive(Clone, Copy, Debug, PartialEq, Eq)]
pub enum SpawnKind {
    Fork,
    Vfork,
    Clone,
}

/// What a status was understood to report.
#[derive(Clone, Copy, Debug, PartialEq, Eq)]
pub enum Event {
    /// `parent` has forked, vforked or cloned; `child` is the new process,
    /// where the kernel told.
    Spawn { kind: SpawnKind, parent: i32, child: Option<i32> },
    /// `pid` has executed a program, which the limiter took as `result`
    /// says.
    Exec { pid: i32, result: OnExecResult },
    /// `pid` is in a group-stop.
    GroupStop { pid: i32 },
    /// `pid` is in an event-stop of a kind that the supervisor does not
    /// know.
    UnknownEvent { pid: i32, event: i32 },
    /// `pid` is about to receive `signal`.
    SignalStop { pid: i32, signal: Signal },
    /// `pid` has exited.
    Exited { pid: i32, code: i32 },
    /// `pid` was killed by a signal.
    Killed { pid: i32, signal: Signal },
    /// Anything else.
    Other { process: Option<i32> },
}

/// A continue that the supervisor issued, and what came of it.
#[derive(Clone, Copy, Debug, PartialEq, Eq)]
pub struct Resume {
    pub pid: i32,
    /// The number of the signal that was injected, if any.
    pub signal: Option<i32>,
    /// What the continue returned: the kernel's error number where it
    /// failed.
    pub outcome: Result<(), i32>,
}

/// What the supervisor did about a status.
#[derive(Clone, Copy, Debug, PartialEq, Eq)]
pub struct Handled {
    pub event: Event,
    /// The continue that the supervisor itself issued for the process of
    /// the status, if it issued one. Continues that the limiter issued for
    /// processes it admitted are not listed.
    pub resume: Option<Resume>,
}

/// What to do after the wait for a state change has failed.
#[derive(Clone, Copy, Debug, PartialEq, Eq)]
pub enum WaitVerdict {
    /// The wait was interrupted by a signal: wait again.
    Restart,
    /// No traced process is left: the supervisor is done.
    Finished,
    /// The wait failed for good: the supervisor gives up.
    Failed,
}

/// The signal to inject when a process is resumed from a
/// signal-delivery-stop: none for the signals that tracing raises, the
/// signal itself for any other.
pub open spec fn forwarded(signal: Signal) -> Option<i32> {
    match signal {
        Signal::Trap => None,
        Signal::Stop => None,
        Signal::Other(number) => Some(number),
    }
}

/// The argv of a process that has executed a program, given the contents
/// of its command line file, or nothing where the file could not be read.
/// Without a command line the argv is empty.
pub open spec fn argv_of(cmdline: Option<&[u8]>) -> Seq<Seq<char>> {
    match cmdline {
        Some(data) => cmdline_args(data@),
        None => Seq::empty(),
    }
}

/// Whether `status` reports the exec of a program that is throttled.
pub open spec fn is_throttled_exec(status: WaitStatus, cmdline: Option<&[u8]>) -> bool {
    status matches WaitStatus::PtraceEvent { event, .. } && event == PTRACE_EVENT_EXEC
        && profile_of(argv_of(cmdline)) is Some
}

/// The continue that the supervisor itself owes for `status`: process and
/// signal to inject. It owes none for an exit, and none for the exec of a
/// throttled program, which the limiter alone resumes.
pub open spec fn own_resume(status: WaitStatus, cmdline: Option<&[u8]>) -> Option<
    (i32, Option<i32>),
> {
    match status {
        WaitStatus::PtraceEvent { pid, event } => if is_throttled_exec(status, cmdline) {
            None
        } else {
            Some((pid, None))
        },
        WaitStatus::Stopped { pid, signal } => Some((pid, forwarded(signal))),
        WaitStatus::Exited { .. } => None,
        WaitStatus::Signaled { .. } => None,
        WaitStatus::PtraceSyscall { pid } => Some((pid, None)),
        WaitStatus::Continued { pid } => Some((pid, None)),
        WaitStatus::StillAlive => None,
    }
}

/// What `status` is understood to report, but for the child of a spawn,
/// which only the kernel can tell.
pub open spec fn understood(status: WaitStatus, cmdline: Option<&[u8]>, event: Event) -> bool {
    match status {
        WaitStatus::PtraceEvent { pid, event: code } => if code == PTRACE_EVENT_FORK {
            event matches Event::Spawn { kind: SpawnKind::Fork, parent, .. } && parent == pid
        } else if code == PTRACE_EVENT_VFORK {
            event matches Event::Spawn { kind: SpawnKind::Vfork, parent, .. } && parent == pid
        } else if code == PTRACE_EVENT_CLONE {
            event matches Event::Spawn { kind: SpawnKind::Clone, parent, .. } && parent == pid
        } else if code == PTRACE_EVENT_EXEC {
            event == (Event::Exec {
                pid,
                result: if profile_of(argv_of(cmdline)) is Some {
                    OnExecResult::Throttled
                } else {
                    OnExecResult::NotThrottled
                },
            })
        } else if code == PTRACE_EVENT_STOP {
            event == (Event::GroupStop { pid })
        } else {
            event == (Event::UnknownEvent { pid, event: code })
        },
        WaitStatus::Stopped { pid, signal } => event == (Event::SignalStop { pid, signal }),
        WaitStatus::Exited { pid, code } => event == (Event::Exited { pid, code }),
        WaitStatus::Signaled { pid, signal, .. } => event == (Event::Killed { pid, signal }),
        WaitStatus::PtraceSyscall { pid } => event == (Event::Other { process: Some(pid) }),
        WaitStatus::Continued { pid } => event == (Event::Other { process: Some(pid) }),
        WaitStatus::StillAlive => event == (Event::Other { process: None }),
    }
}

/// How a continue of the supervisor bears on the limiter: where it failed
/// because the process is gone, the process has exited for the limiter
/// too; otherwise the limiter is as it was.
pub open spec fn resumed_to(pre: LimiterState, resume: Resume, post: LimiterState) -> bool {
    if resume.outcome == Err::<(), i32>(ESRCH) {
        pre.exits_to(resume.pid, post)
    } else {
        post == pre
    }
}

/// How handling `status` can lead the limiter from `pre` to `post`, given
/// the continue that the supervisor issued.
pub open spec fn limiter_step(
    pre: LimiterState,
    status: WaitStatus,
    cmdline: Option<&[u8]>,
    resume: Option<Resume>,
    post: LimiterState,
) -> bool {
    match status {
        WaitStatus::Exited { pid, .. } => pre.exits_to(pid, post),
        WaitStatus::Signaled { pid, .. } => pre.exits_to(pid, post),
        WaitStatus::PtraceEvent { pid, .. } if is_throttled_exec(status, cmdline) => pre.enqueue(
            Waiting {
                pid,
                name: argv_of(cmdline)[0],
                demand: profile_of(argv_of(cmdline))->Some_0,
            },
        ).drains_to(post),
        _ => match resume {
            Some(resume) => resumed_to(pre, resume, post),
            None => post == pre,
        },
    }
}

/// Whether a continue failed because its process is gone.
pub fn process_is_gone(outcome: Result<(), i32>) -> (gone: bool)
    ensures
        gone == (outcome == Err::<(), i32>(ESRCH)),
{
    match outcome {
        Ok(()) => false,
        Err(errno) => errno == ESRCH,
    }
}

/// The child that the message of a spawn's event-stop names: the message
/// as a process id, or nothing where the message could not be had.
pub fn spawned_child(message: Result<i64, i32>) -> (child: Option<i32>)
    ensures
        child == match message {
            Ok(number) => Some(number as i32),
            Err(_) => None,
        },
{
    match message {
        Ok(number) => Some(#[verifier::truncate] (number as i32)),
        Err(_) => None,
    }
}

/// What to do after the wait for a state change of any descendant has
/// failed with the error number `errno`.
pub fn on_wait_error(errno: i32) -> (verdict: WaitVerdict)
    ensures
        verdict == if errno == ECHILD {
            WaitVerdict::Finished
        } else if errno == EINTR {
            WaitVerdict::Restart
        } else {
            WaitVerdict::Failed
        },
{
    if errno == ECHILD {
        WaitVerdict::Finished
    } else if errno == EINTR {
        WaitVerdict::Restart
    } else {
        WaitVerdict::Failed
    }
}

/// The process whose command line is to be read before `status` is
/// handled: the one that has just executed a program.
pub fn wants_cmdline(status: &WaitStatus) -> (pid: Option<i32>)
    ensures
        pid == match *status {
            WaitStatus::PtraceEvent { pid, event } if event == PTRACE_EVENT_EXEC => Some(pid),
            _ => None,
        },
{
    match *status {
        WaitStatus::PtraceEvent { pid, event } => if event == PTRACE_EVENT_EXEC {
            Some(pid)
        } else {
            None
        },
        _ => None,
    }
}

/// All state for the tracer.
pub struct Tracer {
    /// Concurrency limiter for rate-limited processes.
    pub limiter: Limiter,
}

impl View for Tracer {
    type V = LimiterState;

    open spec fn view(&self) -> LimiterState {
        self.limiter@
    }
}

impl Tracer {
    /// What holds of every tracer.
    pub open spec fn inv(&self) -> bool {
        self.limiter.inv()
    }

    pub fn new(total: ResourceProfile) -> (tracer: Self)
        requires
            total@.is_demand(),
        ensures
            tracer@ == LimiterState::initial(total@),
            tracer.inv(),
            tracer.limiter.consistent(),
    {
        Self { limiter: Limiter::new(total) }
    }

    /// Resumes `pid` through `ctl`. A process that is gone is dropped from
    /// the limiter, so that it holds no slot.
    fn resume<C: ProcessControl>(&mut self, ctl: &mut C, pid: i32, signal: Option<i32>) -> (resume:
        Resume)
        requires
            old(self).inv(),
        ensures
            final(self).inv(),
            resume.pid == pid,
            resume.signal == signal,
            resumed_to(old(self)@, resume, final(self)@),
            old(self).limiter.consistent() ==> final(self).limiter.consistent(),
    {
        let outcome = ctl.cont(pid, signal);
        if process_is_gone(outcome) {
            self.limiter.on_exit(ctl, pid);
        }
        Resume { pid, signal, outcome }
    }

    /// Handles one state change of a traced process. `cmdline` is the
    /// contents of the command line file of the process where `status`
    /// reports an exec and the file could be read.
    pub fn handle_wait_status<C: ProcessControl>(
        &mut self,
        ctl: &mut C,
        status: WaitStatus,
        cmdline: Option<&[u8]>,
    ) -> (handled: Handled)
        requires
            old(self).inv(),
        ensures
            final(self).inv(),
            understood(status, cmdline, handled.event),
            match own_resume(status, cmdline) {
                Some((pid, signal)) => handled.resume matches Some(resume) && resume.pid == pid
                    && resume.signal == signal,
                None => handled.resume is None,
            },
            limiter_step(old(self)@, status, cmdline, handled.resume, final(self)@),
            old(self).limiter.consistent() && !(is_throttled_exec(status, cmdline) && old(
                self,
            )@.tracks(status->PtraceEvent_pid)) ==> final(self).limiter.consistent(),
    {
        match status {
            WaitStatus::PtraceEvent { pid, event } => self.handle_ptrace_event(
                ctl,
                pid,
                event,
                cmdline,
            ),
            WaitStatus::Stopped { pid, signal } => {
                let forward = match signal {
                    Signal::Trap => None,
                    Signal::Stop => None,
                    Signal::Other(number) => Some(number),
                };
                let resume = self.resume(ctl, pid, forward);
                Handled { event: Event::SignalStop { pid, signal }, resume: Some(resume) }
            },
            WaitStatus::Exited { pid, code } => {
                self.limiter.on_exit(ctl, pid);
                Handled { event: Event::Exited { pid, code }, resume: None }
            },
            WaitStatus::Signaled { pid, signal, core_dumped: _ } => {
                self.limiter.on_exit(ctl, pid);
                Handled { event: Event::Killed { pid, signal }, resume: None }
            },
            WaitStatus::PtraceSyscall { pid } => {
                let resume = self.resume(ctl, pid, None);
                Handled { event: Event::Other { process: Some(pid) }, resume: Some(resume) }
            },
            WaitStatus::Continued { pid } => {
                let resume = self.resume(ctl, pid, None);
                Handled { event: Event::Other { process: Some(pid) }, resume: Some(resume) }
            },
            WaitStatus::StillAlive => Handled { event: Event::Other { process: None }, resume: None },
        }
    }

    /// Handles the event-stop of `pid` with the event code `event`.
    ///
    /// After a fork, vfork or clone the parent is resumed; the child is
    /// traced already and reports itself. After an exec the program is
    /// put before the limiter: a program that is not throttled is resumed
    /// here, a throttled one is left to the limiter, which resumes it when
    /// it admits it. Any other event-stop is resumed.
    pub fn handle_ptrace_event<C: ProcessControl>(
        &mut self,
        ctl: &mut C,
        pid: i32,
        event: i32,
        cmdline: Option<&[u8]>,
    ) -> (handled: Handled)
        requires
            old(self).inv(),
        ensures
            final(self).inv(),
            understood(WaitStatus::PtraceEvent { pid, event }, cmdline, handled.event),
            match own_resume(WaitStatus::PtraceEvent { pid, event }, cmdline) {
                Some((pid, signal)) => handled.resume matches Some(resume) && resume.pid == pid
                    && resume.signal == signal,
                None => handled.resume is None,
            },
            limiter_step(
                old(self)@,
                WaitStatus::PtraceEvent { pid, event },
                cmdline,
                handled.resume,
                final(self)@,
            ),
            old(self).limiter.consistent() && !(is_throttled_exec(
                WaitStatus::PtraceEvent { pid, event },
                cmdline,
            ) && old(self)@.tracks(pid)) ==> final(self).limiter.consistent(),
    {
        if event == PTRACE_EVENT_FORK || event == PTRACE_EVENT_VFORK || event
            == PTRACE_EVENT_CLONE {
            let kind = if event == PTRACE_EVENT_FORK {
                SpawnKind::Fork
            } else if event == PTRACE_EVENT_VFORK {
                SpawnKind::Vfork
            } else {
                SpawnKind::Clone
            };
            let child = spawned_child(ctl.getevent(pid));
            let resume = self.resume(ctl, pid, None);
            Handled { event: Event::Spawn { kind, parent: pid, child }, resume: Some(resume) }
        } else if event == PTRACE_EVENT_EXEC {
            let args = match cmdline {
                Some(data) => parse_cmdline(data),
                None => Vec::new(),
            };
            assert(args.deep_view() =~= argv_of(cmdline));
            let result = self.limiter.on_exec(ctl, pid, args.as_slice());
            match result {
                OnExecResult::NotThrottled => {
                    let resume = self.resume(ctl, pid, None);
                    Handled { event: Event::Exec { pid, result }, resume: Some(resume) }
                },
                OnExecResult::Throttled => Handled {
                    event: Event::Exec { pid, result },
                    resume: None,
                },
            }
        } else if event == PTRACE_EVENT_STOP {
            let resume = self.resume(ctl, pid, None);
            Handled { event: Event::GroupStop { pid }, resume: Some(resume) }
        } else {
            let resume = self.resume(ctl, pid, None);
            Handled { event: Event::UnknownEvent { pid, event }, resume: Some(resume) }
        }
    }
}

} // verus!
