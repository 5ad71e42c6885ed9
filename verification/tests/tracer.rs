use nix_throttle::control::{ProcessControl, TraceOptions, ESRCH};
use nix_throttle::limiter::OnExecResult;
use nix_throttle::resources::ResourceProfile;
use nix_throttle::tracer::{
    on_wait_error, process_is_gone, spawned_child, wants_cmdline, Event, Handled, Resume, Signal, SpawnKind, Tracer, WaitStatus,
    WaitVerdict, ECHILD, EINTR, PTRACE_EVENT_CLONE, PTRACE_EVENT_EXEC, PTRACE_EVENT_FORK,
    PTRACE_EVENT_STOP, PTRACE_EVENT_VFORK,
};

/// A process control that keeps a record of what it was asked. A
/// continue fails with the error number listed for its process, if any.
struct Mock {
    failing: Vec<(i32, i32)>,
    child: Result<i64, i32>,
    continues: Vec<(i32, Option<i32>)>,
    events_read: Vec<i32>,
}

impl Mock {
    fn new() -> Self {
        Mock { failing: vec![], child: Err(ESRCH), continues: vec![], events_read: vec![] }
    }
}

impl ProcessControl for Mock {
    fn seize(&mut self, _pid: i32, _options: TraceOptions) -> Result<(), i32> {
        Ok(())
    }

    fn cont(&mut self, pid: i32, signal: Option<i32>) -> Result<(), i32> {
        self.continues.push((pid, signal));
        match self.failing.iter().find(|(p, _)| *p == pid) {
            Some((_, errno)) => Err(*errno),
            None => Ok(()),
        }
    }

    fn getevent(&mut self, pid: i32) -> Result<i64, i32> {
        self.events_read.push(pid);
        self.child
    }
}

fn exec(pid: i32) -> WaitStatus {
    WaitStatus::PtraceEvent { pid, event: PTRACE_EVENT_EXEC }
}

fn resumed(pid: i32, signal: Option<i32>) -> Option<Resume> {
    Some(Resume { pid, signal, outcome: Ok(()) })
}

#[test]
fn event_codes_are_the_kernels() {
    assert_eq!(PTRACE_EVENT_FORK, nix::libc::PTRACE_EVENT_FORK);
    assert_eq!(PTRACE_EVENT_VFORK, nix::libc::PTRACE_EVENT_VFORK);
    assert_eq!(PTRACE_EVENT_CLONE, nix::libc::PTRACE_EVENT_CLONE);
    assert_eq!(PTRACE_EVENT_EXEC, nix::libc::PTRACE_EVENT_EXEC);
    assert_eq!(PTRACE_EVENT_STOP, nix::libc::PTRACE_EVENT_STOP);
    assert_eq!(ECHILD, nix::libc::ECHILD);
    assert_eq!(EINTR, nix::libc::EINTR);
    assert_eq!(ESRCH, nix::libc::ESRCH);
}

#[test]
fn not_throttled_passthrough() {
    let mut ctl = Mock::new();
    let mut tracer = Tracer::new(ResourceProfile::new(4, 4));

    let handled = tracer.handle_wait_status(&mut ctl, exec(300), Some(b"bash\0"));

    assert_eq!(
        handled,
        Handled {
            event: Event::Exec { pid: 300, result: OnExecResult::NotThrottled },
            resume: resumed(300, None),
        }
    );
    assert_eq!(ctl.continues, vec![(300, None)]);
    assert_eq!(tracer.limiter.free(), ResourceProfile::new(4, 4));
    assert_eq!(tracer.limiter.active_count(), 0);
    assert_eq!(tracer.limiter.paused_count(), 0);
}

#[test]
fn throttled_exec_is_resumed_by_the_limiter_alone() {
    let mut ctl = Mock::new();
    let mut tracer = Tracer::new(ResourceProfile::new(1, 1));

    let first = tracer.handle_wait_status(&mut ctl, exec(100), Some(b"cc\0-c\0a.c\0"));
    assert_eq!(first.event, Event::Exec { pid: 100, result: OnExecResult::Throttled });
    assert_eq!(first.resume, None);
    // exactly one continue: the limiter's, at admission
    assert_eq!(ctl.continues, vec![(100, None)]);
    assert!(tracer.limiter.is_active(100));

    let second = tracer.handle_wait_status(&mut ctl, exec(101), Some(b"cc\0-c\0b.c\0"));
    assert_eq!(second.event, Event::Exec { pid: 101, result: OnExecResult::Throttled });
    assert_eq!(second.resume, None);
    // queued: no continue at all
    assert_eq!(ctl.continues, vec![(100, None)]);
    assert!(tracer.limiter.is_paused(101));
}

#[test]
fn wrapped_compiler_is_throttled_by_its_plain_name() {
    let mut ctl = Mock::new();
    let mut tracer = Tracer::new(ResourceProfile::new(8, 8));
    let handled = tracer.handle_wait_status(
        &mut ctl,
        exec(100),
        Some(b"/nix/store/abc-gcc/bin/.gcc-wrapped\0-O2\0"),
    );
    assert_eq!(handled.event, Event::Exec { pid: 100, result: OnExecResult::Throttled });
    assert_eq!(tracer.limiter.free(), ResourceProfile::new(7, 7));
}

#[test]
fn exec_without_command_line_is_resumed() {
    let mut ctl = Mock::new();
    let mut tracer = Tracer::new(ResourceProfile::new(1, 1));
    let handled = tracer.handle_wait_status(&mut ctl, exec(100), None);
    assert_eq!(handled.event, Event::Exec { pid: 100, result: OnExecResult::NotThrottled });
    assert_eq!(handled.resume, resumed(100, None));
    assert_eq!(ctl.continues, vec![(100, None)]);
}

#[test]
fn exec_with_empty_command_line_is_resumed() {
    let mut ctl = Mock::new();
    let mut tracer = Tracer::new(ResourceProfile::new(1, 1));
    let handled = tracer.handle_wait_status(&mut ctl, exec(100), Some(b""));
    assert_eq!(handled.event, Event::Exec { pid: 100, result: OnExecResult::NotThrottled });
    assert_eq!(handled.resume, resumed(100, None));
}

#[test]
fn spawn_resumes_the_parent() {
    for (code, kind) in [
        (PTRACE_EVENT_FORK, SpawnKind::Fork),
        (PTRACE_EVENT_VFORK, SpawnKind::Vfork),
        (PTRACE_EVENT_CLONE, SpawnKind::Clone),
    ] {
        let mut ctl = Mock::new();
        ctl.child = Ok(4711);
        let mut tracer = Tracer::new(ResourceProfile::new(1, 1));
        let handled = tracer.handle_wait_status(
            &mut ctl,
            WaitStatus::PtraceEvent { pid: 10, event: code },
            None,
        );
        assert_eq!(handled.event, Event::Spawn { kind, parent: 10, child: Some(4711) });
        assert_eq!(handled.resume, resumed(10, None));
        assert_eq!(ctl.events_read, vec![10]);
        assert_eq!(ctl.continues, vec![(10, None)]);
    }
}

#[test]
fn spawn_without_child_still_resumes_the_parent() {
    let mut ctl = Mock::new();
    ctl.child = Err(ESRCH);
    let mut tracer = Tracer::new(ResourceProfile::new(1, 1));
    let handled =
        tracer.handle_ptrace_event(&mut ctl, 10, PTRACE_EVENT_FORK, None);
    assert_eq!(handled.event, Event::Spawn { kind: SpawnKind::Fork, parent: 10, child: None });
    assert_eq!(handled.resume, resumed(10, None));
    assert_eq!(ctl.continues, vec![(10, None)]);
}

#[test]
fn group_stop_and_unknown_events_are_resumed() {
    let mut ctl = Mock::new();
    let mut tracer = Tracer::new(ResourceProfile::new(1, 1));
    let stop = tracer.handle_ptrace_event(&mut ctl, 10, PTRACE_EVENT_STOP, None);
    assert_eq!(stop.event, Event::GroupStop { pid: 10 });
    assert_eq!(stop.resume, resumed(10, None));
    let unknown = tracer.handle_ptrace_event(&mut ctl, 11, 77, None);
    assert_eq!(unknown.event, Event::UnknownEvent { pid: 11, event: 77 });
    assert_eq!(unknown.resume, resumed(11, None));
    assert_eq!(ctl.continues, vec![(10, None), (11, None)]);
}

#[test]
fn tracing_signals_are_suppressed_and_others_forwarded() {
    let mut ctl = Mock::new();
    let mut tracer = Tracer::new(ResourceProfile::new(1, 1));
    for (signal, forwarded) in
        [(Signal::Trap, None), (Signal::Stop, None), (Signal::Other(15), Some(15))]
    {
        let handled =
            tracer.handle_wait_status(&mut ctl, WaitStatus::Stopped { pid: 5, signal }, None);
        assert_eq!(handled.event, Event::SignalStop { pid: 5, signal });
        assert_eq!(handled.resume, resumed(5, forwarded));
    }
    assert_eq!(ctl.continues, vec![(5, None), (5, None), (5, Some(15))]);
}

#[test]
fn exit_releases_and_drains() {
    let mut ctl = Mock::new();
    let mut tracer = Tracer::new(ResourceProfile::new(1, 1));
    tracer.handle_wait_status(&mut ctl, exec(100), Some(b"cc\0"));
    tracer.handle_wait_status(&mut ctl, exec(101), Some(b"cc\0"));
    tracer.handle_wait_status(&mut ctl, exec(102), Some(b"cc\0"));
    assert_eq!(tracer.limiter.paused_pids(), vec![101, 102]);

    let exited =
        tracer.handle_wait_status(&mut ctl, WaitStatus::Exited { pid: 100, code: 0 }, None);
    assert_eq!(exited, Handled { event: Event::Exited { pid: 100, code: 0 }, resume: None });
    assert!(tracer.limiter.is_active(101));
    assert_eq!(tracer.limiter.paused_pids(), vec![102]);

    let killed = tracer.handle_wait_status(
        &mut ctl,
        WaitStatus::Signaled { pid: 101, signal: Signal::Other(9), core_dumped: false },
        None,
    );
    assert_eq!(
        killed,
        Handled { event: Event::Killed { pid: 101, signal: Signal::Other(9) }, resume: None }
    );
    assert!(tracer.limiter.is_active(102));
    assert_eq!(tracer.limiter.paused_count(), 0);
    assert_eq!(ctl.continues, vec![(100, None), (101, None), (102, None)]);
}

#[test]
fn exit_of_queued() {
    let mut ctl = Mock::new();
    let mut tracer = Tracer::new(ResourceProfile::new(2, 2));
    for pid in [100, 101, 102] {
        tracer.handle_wait_status(&mut ctl, exec(pid), Some(b"cc\0"));
    }
    tracer.handle_wait_status(&mut ctl, WaitStatus::Exited { pid: 102, code: 1 }, None);
    assert_eq!(tracer.limiter.paused_count(), 0);
    assert_eq!(tracer.limiter.active_count(), 2);
    assert_eq!(ctl.continues, vec![(100, None), (101, None)]);
}

#[test]
fn vanished_process_is_dropped_from_the_limiter() {
    let mut ctl = Mock::new();
    let mut tracer = Tracer::new(ResourceProfile::new(1, 1));
    tracer.handle_wait_status(&mut ctl, exec(100), Some(b"cc\0"));
    tracer.handle_wait_status(&mut ctl, exec(101), Some(b"cc\0"));
    assert!(tracer.limiter.is_active(100));

    ctl.failing = vec![(100, ESRCH)];
    let handled = tracer.handle_wait_status(
        &mut ctl,
        WaitStatus::Stopped { pid: 100, signal: Signal::Other(17) },
        None,
    );
    assert_eq!(
        handled.resume,
        Some(Resume { pid: 100, signal: Some(17), outcome: Err(ESRCH) })
    );
    // the slot of 100 went to 101
    assert!(!tracer.limiter.is_active(100));
    assert!(tracer.limiter.is_active(101));
    assert_eq!(tracer.limiter.paused_count(), 0);
    assert_eq!(tracer.limiter.free(), ResourceProfile::new(0, 0));
}

#[test]
fn other_continue_failures_leave_the_limiter_alone() {
    let mut ctl = Mock::new();
    let mut tracer = Tracer::new(ResourceProfile::new(1, 1));
    tracer.handle_wait_status(&mut ctl, exec(100), Some(b"cc\0"));

    ctl.failing = vec![(100, 1)];
    let handled = tracer.handle_wait_status(
        &mut ctl,
        WaitStatus::Stopped { pid: 100, signal: Signal::Trap },
        None,
    );
    assert_eq!(handled.resume, Some(Resume { pid: 100, signal: None, outcome: Err(1) }));
    assert!(tracer.limiter.is_active(100));
    assert_eq!(tracer.limiter.free(), ResourceProfile::new(0, 0));
}

#[test]
fn remaining_statuses() {
    let mut ctl = Mock::new();
    let mut tracer = Tracer::new(ResourceProfile::new(1, 1));
    let syscall = tracer.handle_wait_status(&mut ctl, WaitStatus::PtraceSyscall { pid: 3 }, None);
    assert_eq!(syscall.event, Event::Other { process: Some(3) });
    assert_eq!(syscall.resume, resumed(3, None));
    let continued = tracer.handle_wait_status(&mut ctl, WaitStatus::Continued { pid: 4 }, None);
    assert_eq!(continued.event, Event::Other { process: Some(4) });
    assert_eq!(continued.resume, resumed(4, None));
    let alive = tracer.handle_wait_status(&mut ctl, WaitStatus::StillAlive, None);
    assert_eq!(alive, Handled { event: Event::Other { process: None }, resume: None });
    assert_eq!(ctl.continues, vec![(3, None), (4, None)]);
}

#[test]
fn wait_errors() {
    assert_eq!(on_wait_error(ECHILD), WaitVerdict::Finished);
    assert_eq!(on_wait_error(EINTR), WaitVerdict::Restart);
    assert_eq!(on_wait_error(ESRCH), WaitVerdict::Failed);
    assert_eq!(on_wait_error(0), WaitVerdict::Failed);
    assert_eq!(on_wait_error(-1), WaitVerdict::Failed);
}

#[test]
fn command_line_is_wanted_for_execs_only() {
    assert_eq!(wants_cmdline(&exec(9)), Some(9));
    assert_eq!(wants_cmdline(&WaitStatus::PtraceEvent { pid: 9, event: PTRACE_EVENT_FORK }), None);
    assert_eq!(wants_cmdline(&WaitStatus::Exited { pid: 9, code: 0 }), None);
    assert_eq!(wants_cmdline(&WaitStatus::StillAlive), None);
}

#[test]
fn gone_means_no_such_process() {
    assert!(process_is_gone(Err(ESRCH)));
    assert!(!process_is_gone(Ok(())));
    assert!(!process_is_gone(Err(1)));
    assert!(!process_is_gone(Err(0)));
}

#[test]
fn child_is_the_event_message() {
    assert_eq!(spawned_child(Ok(4711)), Some(4711));
    assert_eq!(spawned_child(Ok(0)), Some(0));
    assert_eq!(spawned_child(Err(ESRCH)), None);
    // a message beyond a process id keeps its low 32 bits
    assert_eq!(spawned_child(Ok((1i64 << 32) + 5)), Some(5));
}
