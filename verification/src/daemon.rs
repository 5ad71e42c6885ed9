//! Finding the build daemon among the processes of the host and attaching
//! to it.

use vstd::prelude::*;
use crate::control::{ProcessControl, TraceOptions};
use crate::nixutil::{cmdline_args, parse_cmdline};
use crate::text::str_eq;

verus! {

/// Why the supervisor could not start.
#[derive(Clone, Copy, Debug, PartialEq, Eq)]
pub enum AttachError {
    /// No process of the host is the build daemon.
    NoDaemonFound,
    /// There are daemon processes, but none could be attached to.
    NoDaemonAttached,
}

/// A process of the host: its id and the contents of its `cmdline` file.
#[derive(Clone, Debug)]
pub struct ProcessInfo {
    pub pid: i32,
    pub cmdline: Vec<u8>,
}

/// The ptrace options we set on every tracee: its forks, vforks, clones
/// and execs are reported, and its children inherit the options.
pub fn trace_options() -> (options: TraceOptions)
    ensures
        options == (TraceOptions {
            trace_fork: true,
            trace_vfork: true,
            trace_clone: true,
            trace_exec: true,
        }),
{
    TraceOptions { trace_fork: true, trace_vfork: true, trace_clone: true, trace_exec: true }
}

/// Whether `args` is the argv of the build daemon: the program
/// `nix-daemon`, started with `--daemon` as its first argument.
pub open spec fn is_daemon_argv(args: Seq<Seq<char>>) -> bool {
    args.len() >= 2 && args[0] == "nix-daemon"@ && args[1] == "--daemon"@
}

/// Whether `process` is a build daemon, by its command line.
pub open spec fn is_daemon(process: ProcessInfo) -> bool {
    is_daemon_argv(cmdline_args(process.cmdline@))
}

/// The ids of the build daemons among `processes`, in their order.
pub open spec fn daemons_among(processes: Seq<ProcessInfo>) -> Seq<i32> {
    processes.filter(|p: ProcessInfo| is_daemon(p)).map_values(|p: ProcessInfo| p.pid)
}

/// What an attach phase comes to that found `found` daemons and attached
/// to `attached` of them.
pub open spec fn attach_result(found: nat, attached: nat) -> Result<usize, AttachError> {
    if found == 0 {
        Err(AttachError::NoDaemonFound)
    } else if attached == 0 {
        Err(AttachError::NoDaemonAttached)
    } else {
        Ok(attached as usize)
    }
}

/// Whether `args` is the argv of the build daemon.
pub fn is_nix_daemon(args: &[String]) -> (found: bool)
    ensures
        found == is_daemon_argv(args.deep_view()),
{
    if args.len() < 2 {
        return false;
    }
    assert(args.deep_view()[0] == args@[0]@);
    assert(args.deep_view()[1] == args@[1]@);
    str_eq(args[0].as_str(), "nix-daemon") && str_eq(args[1].as_str(), "--daemon")
}

/// Select, among the processes of the host, those whose command line is
/// `nix-daemon --daemon`.
pub fn find_nix_daemon_pids(processes: &[ProcessInfo]) -> (pids: Vec<i32>)
    ensures
        pids@ == daemons_among(processes@),
{
    let mut pids: Vec<i32> = Vec::new();
    let mut i: usize = 0;
    proof {
        reveal(Seq::filter);
        assert(processes@.take(0) =~= Seq::<ProcessInfo>::empty());
        assert(daemons_among(processes@.take(0)) =~= Seq::<i32>::empty());
    }
    while i < processes.len()
        invariant
            i <= processes.len(),
            pids@ == daemons_among(processes@.take(i as int)),
        decreases processes.len() - i,
    {
        let args = parse_cmdline(processes[i].cmdline.as_slice());
        proof {
            reveal(Seq::filter);
            assert(processes@.take(i + 1).drop_last() =~= processes@.take(i as int));
            assert(processes@.take(i + 1).last() == processes@[i as int]);
        }
        if is_nix_daemon(args.as_slice()) {
            pids.push(processes[i].pid);
            proof {
                let seen = processes@.take(i as int).filter(|p: ProcessInfo| is_daemon(p));
                assert(processes@.take(i + 1).filter(|p: ProcessInfo| is_daemon(p)) == seen.push(
                    processes@[i as int],
                ));
                assert(daemons_among(processes@.take(i + 1)) =~= daemons_among(
                    processes@.take(i as int),
                ).push(processes@[i as int].pid));
            }
        }
        i += 1;
    }
    proof {
        assert(processes@.take(i as int) =~= processes@);
    }
    pids
}

/// What the attach phase returns once `found` daemons were found and
/// `attached` of them attached to.
pub fn attach_outcome(found: usize, attached: usize) -> (outcome: Result<usize, AttachError>)
    ensures
        outcome == attach_result(found as nat, attached as nat),
{
    if found == 0 {
        Err(AttachError::NoDaemonFound)
    } else if attached == 0 {
        Err(AttachError::NoDaemonAttached)
    } else {
        Ok(attached)
    }
}

/// Find all nix-daemon processes among `processes` and attach to them
/// through `ctl`. A daemon that cannot be attached to is passed over.
/// Returns the number of successfully attached processes.
pub fn attach_to_nix_daemons<C: ProcessControl>(ctl: &mut C, processes: &[ProcessInfo]) -> (outcome:
    Result<usize, AttachError>)
    ensures
        exists|attached: nat|
            attached <= daemons_among(processes@).len() && outcome == #[trigger] attach_result(
                daemons_among(processes@).len(),
                attached,
            ),
{
    let daemon_pids = find_nix_daemon_pids(processes);
    let mut attached: usize = 0;
    let mut i: usize = 0;
    while i < daemon_pids.len()
        invariant
            attached <= i <= daemon_pids.len(),
        decreases daemon_pids.len() - i,
    {
        if ctl.seize(daemon_pids[i], trace_options()).is_ok() {
            attached += 1;
        }
        i += 1;
    }
    let outcome = attach_outcome(daemon_pids.len(), attached);
    assert(outcome == attach_result(daemons_among(processes@).len(), attached as nat));
    outcome
}

} // verus!
