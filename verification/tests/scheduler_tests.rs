use verniskernel::process::ProcessControlBlock;
use verniskernel::process::ProcessState;
use verniskernel::scheduler::Scheduler;

#[test]
fn create_process_starts_standby() {
    let mut s = Scheduler::new(0);
    let pid = s.create_process(50, String::from("init"), 0);
    assert_eq!(pid, 1);
    let p = s.get_process_info(1).expect("pid 1 must exist");
    assert_eq!(p.state, ProcessState::Standby);
    assert_eq!(p.pid, 1);
    assert_eq!(p.priority, 50);
    assert_eq!(p.nice, 0);
    assert_eq!(p.command, "init");
    assert_eq!(p.working_directory, "/");
    assert_eq!(p.time_quantum, 100);
    assert_eq!(p.time_slice_remaining, 100);
    assert_eq!(p.cpu_time, 0);
    assert!(p.wait_reason.is_none());
    assert!(p.exit_code.is_none());
}

#[test]
fn pids_are_strictly_increasing_and_unique() {
    let mut s = Scheduler::new(0);
    let a = s.create_process(10, String::from("a"), 0);
    let b = s.create_process(20, String::from("b"), 1);
    let c = s.create_process(30, String::from("c"), 2);
    assert!(a < b && b < c);
    assert_eq!((a, b, c), (1, 2, 3));
    assert_eq!(s.get_process_count(), 3);
    assert_eq!(s.total_processes_created, 3);
    assert_eq!(s.next_pid, 4);
}

#[test]
fn effective_priority_is_clamped() {
    let mut p = ProcessControlBlock::new(1, 100, String::from("x"), 0);
    assert_eq!(p.get_effective_priority(), 100);
    p.nice = 5;
    assert_eq!(p.get_effective_priority(), 110);
    p.priority = 139;
    p.nice = 19;
    assert_eq!(p.get_effective_priority(), 139);
    p.priority = 0;
    p.nice = -20;
    assert_eq!(p.get_effective_priority(), 0);
    p.priority = 255;
    p.nice = 19;
    assert_eq!(p.get_effective_priority(), 139);
    p.priority = 10;
    p.nice = -20;
    assert_eq!(p.get_effective_priority(), 0);
}

#[test]
fn schedule_prefers_higher_effective_priority() {
    let mut s = Scheduler::new(0);
    let a = s.create_process(100, String::from("A"), 0);
    let b = s.create_process(100, String::from("B"), 0);
    assert!(s.set_nice(b, 5));
    assert_eq!(s.get_process_info(b).unwrap().get_effective_priority(), 110);
    assert_eq!(s.get_process_info(a).unwrap().get_effective_priority(), 100);
    assert_eq!(s.schedule(0), Some(b));
    assert_eq!(s.get_process_info(b).unwrap().state, ProcessState::Running);
    // After B's slice expires it is demoted, re-evaluated and - still the
    // highest - reselected: priority, not round-robin, governs selection.
    assert_eq!(s.schedule(150), Some(b));
    assert_eq!(s.get_process_info(b).unwrap().state, ProcessState::Running);
    assert_eq!(s.get_process_info(a).unwrap().state, ProcessState::Standby);
}

#[test]
fn ties_go_to_the_lowest_pid() {
    let mut s = Scheduler::new(0);
    let a = s.create_process(100, String::from("A"), 0);
    let _b = s.create_process(100, String::from("B"), 0);
    assert_eq!(s.schedule(0), Some(a));
}

#[test]
fn at_most_one_process_runs() {
    let mut s = Scheduler::new(0);
    for i in 0..5 {
        s.create_process(50 + i, String::from("p"), 0);
    }
    for now in [0u64, 10, 20, 200, 400] {
        s.schedule(now);
        assert!(s.get_running_process_count() <= 1);
    }
    assert_eq!(s.get_running_process_count(), 1);
}

#[test]
fn block_then_wake_round_trip() {
    let mut s = Scheduler::new(0);
    let pid = s.create_process(50, String::from("io-bound"), 0);
    assert_eq!(s.schedule(0), Some(pid));
    s.block_current(String::from("disk"));
    {
        let p = s.get_process_info(pid).unwrap();
        assert_eq!(p.state, ProcessState::Waiting);
        assert_eq!(p.wait_reason.as_deref(), Some("disk"));
    }
    assert!(s.get_current_process().is_none());
    assert!(s.wake_process(pid));
    {
        let p = s.get_process_info(pid).unwrap();
        assert_eq!(p.state, ProcessState::Standby);
        assert!(p.wait_reason.is_none());
    }
    // Waking a process that is not waiting is a no-op returning false.
    assert!(!s.wake_process(pid));
    assert_eq!(s.get_process_info(pid).unwrap().state, ProcessState::Standby);
    // Waking an absent pid is a no-op returning false.
    assert!(!s.wake_process(999));
}

#[test]
fn block_without_running_process_is_noop() {
    let mut s = Scheduler::new(0);
    let pid = s.create_process(50, String::from("p"), 0);
    s.block_current(String::from("nothing runs"));
    assert_eq!(s.get_process_info(pid).unwrap().state, ProcessState::Standby);
    assert_eq!(s.get_waiting_process_count(), 0);
}

#[test]
fn terminate_is_not_zombie() {
    let mut s = Scheduler::new(0);
    let pid = s.create_process(50, String::from("p"), 0);
    assert_eq!(s.schedule(0), Some(pid));
    s.terminate_current(42);
    {
        let p = s.get_process_info(pid).unwrap();
        assert_eq!(p.state, ProcessState::Terminated);
        assert_eq!(p.exit_code, Some(42));
    }
    assert!(s.current_pid.is_none());
    // A Terminated process is not reaped: it is not a Zombie yet.
    assert_eq!(s.cleanup_zombies(), 0);
    assert!(s.get_process_info(pid).is_some());
}

#[test]
fn cleanup_reaps_exactly_the_zombies() {
    let mut s = Scheduler::new(0);
    let live = s.create_process(50, String::from("live"), 0);
    let mut z1 = ProcessControlBlock::new(10, 5, String::from("z1"), 0);
    z1.state = ProcessState::Zombie;
    z1.exit_code = Some(0);
    let mut z2 = ProcessControlBlock::new(11, 5, String::from("z2"), 0);
    z2.state = ProcessState::Zombie;
    z2.exit_code = Some(3);
    s.add_process(z1);
    s.add_process(z2);
    assert_eq!(s.get_process_count(), 3);
    assert_eq!(s.cleanup_zombies(), 2);
    assert_eq!(s.get_process_count(), 1);
    assert!(s.get_process_info(live).is_some());
    assert!(s.get_process_info(10).is_none());
    assert!(s.get_process_info(11).is_none());
    // The survivor is untouched.
    let p = s.get_process_info(live).unwrap();
    assert_eq!(p.state, ProcessState::Standby);
    assert_eq!(p.command, "live");
}

#[test]
fn add_process_preserves_suspended_and_zombie() {
    let mut s = Scheduler::new(0);
    let mut susp = ProcessControlBlock::new(20, 5, String::from("susp"), 0);
    susp.state = ProcessState::Suspended;
    s.add_process(susp);
    assert_eq!(s.get_process_info(20).unwrap().state, ProcessState::Suspended);
    // Anything else re-enters as a clean Standby block.
    let mut waits = ProcessControlBlock::new(21, 5, String::from("w"), 0);
    waits.state = ProcessState::Waiting;
    waits.wait_reason = Some(String::from("old reason"));
    s.add_process(waits);
    let p = s.get_process_info(21).unwrap();
    assert_eq!(p.state, ProcessState::Standby);
    assert!(p.wait_reason.is_none());
}

#[test]
fn idle_time_accrues_when_nothing_is_standby() {
    let mut s = Scheduler::new(0);
    assert_eq!(s.schedule(5), None);
    assert_eq!(s.idle_time, 0); // first call has no previous schedule time
    assert_eq!(s.schedule(12), None);
    assert_eq!(s.idle_time, 7);
    assert_eq!(s.schedule(20), None);
    assert_eq!(s.idle_time, 15);
    assert!(s.current_pid.is_none());
}

#[test]
fn kill_process_forces_termination() {
    let mut s = Scheduler::new(0);
    let pid = s.create_process(50, String::from("victim"), 0);
    assert_eq!(s.schedule(0), Some(pid));
    assert!(s.kill_process(pid));
    let p = s.get_process_info(pid).unwrap();
    assert_eq!(p.state, ProcessState::Terminated);
    assert_eq!(p.exit_code, Some(-1));
    // kill_process deliberately leaves current_pid to the caller.
    assert_eq!(s.current_pid, Some(pid));
    assert!(!s.kill_process(999));
}

#[test]
fn suspend_and_resume_respect_source_states() {
    let mut s = Scheduler::new(0);
    let pid = s.create_process(50, String::from("p"), 0);
    assert!(s.suspend_process(pid)); // Standby -> Suspended
    assert_eq!(s.get_process_info(pid).unwrap().state, ProcessState::Suspended);
    assert!(!s.suspend_process(pid)); // Suspended is not a valid source
    assert!(s.resume_process(pid)); // Suspended -> Standby
    assert_eq!(s.get_process_info(pid).unwrap().state, ProcessState::Standby);
    assert!(!s.resume_process(pid)); // Standby is not a valid source
    assert_eq!(s.schedule(0), Some(pid));
    assert!(s.suspend_process(pid)); // Running -> Suspended
    assert_eq!(s.get_process_info(pid).unwrap().state, ProcessState::Suspended);
}

#[test]
fn set_nice_clamps_and_set_priority_is_raw() {
    let mut s = Scheduler::new(0);
    let pid = s.create_process(50, String::from("p"), 0);
    assert!(s.set_nice(pid, -30));
    assert_eq!(s.get_process_info(pid).unwrap().nice, -20);
    assert!(s.set_nice(pid, 25));
    assert_eq!(s.get_process_info(pid).unwrap().nice, 19);
    assert!(s.set_nice(pid, 7));
    assert_eq!(s.get_process_info(pid).unwrap().nice, 7);
    assert!(s.set_priority(pid, 200));
    assert_eq!(s.get_process_info(pid).unwrap().priority, 200);
    assert!(!s.set_nice(999, 0));
    assert!(!s.set_priority(999, 1));
}

#[test]
fn preemption_demotes_the_running_process() {
    let mut s = Scheduler::new(0);
    let low = s.create_process(10, String::from("low"), 0);
    assert_eq!(s.schedule(0), Some(low));
    assert_eq!(s.context_switches, 1);
    let high = s.create_process(120, String::from("high"), 5);
    // low's slice has not expired, but a higher-priority arrival preempts it
    assert_eq!(s.schedule(10), Some(high));
    assert_eq!(s.context_switches, 2);
    assert_eq!(s.get_process_info(low).unwrap().state, ProcessState::Standby);
    assert_eq!(s.get_process_info(high).unwrap().state, ProcessState::Running);
    // Only Standby blocks are scanned, so the now-standby low-priority
    // process displaces the unexpired runner on the next tick in turn.
    assert_eq!(s.schedule(20), Some(low));
    assert_eq!(s.context_switches, 3);
    assert_eq!(s.get_process_info(high).unwrap().state, ProcessState::Standby);
}

#[test]
fn cpu_accounting_and_slice_expiry() {
    let mut s = Scheduler::new(0);
    let pid = s.create_process(50, String::from("p"), 0);
    assert_eq!(s.schedule(0), Some(pid));
    // 120 ticks pass: the slice (quantum 100) expires, the process is
    // charged, demoted with a fresh slice, and - alone - reselected.
    assert_eq!(s.schedule(120), Some(pid));
    {
        let p = s.get_process_info(pid).unwrap();
        assert_eq!(p.cpu_time, 120);
        assert_eq!(p.time_slice_remaining, 100);
        assert_eq!(p.state, ProcessState::Running);
    }
    assert_eq!(s.cpu_usage, 120);
    // 60 more ticks: charged but unexpired, so the process keeps running
    // and stays current; nothing idles.
    assert_eq!(s.schedule(180), Some(pid));
    assert_eq!(s.current_pid, Some(pid));
    assert_eq!(s.get_process_info(pid).unwrap().cpu_time, 180);
    assert_eq!(s.cpu_usage, 180);
    assert_eq!(s.idle_time, 0);
}

#[test]
fn scheduler_stats_derive_uptime_and_utilization() {
    let mut s = Scheduler::new(100);
    let zero = s.get_scheduler_stats(100);
    assert_eq!(zero.uptime, 0);
    assert_eq!(zero.cpu_utilization, 0); // zero uptime is guarded
    let pid = s.create_process(50, String::from("p"), 100);
    s.schedule(100);
    s.schedule(150);
    let stats = s.get_scheduler_stats(200);
    assert_eq!(stats.uptime, 100);
    assert_eq!(stats.total_processes_created, 1);
    assert_eq!(stats.current_process_count, 1);
    assert_eq!(stats.cpu_utilization, 50); // 50 ticks of use over 100 of uptime
    assert_eq!(stats.running_processes, 1);
    assert_eq!(stats.standby_processes, 0);
    assert_eq!(stats.waiting_processes, 0);
    // the process kept running through both ticks, so nothing idled
    assert_eq!(stats.idle_time, 0);
    let _ = pid;
}

#[test]
fn update_cpu_time_and_reset_time_slice_saturate() {
    let mut p = ProcessControlBlock::new(1, 50, String::from("p"), 0);
    p.update_cpu_time(70);
    assert_eq!(p.cpu_time, 70);
    p.update_cpu_time(u64::MAX);
    assert_eq!(p.cpu_time, u64::MAX);
    p.time_slice_remaining = 3;
    p.reset_time_slice();
    assert_eq!(p.time_slice_remaining, p.time_quantum);
}

#[test]
fn unexpired_runner_keeps_running_when_nothing_is_standby() {
    // With nothing Standby, a tick leaves the unexpired current process
    // Running and current - the tick is not idle - so a later dispatch
    // demotes it and exactly one block ever runs.
    let mut s = Scheduler::new(0);
    let a = s.create_process(50, String::from("a"), 0);
    assert_eq!(s.schedule(0), Some(a));
    assert_eq!(s.schedule(10), Some(a));
    assert_eq!(s.current_pid, Some(a));
    assert_eq!(s.get_process_info(a).unwrap().state, ProcessState::Running);
    assert_eq!(s.idle_time, 0);
    let b = s.create_process(60, String::from("b"), 10);
    assert_eq!(s.schedule(20), Some(b));
    assert_eq!(s.get_process_info(a).unwrap().state, ProcessState::Standby);
    assert_eq!(s.get_running_process_count(), 1);
}
