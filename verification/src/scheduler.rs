//! The scheduler: the process table, the selection algorithm and the
//! aggregate statistics.
//!
//! The table is a vector of process control blocks kept strictly sorted by
//! pid, so every scan visits processes in ascending pid order and ties in
//! the selection algorithm are broken deterministically towards the lowest
//! pid.

use vstd::prelude::*;

use crate::process::DEFAULT_TIME_QUANTUM;
use crate::process::MemoryInfo;
use crate::process::CpuContext;
use crate::process::ProcessControlBlock;
use crate::process::ProcessState;
use crate::process::pcb_consistent;
use crate::process::sat_add64;
use crate::process::sat_sub64;
use crate::process::add_saturating;
use crate::process::sub_saturating;
use crate::process::spec_effective_priority;

verus! {

/// Mathematical abstraction of a scheduler: the table as a sequence in pid
/// order together with the counters.
#[verifier::ext_equal]
pub ghost struct SchedModel {
    pub procs: Seq<ProcessControlBlock>,
    pub current_pid: Option<usize>,
    pub next_pid: usize,
    pub total_processes_created: usize,
    pub scheduler_start_time: u64,
    pub cpu_usage: u64,
    pub context_switches: usize,
    pub idle_time: u64,
    pub last_schedule_time: Option<u64>,
}

/// Pids strictly increase along the table, so no two entries share a pid.
pub open spec fn sorted_by_pid(procs: Seq<ProcessControlBlock>) -> bool {
    forall|i: int, j: int|
        0 <= i < j < procs.len() ==> procs[i].pid < procs[j].pid
}

/// Every block in the table satisfies its field-level consistency.
pub open spec fn table_consistent(procs: Seq<ProcessControlBlock>) -> bool {
    forall|i: int| 0 <= i < procs.len() ==> pcb_consistent(#[trigger] procs[i])
}

/// Some entry of the table carries this pid.
pub open spec fn has_pid(procs: Seq<ProcessControlBlock>, pid: usize) -> bool {
    exists|i: int| 0 <= i < procs.len() && procs[i].pid == pid
}

/// The index of the entry carrying this pid; meaningful when `has_pid`
/// holds and the table is sorted.
pub open spec fn idx_of(procs: Seq<ProcessControlBlock>, pid: usize) -> int {
    choose|i: int| 0 <= i < procs.len() && procs[i].pid == pid
}

impl SchedModel {
    /// Well-formedness: the table is sorted with consistent entries, pids
    /// are allocated from 1 upwards, and the creation counter tracks the
    /// pid allocator.
    pub open spec fn wf(self) -> bool {
        &&& sorted_by_pid(self.procs)
        &&& table_consistent(self.procs)
        &&& self.next_pid >= 1
        &&& self.total_processes_created == self.next_pid - 1
    }
}

/// In a sorted table an index holding a given pid is unique.
pub proof fn lemma_sorted_pid_unique(procs: Seq<ProcessControlBlock>, i: int, j: int)
    requires
        sorted_by_pid(procs),
        0 <= i < procs.len(),
        0 <= j < procs.len(),
        procs[i].pid == procs[j].pid,
    ensures
        i == j,
{
    if i < j {
        assert(procs[i].pid < procs[j].pid);
    } else if j < i {
        assert(procs[j].pid < procs[i].pid);
    }
}

/// Position at which a pid lives or would be inserted to keep the table
/// sorted: the first index whose pid is not below it.
pub open spec fn insert_pos(procs: Seq<ProcessControlBlock>, pid: usize) -> int
    decreases procs.len(),
{
    if procs.len() == 0 {
        0
    } else if procs[0].pid >= pid {
        0
    } else {
        1 + insert_pos(procs.skip(1), pid)
    }
}

/// `insert_pos` is the boundary between the pids below and the rest.
pub proof fn lemma_insert_pos(procs: Seq<ProcessControlBlock>, pid: usize)
    ensures
        0 <= insert_pos(procs, pid) <= procs.len(),
        forall|j: int| 0 <= j < insert_pos(procs, pid) ==> (#[trigger] procs[j]).pid < pid,
        insert_pos(procs, pid) < procs.len() ==> procs[insert_pos(procs, pid)].pid >= pid,
    decreases procs.len(),
{
    if procs.len() != 0 && procs[0].pid < pid {
        lemma_insert_pos(procs.skip(1), pid);
        assert forall|j: int| 0 <= j < insert_pos(procs, pid) implies (#[trigger] procs[j]).pid
            < pid by {
            if j >= 1 {
                assert(procs.skip(1)[j - 1] == procs[j]);
            }
        }
        if insert_pos(procs, pid) < procs.len() {
            assert(procs.skip(1)[insert_pos(procs.skip(1), pid)] == procs[insert_pos(
                procs,
                pid,
            )]);
        }
    }
}

/// The table with one block inserted at its pid position, replacing any
/// block that already carried the same pid.
pub open spec fn table_insert(
    procs: Seq<ProcessControlBlock>,
    p: ProcessControlBlock,
) -> Seq<ProcessControlBlock> {
    let i = insert_pos(procs, p.pid);
    if i < procs.len() && procs[i].pid == p.pid {
        procs.update(i, p)
    } else {
        procs.insert(i, p)
    }
}

/// Inserting keeps the table sorted and consistent, and afterwards the
/// pid is present.
pub proof fn lemma_table_insert(procs: Seq<ProcessControlBlock>, p: ProcessControlBlock)
    requires
        sorted_by_pid(procs),
    ensures
        sorted_by_pid(table_insert(procs, p)),
        table_consistent(procs) && pcb_consistent(p) ==> table_consistent(table_insert(procs, p)),
        has_pid(table_insert(procs, p), p.pid),
        idx_of(table_insert(procs, p), p.pid) == insert_pos(procs, p.pid),
        table_insert(procs, p)[insert_pos(procs, p.pid)] == p,
{
    lemma_insert_pos(procs, p.pid);
    let i = insert_pos(procs, p.pid);
    let out = table_insert(procs, p);
    if i < procs.len() && procs[i].pid == p.pid {
        assert(out[i] == p);
        assert(sorted_by_pid(out));
    } else {
        assert(out == procs.insert(i, p));
        assert forall|x: int, y: int| 0 <= x < y < out.len() implies out[x].pid < out[y].pid by {
            if y < i {
                assert(out[x] == procs[x] && out[y] == procs[y]);
            } else if x > i {
                assert(out[x] == procs[x - 1] && out[y] == procs[y - 1]);
            } else if x < i && y == i {
                assert(out[x] == procs[x] && out[y] == p);
            } else if x == i && y > i {
                assert(out[x] == p && out[y] == procs[y - 1]);
                assert(procs[y - 1].pid >= procs[i].pid);
            } else if x < i && y > i {
                assert(out[x] == procs[x] && out[y] == procs[y - 1]);
                assert(procs[x].pid < p.pid);
                assert(procs[y - 1].pid >= procs[i].pid);
            }
        }
    }
    assert(out[i] == p);
    let w = idx_of(out, p.pid);
    assert(has_pid(out, p.pid));
    lemma_sorted_pid_unique(out, w, i);
}

/// Aggregate scheduler statistics, all times in ticks.
#[derive(Debug, Clone, Copy, PartialEq, Eq, Structural)]
pub struct SchedulerStats {
    pub uptime: u64,
    pub total_processes_created: usize,
    pub current_process_count: usize,
    pub context_switches: usize,
    /// Whole percent of uptime spent executing processes, clamped to the
    /// representable range; zero while uptime is zero.
    pub cpu_utilization: u64,
    pub idle_time: u64,
    pub running_processes: usize,
    pub standby_processes: usize,
    pub waiting_processes: usize,
}

/// Whole-percent CPU utilization, guarding the division by zero uptime.
pub open spec fn spec_utilization(cpu_usage: u64, uptime: u64) -> u64 {
    if uptime == 0 {
        0
    } else if cpu_usage * 100 / (uptime as int) > u64::MAX {
        u64::MAX
    } else {
        (cpu_usage * 100 / (uptime as int)) as u64
    }
}

/// Number of table entries in a given state.
pub open spec fn count_in_state(procs: Seq<ProcessControlBlock>, st: ProcessState) -> nat
    decreases procs.len(),
{
    if procs.len() == 0 {
        0
    } else {
        count_in_state(procs.drop_last(), st) + if procs.last().state == st {
            1nat
        } else {
            0nat
        }
    }
}

/// The scheduler: exclusive owner of every process control block in its
/// table.  `current_pid` is the sole source of truth for which process the
/// host should be executing.
pub struct Scheduler {
    pub processes: Vec<ProcessControlBlock>,
    pub current_pid: Option<usize>,
    pub next_pid: usize,
    pub total_processes_created: usize,
    pub scheduler_start_time: u64,
    pub cpu_usage: u64,
    pub context_switches: usize,
    pub idle_time: u64,
    pub last_schedule_time: Option<u64>,
}

impl View for Scheduler {
    type V = SchedModel;

    open spec fn view(&self) -> SchedModel {
        SchedModel {
            procs: self.processes@,
            current_pid: self.current_pid,
            next_pid: self.next_pid,
            total_processes_created: self.total_processes_created,
            scheduler_start_time: self.scheduler_start_time,
            cpu_usage: self.cpu_usage,
            context_switches: self.context_switches,
            idle_time: self.idle_time,
            last_schedule_time: self.last_schedule_time,
        }
    }
}

impl Scheduler {
    /// An empty scheduler started at tick `now`: no processes, pid
    /// allocation beginning at 1, all counters zero.
    pub fn new(now: u64) -> (r: Self)
        ensures
            r@.procs.len() == 0,
            r@.current_pid is None,
            r@.next_pid == 1,
            r@.total_processes_created == 0,
            r@.scheduler_start_time == now,
            r@.cpu_usage == 0,
            r@.context_switches == 0,
            r@.idle_time == 0,
            r@.last_schedule_time is None,
            r@.wf(),
    {
        Scheduler {
            processes: Vec::new(),
            current_pid: None,
            next_pid: 1,
            total_processes_created: 0,
            scheduler_start_time: now,
            cpu_usage: 0,
            context_switches: 0,
            idle_time: 0,
            last_schedule_time: None,
        }
    }

    /// Index of the table entry carrying `pid`, if any.
    fn find_index(&self, pid: usize) -> (r: Option<usize>)
        requires
            sorted_by_pid(self@.procs),
        ensures
            r is Some <==> has_pid(self@.procs, pid),
            r is Some ==> r->0 < self@.procs.len() && self@.procs[r->0 as int].pid == pid
                && r->0 as int == idx_of(self@.procs, pid),
    {
        let n = self.processes.len();
        let mut k: usize = 0;
        while k < n
            invariant
                n == self@.procs.len(),
                0 <= k <= n,
                sorted_by_pid(self@.procs),
                forall|j: int| 0 <= j < k ==> (#[trigger] self@.procs[j]).pid != pid,
            decreases n - k,
        {
            if self.processes[k].pid == pid {
                proof {
                    let w = idx_of(self@.procs, pid);
                    assert(has_pid(self@.procs, pid));
                    lemma_sorted_pid_unique(self@.procs, w, k as int);
                }
                return Some(k);
            }
            k += 1;
        }
        None
    }

    /// Put `p` into the table at its pid position, replacing any entry with
    /// the same pid.
    fn put_pcb(&mut self, p: ProcessControlBlock)
        requires
            sorted_by_pid(old(self)@.procs),
        ensures
            final(self).processes@ == table_insert(old(self).processes@, p),
            final(self).current_pid == old(self).current_pid,
            final(self).next_pid == old(self).next_pid,
            final(self).total_processes_created == old(self).total_processes_created,
            final(self).scheduler_start_time == old(self).scheduler_start_time,
            final(self).cpu_usage == old(self).cpu_usage,
            final(self).context_switches == old(self).context_switches,
            final(self).idle_time == old(self).idle_time,
            final(self).last_schedule_time == old(self).last_schedule_time,
    {
        proof {
            lemma_insert_pos(old(self).processes@, p.pid);
        }
        let n = self.processes.len();
        let mut k: usize = 0;
        while k < n && self.processes[k].pid < p.pid
            invariant
                n == self@.procs.len(),
                0 <= k <= n,
                self@ == old(self)@,
                forall|j: int| 0 <= j < k ==> (#[trigger] self@.procs[j]).pid < p.pid,
            decreases n - k,
        {
            k += 1;
        }
        proof {
            lemma_insert_pos(self@.procs, p.pid);
            let ip = insert_pos(self@.procs, p.pid);
            if ip < k {
                assert(self@.procs[ip].pid < p.pid);
            }
            if k < ip {
                assert(self@.procs[k as int].pid < p.pid);
            }
            assert(ip == k);
        }
        if k < n && self.processes[k].pid == p.pid {
            self.processes[k] = p;
        } else {
            self.processes.insert(k, p);
        }
    }
}

/// What a block created by `create_process` looks like: freshly built with
/// the given pid, priority and command, forced into `Standby`.
pub open spec fn created_entry_ok(
    p: ProcessControlBlock,
    pid: usize,
    priority: u8,
    command: String,
    now: u64,
) -> bool {
    &&& p.pid == pid
    &&& p.ppid is None
    &&& p.state == ProcessState::Standby
    &&& p.priority == priority
    &&& p.nice == 0
    &&& p.context == CpuContext::zeroed()
    &&& p.memory_info == MemoryInfo::zeroed()
    &&& p.cpu_time == 0
    &&& p.start_time == now
    &&& p.last_run_time is None
    &&& p.time_quantum == DEFAULT_TIME_QUANTUM
    &&& p.time_slice_remaining == DEFAULT_TIME_QUANTUM
    &&& p.wait_reason is None
    &&& p.exit_code is None
    &&& p.command == command
    &&& p.working_directory@ == "/"@
}

/// How `add_process` adjusts an externally built block before insertion:
/// `Suspended` and `Zombie` blocks keep their state, anything else re-enters
/// as a clean `Standby` block.
pub open spec fn normalize_added(p: ProcessControlBlock) -> ProcessControlBlock {
    if p.state == ProcessState::Suspended || p.state == ProcessState::Zombie {
        p
    } else {
        ProcessControlBlock {
            state: ProcessState::Standby,
            wait_reason: None,
            exit_code: None,
            ..p
        }
    }
}

/// Transition of `block_current`: the current process moves from `Running`
/// to `Waiting` carrying the reason, and nothing is current any more.  A
/// no-op unless the current process exists and is `Running`.
pub open spec fn spec_block(m: SchedModel, reason: String) -> SchedModel {
    if m.current_pid is Some && has_pid(m.procs, m.current_pid->0) && m.procs[idx_of(
        m.procs,
        m.current_pid->0,
    )].state == ProcessState::Running {
        let i = idx_of(m.procs, m.current_pid->0);
        let p = m.procs[i];
        SchedModel {
            procs: m.procs.update(
                i,
                ProcessControlBlock {
                    state: ProcessState::Waiting,
                    wait_reason: Some(reason),
                    ..p
                },
            ),
            current_pid: None,
            ..m
        }
    } else {
        m
    }
}

/// Transition of `wake_process`: a `Waiting` block returns to `Standby` and
/// its wait reason is cleared; any other pid is left alone.
pub open spec fn spec_wake(m: SchedModel, pid: usize) -> SchedModel {
    if has_pid(m.procs, pid) && m.procs[idx_of(m.procs, pid)].state == ProcessState::Waiting {
        let i = idx_of(m.procs, pid);
        let p = m.procs[i];
        SchedModel {
            procs: m.procs.update(
                i,
                ProcessControlBlock { state: ProcessState::Standby, wait_reason: None, ..p },
            ),
            ..m
        }
    } else {
        m
    }
}

/// Transition of `terminate_current`: the current `Running` process becomes
/// `Terminated` with the exit code recorded, and nothing is current any
/// more.  A no-op unless the current process exists and is `Running`.
pub open spec fn spec_terminate(m: SchedModel, exit_code: i32) -> SchedModel {
    if m.current_pid is Some && has_pid(m.procs, m.current_pid->0) && m.procs[idx_of(
        m.procs,
        m.current_pid->0,
    )].state == ProcessState::Running {
        let i = idx_of(m.procs, m.current_pid->0);
        let p = m.procs[i];
        SchedModel {
            procs: m.procs.update(
                i,
                ProcessControlBlock {
                    state: ProcessState::Terminated,
                    exit_code: Some(exit_code),
                    ..p
                },
            ),
            current_pid: None,
            ..m
        }
    } else {
        m
    }
}

/// Transition of `kill_process`: any existing block is forced straight to
/// `Terminated` with exit code -1, whatever state it was in.  `current_pid`
/// is deliberately left alone; a caller that kills the current process must
/// handle that itself.
pub open spec fn spec_kill(m: SchedModel, pid: usize) -> SchedModel {
    if has_pid(m.procs, pid) {
        let i = idx_of(m.procs, pid);
        let p = m.procs[i];
        SchedModel {
            procs: m.procs.update(
                i,
                ProcessControlBlock {
                    state: ProcessState::Terminated,
                    exit_code: Some(-1i32),
                    wait_reason: None,
                    ..p
                },
            ),
            ..m
        }
    } else {
        m
    }
}

/// Saturating addition on `usize` counters.
pub open spec fn sat_add_usize(a: usize, b: usize) -> usize {
    if a + b > usize::MAX {
        usize::MAX
    } else {
        (a + b) as usize
    }
}

/// Effective priority of a block.
pub open spec fn eff_of(p: ProcessControlBlock) -> u8 {
    spec_effective_priority(p.priority, p.nice)
}

/// An index option widened from the executable type.
pub open spec fn opt_int(o: Option<usize>) -> Option<int> {
    match o {
        Some(b) => Some(b as int),
        None => None,
    }
}

/// Phase one of `schedule`: charge the elapsed ticks since the current
/// process last started running to it and to the global usage counter, and
/// demote it to `Standby` with a fresh slice when its slice has expired.
/// Nothing happens unless a current process exists and is `Running` with a
/// recorded last run time.
pub open spec fn charge_current(m: SchedModel, now: u64) -> SchedModel {
    if m.current_pid is Some && has_pid(m.procs, m.current_pid->0) {
        let i = idx_of(m.procs, m.current_pid->0);
        let p = m.procs[i];
        if p.state == ProcessState::Running && p.last_run_time is Some {
            let elapsed = sat_sub64(now, p.last_run_time->0);
            let charged = ProcessControlBlock {
                cpu_time: sat_add64(p.cpu_time, elapsed),
                ..p
            };
            let adjusted = if elapsed >= p.time_slice_remaining {
                ProcessControlBlock {
                    state: ProcessState::Standby,
                    time_slice_remaining: p.time_quantum,
                    ..charged
                }
            } else {
                charged
            };
            SchedModel {
                procs: m.procs.update(i, adjusted),
                cpu_usage: sat_add64(m.cpu_usage, elapsed),
                ..m
            }
        } else {
            m
        }
    } else {
        m
    }
}

/// The left-to-right scan of the selection loop: starting at index `i` with
/// `best` as the best candidate so far, the index of the `Standby` block
/// with the greatest effective priority.  A strictly greater priority is
/// needed to displace the candidate, so among equals the first one - the
/// lowest pid - wins.
pub open spec fn pick_from(procs: Seq<ProcessControlBlock>, i: int, best: Option<int>) -> Option<
    int,
>
    decreases procs.len() - i,
{
    if i < 0 || i >= procs.len() {
        best
    } else {
        let better = procs[i].state == ProcessState::Standby && (best is None || eff_of(procs[i])
            > eff_of(procs[best->0]));
        pick_from(procs, i + 1, if better {
            Some(i)
        } else {
            best
        })
    }
}

/// Index of the block `schedule` selects: the first `Standby` block with
/// the greatest effective priority, or nothing when no block is `Standby`.
pub open spec fn pick_next(procs: Seq<ProcessControlBlock>) -> Option<int> {
    pick_from(procs, 0, None)
}

/// Phase two of `schedule`: dispatch the selected block.  On a change of
/// current pid the switch counter is bumped and a previous current process
/// still `Running` is demoted to `Standby`.  When nothing is `Standby`, a
/// current process still `Running` keeps running and stays current -
/// `current_pid` remains the sole source of truth for the one running
/// block - and only otherwise does the tick count as idle time and clear
/// `current_pid`.
pub open spec fn select_next(m: SchedModel, now: u64) -> SchedModel {
    match pick_next(m.procs) {
        Some(i) => {
            let pid = m.procs[i].pid;
            let m1 = if m.current_pid != Some(pid) {
                let msw = SchedModel {
                    context_switches: sat_add_usize(m.context_switches, 1),
                    ..m
                };
                if m.current_pid is Some && has_pid(m.procs, m.current_pid->0) {
                    let j = idx_of(m.procs, m.current_pid->0);
                    let q = m.procs[j];
                    if q.state == ProcessState::Running {
                        SchedModel {
                            procs: msw.procs.update(
                                j,
                                ProcessControlBlock { state: ProcessState::Standby, ..q },
                            ),
                            ..msw
                        }
                    } else {
                        msw
                    }
                } else {
                    msw
                }
            } else {
                m
            };
            let p = m1.procs[i];
            SchedModel {
                procs: m1.procs.update(
                    i,
                    ProcessControlBlock {
                        state: ProcessState::Running,
                        last_run_time: Some(now),
                        ..p
                    },
                ),
                current_pid: Some(pid),
                last_schedule_time: Some(now),
                ..m1
            }
        },
        None => {
            if m.current_pid is Some && has_pid(m.procs, m.current_pid->0) && m.procs[idx_of(
                m.procs,
                m.current_pid->0,
            )].state == ProcessState::Running {
                // The current process is still mid-slice: it simply keeps
                // running and stays current.  The system is not idle.
                SchedModel { last_schedule_time: Some(now), ..m }
            } else {
                SchedModel {
                    idle_time: if m.last_schedule_time is Some {
                        sat_add64(m.idle_time, sat_sub64(now, m.last_schedule_time->0))
                    } else {
                        m.idle_time
                    },
                    current_pid: None,
                    last_schedule_time: Some(now),
                    ..m
                }
            }
        },
    }
}

/// The complete `schedule` transition: charge, then select.
pub open spec fn spec_schedule(m: SchedModel, now: u64) -> SchedModel {
    select_next(charge_current(m, now), now)
}

/// A block is live in the table: anything but a reapable `Zombie`.
pub open spec fn not_zombie(p: ProcessControlBlock) -> bool {
    p.state != ProcessState::Zombie
}

/// The table after a reap: exactly the non-`Zombie` blocks, in order.
pub open spec fn reap(procs: Seq<ProcessControlBlock>) -> Seq<ProcessControlBlock> {
    procs.filter(|p: ProcessControlBlock| not_zombie(p))
}

/// The niceness range accepted by `set_nice`.
pub open spec fn clamp_nice(nice: i8) -> i8 {
    if nice < -20 {
        -20i8
    } else if nice > 19 {
        19i8
    } else {
        nice
    }
}

impl Scheduler {
    /// Allocate the next pid, build a fresh `Standby` block for `command`
    /// with the given static priority, and insert it.  Pid-space exhaustion
    /// is a fatal precondition of the hosting environment, not a handled
    /// error.
    pub fn create_process(&mut self, priority: u8, command: String, now: u64) -> (pid: usize)
        requires
            old(self)@.wf(),
            old(self).next_pid < usize::MAX,
        ensures
            final(self)@.wf(),
            pid == old(self).next_pid,
            final(self).next_pid == old(self).next_pid + 1,
            final(self).total_processes_created == old(self).total_processes_created + 1,
            has_pid(final(self)@.procs, pid),
            created_entry_ok(
                final(self)@.procs[idx_of(final(self)@.procs, pid)],
                pid,
                priority,
                command,
                now,
            ),
            final(self)@.procs == table_insert(
                old(self)@.procs,
                final(self)@.procs[idx_of(final(self)@.procs, pid)],
            ),
            final(self).current_pid == old(self).current_pid,
            final(self).scheduler_start_time == old(self).scheduler_start_time,
            final(self).cpu_usage == old(self).cpu_usage,
            final(self).context_switches == old(self).context_switches,
            final(self).idle_time == old(self).idle_time,
            final(self).last_schedule_time == old(self).last_schedule_time,
    {
        let pid = self.next_pid;
        self.next_pid = self.next_pid + 1;
        self.total_processes_created = self.total_processes_created + 1;
        let mut p = ProcessControlBlock::new(pid, priority, command, now);
        p.state = ProcessState::Standby;
        proof {
            lemma_table_insert(self@.procs, p);
        }
        self.put_pcb(p);
        pid
    }

    /// Insert an externally constructed block, e.g. one restored from a
    /// snapshot.  `Suspended` and `Zombie` blocks keep their state; any
    /// other block re-enters the table as a clean `Standby` one.
    pub fn add_process(&mut self, pcb: ProcessControlBlock) -> (pid: usize)
        requires
            old(self)@.wf(),
            pcb_consistent(pcb),
        ensures
            final(self)@.wf(),
            pid == pcb.pid,
            final(self)@.procs == table_insert(old(self)@.procs, normalize_added(pcb)),
            final(self).current_pid == old(self).current_pid,
            final(self).next_pid == old(self).next_pid,
            final(self).total_processes_created == old(self).total_processes_created,
            final(self).scheduler_start_time == old(self).scheduler_start_time,
            final(self).cpu_usage == old(self).cpu_usage,
            final(self).context_switches == old(self).context_switches,
            final(self).idle_time == old(self).idle_time,
            final(self).last_schedule_time == old(self).last_schedule_time,
    {
        let pid = pcb.pid;
        let mut q = pcb;
        let keep_state = match q.state {
            ProcessState::Suspended => true,
            ProcessState::Zombie => true,
            _ => false,
        };
        if !keep_state {
            q.state = ProcessState::Standby;
            q.wait_reason = None;
            q.exit_code = None;
        }
        proof {
            assert(q == normalize_added(pcb));
            assert(pcb_consistent(q));
            lemma_table_insert(self@.procs, q);
        }
        self.put_pcb(q);
        pid
    }

    /// Move the running process to `Waiting` with the given reason and make
    /// nothing current.  A no-op when no process is running.
    pub fn block_current(&mut self, reason: String)
        requires
            old(self)@.wf(),
        ensures
            final(self)@ == spec_block(old(self)@, reason),
            final(self)@.wf(),
    {
        let ghost pre = self@;
        if let Some(c) = self.current_pid {
            if let Some(i) = self.find_index(c) {
                if self.processes[i].state == ProcessState::Running {
                    self.processes[i].state = ProcessState::Waiting;
                    self.processes[i].wait_reason = Some(reason);
                    self.current_pid = None;
                }
            }
        }
        proof {
            assert(self@ =~= spec_block(pre, reason));
        }
    }

    /// Return a `Waiting` process to `Standby`, clearing its wait reason.
    /// Reports whether anything changed: false when the pid is absent or
    /// the process is not `Waiting`.
    pub fn wake_process(&mut self, pid: usize) -> (r: bool)
        requires
            old(self)@.wf(),
        ensures
            final(self)@ == spec_wake(old(self)@, pid),
            final(self)@.wf(),
            r == (has_pid(old(self)@.procs, pid) && old(self)@.procs[idx_of(
                old(self)@.procs,
                pid,
            )].state == ProcessState::Waiting),
    {
        let ghost pre = self@;
        let mut woke = false;
        if let Some(i) = self.find_index(pid) {
            if self.processes[i].state == ProcessState::Waiting {
                self.processes[i].state = ProcessState::Standby;
                self.processes[i].wait_reason = None;
                woke = true;
            }
        }
        proof {
            assert(self@ =~= spec_wake(pre, pid));
        }
        woke
    }

    /// Terminate the running process with the given exit code and make
    /// nothing current.  A no-op when no process is running.
    pub fn terminate_current(&mut self, exit_code: i32)
        requires
            old(self)@.wf(),
        ensures
            final(self)@ == spec_terminate(old(self)@, exit_code),
            final(self)@.wf(),
    {
        let ghost pre = self@;
        if let Some(c) = self.current_pid {
            if let Some(i) = self.find_index(c) {
                if self.processes[i].state == ProcessState::Running {
                    self.processes[i].state = ProcessState::Terminated;
                    self.processes[i].exit_code = Some(exit_code);
                    self.current_pid = None;
                }
            }
        }
        proof {
            assert(self@ =~= spec_terminate(pre, exit_code));
        }
    }

    /// Force any existing process straight to `Terminated` with exit code
    /// -1.  Deliberately does not clear `current_pid`: a caller killing the
    /// current process is responsible for handling that.
    pub fn kill_process(&mut self, pid: usize) -> (r: bool)
        requires
            old(self)@.wf(),
        ensures
            final(self)@ == spec_kill(old(self)@, pid),
            final(self)@.wf(),
            r == has_pid(old(self)@.procs, pid),
    {
        let ghost pre = self@;
        let mut killed = false;
        if let Some(i) = self.find_index(pid) {
            self.processes[i].state = ProcessState::Terminated;
            self.processes[i].exit_code = Some(-1);
            self.processes[i].wait_reason = None;
            killed = true;
        }
        proof {
            assert(self@ =~= spec_kill(pre, pid));
        }
        killed
    }

    /// Suspend a `Running` or `Standby` process; no other source state is
    /// accepted.  Does not clear `current_pid` when suspending the current
    /// process.
    pub fn suspend_process(&mut self, pid: usize) -> (r: bool)
        requires
            old(self)@.wf(),
        ensures
            final(self)@.wf(),
            r == (has_pid(old(self)@.procs, pid) && (old(self)@.procs[idx_of(
                old(self)@.procs,
                pid,
            )].state == ProcessState::Running || old(self)@.procs[idx_of(
                old(self)@.procs,
                pid,
            )].state == ProcessState::Standby)),
            r ==> final(self)@ == (SchedModel {
                procs: old(self)@.procs.update(
                    idx_of(old(self)@.procs, pid),
                    (ProcessControlBlock {
                        state: ProcessState::Suspended,
                        ..old(self)@.procs[idx_of(old(self)@.procs, pid)]
                    }),
                ),
                ..old(self)@
            }),
            !r ==> final(self)@ == old(self)@,
    {
        let ghost pre = self@;
        let mut done = false;
        if let Some(i) = self.find_index(pid) {
            let st = self.processes[i].state;
            if st == ProcessState::Running || st == ProcessState::Standby {
                self.processes[i].state = ProcessState::Suspended;
                done = true;
            }
        }
        proof {
            if done {
                assert(self@ =~= (SchedModel {
                    procs: pre.procs.update(
                        idx_of(pre.procs, pid),
                        (ProcessControlBlock {
                            state: ProcessState::Suspended,
                            ..pre.procs[idx_of(pre.procs, pid)]
                        }),
                    ),
                    ..pre
                }));
            } else {
                assert(self@ =~= pre);
            }
        }
        done
    }

    /// Resume a `Suspended` process into `Standby`; no other source state
    /// is accepted.
    pub fn resume_process(&mut self, pid: usize) -> (r: bool)
        requires
            old(self)@.wf(),
        ensures
            final(self)@.wf(),
            r == (has_pid(old(self)@.procs, pid) && old(self)@.procs[idx_of(
                old(self)@.procs,
                pid,
            )].state == ProcessState::Suspended),
            r ==> final(self)@ == (SchedModel {
                procs: old(self)@.procs.update(
                    idx_of(old(self)@.procs, pid),
                    (ProcessControlBlock {
                        state: ProcessState::Standby,
                        ..old(self)@.procs[idx_of(old(self)@.procs, pid)]
                    }),
                ),
                ..old(self)@
            }),
            !r ==> final(self)@ == old(self)@,
    {
        let ghost pre = self@;
        let mut done = false;
        if let Some(i) = self.find_index(pid) {
            if self.processes[i].state == ProcessState::Suspended {
                self.processes[i].state = ProcessState::Standby;
                done = true;
            }
        }
        proof {
            if done {
                assert(self@ =~= (SchedModel {
                    procs: pre.procs.update(
                        idx_of(pre.procs, pid),
                        (ProcessControlBlock {
                            state: ProcessState::Standby,
                            ..pre.procs[idx_of(pre.procs, pid)]
                        }),
                    ),
                    ..pre
                }));
            } else {
                assert(self@ =~= pre);
            }
        }
        done
    }

    /// Set the static priority of an existing process.  The 0..=139 range
    /// is a convention, not enforced here: callers self-constrain.
    pub fn set_priority(&mut self, pid: usize, priority: u8) -> (r: bool)
        requires
            old(self)@.wf(),
        ensures
            final(self)@.wf(),
            r == has_pid(old(self)@.procs, pid),
            r ==> final(self)@ == (SchedModel {
                procs: old(self)@.procs.update(
                    idx_of(old(self)@.procs, pid),
                    (ProcessControlBlock {
                        priority,
                        ..old(self)@.procs[idx_of(old(self)@.procs, pid)]
                    }),
                ),
                ..old(self)@
            }),
            !r ==> final(self)@ == old(self)@,
    {
        let ghost pre = self@;
        let mut done = false;
        if let Some(i) = self.find_index(pid) {
            self.processes[i].priority = priority;
            done = true;
        }
        proof {
            if done {
                assert(self@ =~= (SchedModel {
                    procs: pre.procs.update(
                        idx_of(pre.procs, pid),
                        (ProcessControlBlock {
                            priority,
                            ..pre.procs[idx_of(pre.procs, pid)]
                        }),
                    ),
                    ..pre
                }));
            } else {
                assert(self@ =~= pre);
            }
        }
        done
    }

    /// Set the niceness of an existing process, clamped into -20..=19.
    pub fn set_nice(&mut self, pid: usize, nice: i8) -> (r: bool)
        requires
            old(self)@.wf(),
        ensures
            final(self)@.wf(),
            r == has_pid(old(self)@.procs, pid),
            r ==> final(self)@ == (SchedModel {
                procs: old(self)@.procs.update(
                    idx_of(old(self)@.procs, pid),
                    (ProcessControlBlock {
                        nice: clamp_nice(nice),
                        ..old(self)@.procs[idx_of(old(self)@.procs, pid)]
                    }),
                ),
                ..old(self)@
            }),
            !r ==> final(self)@ == old(self)@,
    {
        let ghost pre = self@;
        let clamped = if nice < -20 {
            -20
        } else if nice > 19 {
            19
        } else {
            nice
        };
        let mut done = false;
        if let Some(i) = self.find_index(pid) {
            self.processes[i].nice = clamped;
            done = true;
        }
        proof {
            if done {
                assert(self@ =~= (SchedModel {
                    procs: pre.procs.update(
                        idx_of(pre.procs, pid),
                        (ProcessControlBlock {
                            nice: clamp_nice(nice),
                            ..pre.procs[idx_of(pre.procs, pid)]
                        }),
                    ),
                    ..pre
                }));
            } else {
                assert(self@ =~= pre);
            }
        }
        done
    }
}

/// Executable saturating addition on `usize`, matching [`sat_add_usize`].
fn add_saturating_usize(a: usize, b: usize) -> (r: usize)
    ensures
        r == sat_add_usize(a, b),
{
    if a > usize::MAX - b {
        usize::MAX
    } else {
        a + b
    }
}

impl Scheduler {
    /// One scheduling tick, `now` being the host's monotonic tick counter.
    ///
    /// Charges the running process for its elapsed ticks and demotes it on
    /// slice expiry, then dispatches the `Standby` process with the
    /// greatest effective priority (ties to the lowest pid), demoting a
    /// still-running previous process on a switch.  When nothing is
    /// `Standby`, a current process still mid-slice keeps running and stays
    /// current; only otherwise does the tick accrue idle time and clear
    /// `current_pid`.  Returns the pid running after the tick, or nothing
    /// when the system is idle.
    pub fn schedule(&mut self, now: u64) -> (r: Option<usize>)
        requires
            old(self)@.wf(),
        ensures
            final(self)@ == spec_schedule(old(self)@, now),
            final(self)@.wf(),
            r == final(self).current_pid,
    {
        let ghost pre = self@;
        // Phase 1: charge the current process; expire its slice.
        if let Some(c) = self.current_pid {
            if let Some(i) = self.find_index(c) {
                if self.processes[i].state == ProcessState::Running
                    && self.processes[i].last_run_time.is_some() {
                    let lr = self.processes[i].last_run_time.unwrap();
                    let elapsed = sub_saturating(now, lr);
                    let charged = add_saturating(self.processes[i].cpu_time, elapsed);
                    self.processes[i].cpu_time = charged;
                    self.cpu_usage = add_saturating(self.cpu_usage, elapsed);
                    if elapsed >= self.processes[i].time_slice_remaining {
                        self.processes[i].state = ProcessState::Standby;
                        let quantum = self.processes[i].time_quantum;
                        self.processes[i].time_slice_remaining = quantum;
                    }
                }
            }
        }
        proof {
            assert(self@ =~= charge_current(pre, now));
        }
        let ghost mid = self@;
        // Phase 2: scan for the standby block with the greatest effective
        // priority; a strict improvement is needed, so the lowest pid wins
        // among equals.
        let n = self.processes.len();
        let mut best: Option<usize> = None;
        let mut k: usize = 0;
        while k < n
            invariant
                n == self@.procs.len(),
                0 <= k <= n,
                self@ == mid,
                sorted_by_pid(self@.procs),
                best is Some ==> best->0 < n && self@.procs[best->0 as int].state
                    == ProcessState::Standby,
                pick_from(self@.procs, k as int, opt_int(best)) == pick_next(self@.procs),
            decreases n - k,
        {
            let is_standby = self.processes[k].state == ProcessState::Standby;
            let better = is_standby && (match best {
                None => true,
                Some(b) => self.processes[k].get_effective_priority()
                    > self.processes[b].get_effective_priority(),
            });
            if better {
                best = Some(k);
            }
            k += 1;
        }
        // Phase 3: dispatch the selection; otherwise keep the runner or go idle.
        match best {
            Some(b) => {
                let pid = self.processes[b].pid;
                let switched = match self.current_pid {
                    Some(c) => c != pid,
                    None => true,
                };
                if switched {
                    self.context_switches = add_saturating_usize(self.context_switches, 1);
                    if let Some(c) = self.current_pid {
                        if let Some(j) = self.find_index(c) {
                            if self.processes[j].state == ProcessState::Running {
                                self.processes[j].state = ProcessState::Standby;
                            }
                        }
                    }
                }
                self.processes[b].state = ProcessState::Running;
                self.processes[b].last_run_time = Some(now);
                self.current_pid = Some(pid);
                self.last_schedule_time = Some(now);
                proof {
                    assert(self@ =~= select_next(mid, now));
                    assert(self@.wf());
                }
                Some(pid)
            },
            None => {
                let keep_running = match self.current_pid {
                    Some(c) => match self.find_index(c) {
                        Some(j) => self.processes[j].state == ProcessState::Running,
                        None => false,
                    },
                    None => false,
                };
                if keep_running {
                    self.last_schedule_time = Some(now);
                } else {
                    if let Some(ls) = self.last_schedule_time {
                        let grown = add_saturating(self.idle_time, sub_saturating(now, ls));
                        self.idle_time = grown;
                    }
                    self.current_pid = None;
                    self.last_schedule_time = Some(now);
                }
                proof {
                    assert(self@ =~= select_next(mid, now));
                    assert(self@.wf());
                }
                self.current_pid
            },
        }
    }
}

impl Scheduler {
    /// Number of processes currently in the table, whatever their state.
    pub fn get_process_count(&self) -> (r: usize)
        ensures
            r == self@.procs.len(),
    {
        self.processes.len()
    }

    /// Number of table entries in the given state.
    fn count_state(&self, st: ProcessState) -> (r: usize)
        ensures
            r == count_in_state(self@.procs, st),
    {
        let n = self.processes.len();
        let mut cnt: usize = 0;
        let mut k: usize = 0;
        while k < n
            invariant
                n == self@.procs.len(),
                0 <= k <= n,
                cnt <= k,
                cnt == count_in_state(self@.procs.take(k as int), st),
            decreases n - k,
        {
            proof {
                assert(self@.procs.take(k as int + 1).drop_last() =~= self@.procs.take(k as int));
                assert(self@.procs.take(k as int + 1).last() == self@.procs[k as int]);
            }
            if self.processes[k].state == st {
                cnt += 1;
            }
            k += 1;
        }
        proof {
            assert(self@.procs.take(n as int) =~= self@.procs);
        }
        cnt
    }

    /// Number of `Running` processes.
    pub fn get_running_process_count(&self) -> (r: usize)
        ensures
            r == count_in_state(self@.procs, ProcessState::Running),
    {
        self.count_state(ProcessState::Running)
    }

    /// Number of `Standby` processes.
    pub fn get_standby_process_count(&self) -> (r: usize)
        ensures
            r == count_in_state(self@.procs, ProcessState::Standby),
    {
        self.count_state(ProcessState::Standby)
    }

    /// Number of `Waiting` processes.
    pub fn get_waiting_process_count(&self) -> (r: usize)
        ensures
            r == count_in_state(self@.procs, ProcessState::Waiting),
    {
        self.count_state(ProcessState::Waiting)
    }

    /// The block carrying `pid`, if present.  Read-only.
    pub fn get_process_info(&self, pid: usize) -> (r: Option<&ProcessControlBlock>)
        requires
            self@.wf(),
        ensures
            r is Some <==> has_pid(self@.procs, pid),
            r is Some ==> *r->0 == self@.procs[idx_of(self@.procs, pid)],
    {
        match self.find_index(pid) {
            Some(i) => Some(&self.processes[i]),
            None => None,
        }
    }

    /// The block of the current process, if one is current and still in the
    /// table.  Read-only.
    pub fn get_current_process(&self) -> (r: Option<&ProcessControlBlock>)
        requires
            self@.wf(),
        ensures
            r is Some <==> (self.current_pid is Some && has_pid(self@.procs, self.current_pid->0)),
            r is Some ==> *r->0 == self@.procs[idx_of(self@.procs, self.current_pid->0)],
    {
        match self.current_pid {
            Some(pid) => self.get_process_info(pid),
            None => None,
        }
    }

    /// A snapshot of the aggregate counters at tick `now`, with uptime and
    /// whole-percent CPU utilization derived on the fly.  Read-only.
    pub fn get_scheduler_stats(&self, now: u64) -> (r: SchedulerStats)
        ensures
            r.uptime == sat_sub64(now, self.scheduler_start_time),
            r.total_processes_created == self.total_processes_created,
            r.current_process_count == self@.procs.len(),
            r.context_switches == self.context_switches,
            r.cpu_utilization == spec_utilization(
                self.cpu_usage,
                sat_sub64(now, self.scheduler_start_time),
            ),
            r.idle_time == self.idle_time,
            r.running_processes == count_in_state(self@.procs, ProcessState::Running),
            r.standby_processes == count_in_state(self@.procs, ProcessState::Standby),
            r.waiting_processes == count_in_state(self@.procs, ProcessState::Waiting),
    {
        let uptime = sub_saturating(now, self.scheduler_start_time);
        let cpu_utilization: u64 = if uptime == 0 {
            0
        } else {
            let q: u128 = (self.cpu_usage as u128) * 100 / (uptime as u128);
            if q > (u64::MAX as u128) {
                u64::MAX
            } else {
                q as u64
            }
        };
        SchedulerStats {
            uptime,
            total_processes_created: self.total_processes_created,
            current_process_count: self.processes.len(),
            context_switches: self.context_switches,
            cpu_utilization,
            idle_time: self.idle_time,
            running_processes: self.get_running_process_count(),
            standby_processes: self.get_standby_process_count(),
            waiting_processes: self.get_waiting_process_count(),
        }
    }

    /// Remove every `Zombie` block from the table and report how many were
    /// removed.  Nothing else in the table or the counters is touched.
    /// Nothing in this core moves a block into `Zombie`: a reaper
    /// collaborator is expected to mark `Terminated` blocks `Zombie` (for
    /// instance by re-adding them through `add_process`) before calling
    /// this.
    pub fn cleanup_zombies(&mut self) -> (removed: usize)
        requires
            old(self)@.wf(),
        ensures
            final(self)@.wf(),
            final(self)@.procs == reap(old(self)@.procs),
            removed == old(self)@.procs.len() - final(self)@.procs.len(),
            forall|i: int|
                0 <= i < final(self)@.procs.len() ==> (#[trigger] final(self)@.procs[i]).state
                    != ProcessState::Zombie,
            final(self).current_pid == old(self).current_pid,
            final(self).next_pid == old(self).next_pid,
            final(self).total_processes_created == old(self).total_processes_created,
            final(self).scheduler_start_time == old(self).scheduler_start_time,
            final(self).cpu_usage == old(self).cpu_usage,
            final(self).context_switches == old(self).context_switches,
            final(self).idle_time == old(self).idle_time,
            final(self).last_schedule_time == old(self).last_schedule_time,
    {
        let ghost pre = self@;
        proof {
            broadcast use vstd::std_specs::vec::axiom_spec_len;

            lemma_reap_empty(pre.procs.take(0));
            assert(pre.procs.take(0) =~= Seq::<ProcessControlBlock>::empty());
            assert(self@.procs =~= reap(pre.procs.take(0)) + pre.procs.skip(0));
            assert(vstd::std_specs::vec::spec_vec_len(&old(self).processes)
                == old(self).processes@.len());
            assert(pre.procs.len() <= usize::MAX);
        }
        let mut removed: usize = 0;
        let mut i: usize = 0;
        let ghost mut done: int = 0;
        while i < self.processes.len()
            invariant
                pre.procs.len() <= usize::MAX,
                0 <= done <= pre.procs.len(),
                i as int == reap(pre.procs.take(done)).len(),
                removed == done - i,
                self@.procs =~= reap(pre.procs.take(done)) + pre.procs.skip(done),
                self@.current_pid == pre.current_pid,
                self@.next_pid == pre.next_pid,
                self@.total_processes_created == pre.total_processes_created,
                self@.scheduler_start_time == pre.scheduler_start_time,
                self@.cpu_usage == pre.cpu_usage,
                self@.context_switches == pre.context_switches,
                self@.idle_time == pre.idle_time,
                self@.last_schedule_time == pre.last_schedule_time,
            decreases pre.procs.len() - done,
        {
            proof {
                assert(self@.procs.len() == i + pre.procs.len() - done);
                assert(done < pre.procs.len());
                assert(self@.procs[i as int] == pre.procs.skip(done)[0]);
                assert(pre.procs.skip(done)[0] == pre.procs[done]);
            }
            if self.processes[i].state == ProcessState::Zombie {
                self.processes.remove(i);
                removed = removed + 1;
                proof {
                    lemma_reap_take_drop(pre.procs, done);
                    done = done + 1;
                    assert(self@.procs =~= reap(pre.procs.take(done)) + pre.procs.skip(done));
                }
            } else {
                i = i + 1;
                proof {
                    lemma_reap_take_keep(pre.procs, done);
                    done = done + 1;
                    assert(self@.procs =~= reap(pre.procs.take(done)) + pre.procs.skip(done));
                }
            }
        }
        proof {
            assert(done == pre.procs.len());
            assert(pre.procs.take(done) =~= pre.procs);
            assert(self@.procs =~= reap(pre.procs));
            lemma_reap_len(pre.procs);
            reap_wf_facts(pre.procs);
        }
        removed
    }
}

/// Reaping an empty table yields an empty table.
proof fn lemma_reap_empty(s: Seq<ProcessControlBlock>)
    requires
        s.len() == 0,
    ensures
        reap(s).len() == 0,
{
    reveal(Seq::filter);
}

/// Reaping never grows the table.
proof fn lemma_reap_len(s: Seq<ProcessControlBlock>)
    ensures
        reap(s).len() <= s.len(),
    decreases s.len(),
{
    reveal(Seq::filter);
    if s.len() > 0 {
        lemma_reap_len(s.drop_last());
        assert(s.drop_last().filter(|p: ProcessControlBlock| not_zombie(p)) == reap(
            s.drop_last(),
        ));
    }
}

/// Extending a prefix by one live block appends it to the reaped prefix.
proof fn lemma_reap_take_keep(s: Seq<ProcessControlBlock>, j: int)
    requires
        0 <= j < s.len(),
        not_zombie(s[j]),
    ensures
        reap(s.take(j + 1)) == reap(s.take(j)).push(s[j]),
{
    reveal(Seq::filter);
    assert(s.take(j + 1).drop_last() =~= s.take(j));
    assert(s.take(j + 1).last() == s[j]);
}

/// Extending a prefix by one `Zombie` leaves the reaped prefix unchanged.
proof fn lemma_reap_take_drop(s: Seq<ProcessControlBlock>, j: int)
    requires
        0 <= j < s.len(),
        !not_zombie(s[j]),
    ensures
        reap(s.take(j + 1)) == reap(s.take(j)),
{
    reveal(Seq::filter);
    assert(s.take(j + 1).drop_last() =~= s.take(j));
    assert(s.take(j + 1).last() == s[j]);
}

/// Every block of the reaped table is a block of the table it came from.
proof fn lemma_reap_element_of(s: Seq<ProcessControlBlock>, x: int)
    requires
        0 <= x < reap(s).len(),
    ensures
        exists|k: int| 0 <= k < s.len() && s[k] == reap(s)[x],
    decreases s.len(),
{
    reveal(Seq::filter);
    if s.len() > 0 {
        let head = s.drop_last();
        assert(head.filter(|p: ProcessControlBlock| not_zombie(p)) == reap(head));
        if not_zombie(s.last()) && x == reap(s).len() - 1 {
            assert(s[s.len() - 1] == reap(s)[x]);
        } else {
            lemma_reap_element_of(head, x);
            let k = choose|k: int| 0 <= k < head.len() && head[k] == reap(head)[x];
            assert(s[k] == reap(s)[x]);
        }
    }
}

/// Every block of the reaped table is live, i.e. not a `Zombie`.
proof fn lemma_reap_live(s: Seq<ProcessControlBlock>, x: int)
    requires
        0 <= x < reap(s).len(),
    ensures
        not_zombie(reap(s)[x]),
    decreases s.len(),
{
    reveal(Seq::filter);
    if s.len() > 0 {
        let head = s.drop_last();
        assert(head.filter(|p: ProcessControlBlock| not_zombie(p)) == reap(head));
        if not_zombie(s.last()) && x == reap(s).len() - 1 {
        } else {
            lemma_reap_live(head, x);
        }
    }
}

/// The reaped table keeps sortedness and consistency: it is a subsequence
/// of the table it reaps, with every `Zombie` gone.
proof fn reap_wf_facts(procs: Seq<ProcessControlBlock>)
    requires
        sorted_by_pid(procs),
        table_consistent(procs),
    ensures
        sorted_by_pid(reap(procs)),
        table_consistent(reap(procs)),
        forall|i: int|
            0 <= i < reap(procs).len() ==> (#[trigger] reap(procs)[i]).state
                != ProcessState::Zombie,
{
    assert forall|i: int| 0 <= i < reap(procs).len() implies (#[trigger] reap(procs)[i]).state
        != ProcessState::Zombie && pcb_consistent(reap(procs)[i]) by {
        lemma_reap_live(procs, i);
        lemma_reap_element_of(procs, i);
    }
    assert forall|x: int, y: int| 0 <= x < y < reap(procs).len() implies reap(procs)[x].pid < reap(
        procs,
    )[y].pid by {
        lemma_reap_sorted_pair(procs, x, y);
    }
}

/// Any two blocks of the reaped table keep their relative pid order.
proof fn lemma_reap_sorted_pair(procs: Seq<ProcessControlBlock>, x: int, y: int)
    requires
        sorted_by_pid(procs),
        0 <= x < y < reap(procs).len(),
    ensures
        reap(procs)[x].pid < reap(procs)[y].pid,
    decreases procs.len(),
{
    reveal(Seq::filter);
    if procs.len() > 0 {
        let head = procs.drop_last();
        assert(head.filter(|p: ProcessControlBlock| not_zombie(p)) == reap(head));
        assert(sorted_by_pid(head));
        if not_zombie(procs.last()) && y == reap(procs).len() - 1 {
            lemma_reap_element_of(head, x);
            let k = choose|k: int| 0 <= k < head.len() && head[k] == reap(head)[x];
            assert(procs[k].pid < procs[procs.len() - 1].pid);
        } else {
            lemma_reap_sorted_pair(head, x, y);
        }
    }
}

} // verus!
