//! System-wide properties of the scheduler transitions, proved once and for
//! all over the mathematical model.

use vstd::prelude::*;

use crate::process::ProcessControlBlock;
use crate::process::ProcessState;
use crate::process::sat_add64;
use crate::process::sat_sub64;
use crate::scheduler::SchedModel;
use crate::scheduler::charge_current;
use crate::scheduler::has_pid;
use crate::scheduler::idx_of;
use crate::scheduler::lemma_sorted_pid_unique;
use crate::scheduler::pick_from;
use crate::scheduler::pick_next;
use crate::scheduler::sorted_by_pid;
use crate::scheduler::spec_block;
use crate::scheduler::spec_schedule;
use crate::scheduler::spec_wake;
use crate::scheduler::table_insert;

verus! {

/// Every `Running` block is the one `current_pid` points at: `current_pid`
/// is the sole source of truth for the single running process.  This holds
/// after construction and is preserved by every transition.
pub open spec fn runner_consistent(m: SchedModel) -> bool {
    forall|i: int|
        0 <= i < m.procs.len() && (#[trigger] m.procs[i]).state == ProcessState::Running
            ==> m.current_pid == Some(m.procs[i].pid)
}

/// At most one block in the table is `Running`.
pub open spec fn at_most_one_running(m: SchedModel) -> bool {
    forall|i: int, j: int|
        0 <= i < m.procs.len() && 0 <= j < m.procs.len() && (#[trigger] m.procs[i]).state
            == ProcessState::Running && (#[trigger] m.procs[j]).state == ProcessState::Running
            ==> i == j
}

/// In a sorted table, pointing at a single pid can single out only one
/// block, so runner consistency bounds the number of `Running` blocks by
/// one.
pub proof fn lemma_runner_consistent_single(m: SchedModel)
    requires
        sorted_by_pid(m.procs),
        runner_consistent(m),
    ensures
        at_most_one_running(m),
{
    assert forall|i: int, j: int|
        0 <= i < m.procs.len() && 0 <= j < m.procs.len() && (#[trigger] m.procs[i]).state
            == ProcessState::Running && (#[trigger] m.procs[j]).state
            == ProcessState::Running implies i == j by {
        assert(m.procs[i].pid == m.procs[j].pid);
        lemma_sorted_pid_unique(m.procs, i, j);
    }
}

/// No two live blocks share a pid: pid lookups in a well-formed table are
/// unambiguous.
pub proof fn lemma_pids_unique(m: SchedModel)
    requires
        m.wf(),
    ensures
        forall|i: int, j: int|
            0 <= i < m.procs.len() && 0 <= j < m.procs.len() && i != j ==> (#[trigger] m.procs[i]).pid
                != (#[trigger] m.procs[j]).pid,
{
    assert forall|i: int, j: int|
        0 <= i < m.procs.len() && 0 <= j < m.procs.len() && i != j implies (
    #[trigger] m.procs[i]).pid != (#[trigger] m.procs[j]).pid by {
        if m.procs[i].pid == m.procs[j].pid {
            lemma_sorted_pid_unique(m.procs, i, j);
        }
    }
}

/// An empty table - a freshly constructed scheduler - trivially has a
/// consistent runner and at most one `Running` block.
pub proof fn lemma_empty_runner_consistent(m: SchedModel)
    requires
        m.procs.len() == 0,
    ensures
        runner_consistent(m),
        at_most_one_running(m),
{
}

/// Successive creations return strictly increasing pids: a creation returns
/// the pid allocator's value and advances it, so the next creation returns
/// a strictly greater pid.
pub proof fn lemma_pids_strictly_increase(
    m0: SchedModel,
    m1: SchedModel,
    pid0: usize,
    pid1: usize,
)
    requires
        pid0 == m0.next_pid,
        m1.next_pid == m0.next_pid + 1,
        pid1 == m1.next_pid,
    ensures
        pid1 > pid0,
{
}

/// Inserting a block that is not `Running` cannot disturb runner
/// consistency: the `Running` blocks afterwards were `Running` before.
pub proof fn lemma_insert_keeps_runner_consistent(m: SchedModel, p: ProcessControlBlock)
    requires
        sorted_by_pid(m.procs),
        runner_consistent(m),
        p.state != ProcessState::Running,
    ensures
        runner_consistent(SchedModel { procs: table_insert(m.procs, p), ..m }),
{
    crate::scheduler::lemma_insert_pos(m.procs, p.pid);
    let i = crate::scheduler::insert_pos(m.procs, p.pid);
    let out = table_insert(m.procs, p);
    let post = SchedModel { procs: out, ..m };
    assert forall|k: int|
        0 <= k < post.procs.len() && (#[trigger] post.procs[k]).state
            == ProcessState::Running implies post.procs[k].pid == m.current_pid->0
        && m.current_pid is Some by {
        if i < m.procs.len() && m.procs[i].pid == p.pid {
            assert(out == m.procs.update(i, p));
            assert(k != i);
            assert(out[k] == m.procs[k]);
        } else {
            assert(out == m.procs.insert(i, p));
            assert(k != i);
            if k < i {
                assert(out[k] == m.procs[k]);
            } else {
                assert(out[k] == m.procs[k - 1]);
            }
        }
    }
}

/// The selection scan only ever reports a `Standby` block within bounds,
/// and reports nothing when no `Standby` block exists from the scan point
/// on and none was at hand.
pub proof fn lemma_pick_from_props(procs: Seq<ProcessControlBlock>, i: int, best: Option<int>)
    requires
        0 <= i,
        best is Some ==> 0 <= best->0 < procs.len() && procs[best->0].state
            == ProcessState::Standby,
    ensures
        pick_from(procs, i, best) is Some ==> 0 <= pick_from(procs, i, best)->0 < procs.len()
            && procs[pick_from(procs, i, best)->0].state == ProcessState::Standby,
        (best is None && forall|k: int|
            i <= k < procs.len() ==> (#[trigger] procs[k]).state != ProcessState::Standby)
            ==> pick_from(procs, i, best) is None,
    decreases procs.len() - i,
{
    if i < procs.len() {
        let better = procs[i].state == ProcessState::Standby && (best is None || crate::scheduler::eff_of(
            procs[i],
        ) > crate::scheduler::eff_of(procs[best->0]));
        let next_best = if better {
            Some(i)
        } else {
            best
        };
        lemma_pick_from_props(procs, i + 1, next_best);
    }
}

/// The charging phase of `schedule` preserves runner consistency, the
/// table's pids, its sortedness and the current pid: it only accrues time
/// and possibly demotes the running block to `Standby`.
pub proof fn lemma_charge_runner(m: SchedModel, now: u64)
    requires
        sorted_by_pid(m.procs),
        runner_consistent(m),
    ensures
        runner_consistent(charge_current(m, now)),
        charge_current(m, now).current_pid == m.current_pid,
        charge_current(m, now).procs.len() == m.procs.len(),
        forall|k: int|
            0 <= k < m.procs.len() ==> (#[trigger] charge_current(m, now).procs[k]).pid
                == m.procs[k].pid,
        sorted_by_pid(charge_current(m, now).procs),
        forall|k: int|
            0 <= k < m.procs.len() && (#[trigger] charge_current(m, now).procs[k]).state
                == ProcessState::Running ==> m.procs[k].state == ProcessState::Running,
{
    let c = charge_current(m, now);
    if m.current_pid is Some && has_pid(m.procs, m.current_pid->0) {
        let i = idx_of(m.procs, m.current_pid->0);
        assert(0 <= i < m.procs.len());
    }
}

/// The single-runner property: a `schedule` step preserves runner
/// consistency, so at most one block is ever `Running` and `current_pid`
/// points at it.  With [`lemma_empty_runner_consistent`] for construction
/// and [`lemma_insert_keeps_runner_consistent`] for insertion, this makes
/// runner consistency an invariant of every reachable scheduler state.
pub proof fn lemma_schedule_single_runner(m: SchedModel, now: u64)
    requires
        m.wf(),
        runner_consistent(m),
    ensures
        runner_consistent(spec_schedule(m, now)),
        at_most_one_running(spec_schedule(m, now)),
{
    let c = charge_current(m, now);
    lemma_charge_runner(m, now);
    let post = spec_schedule(m, now);
    lemma_pick_from_props(c.procs, 0, None);
    if pick_next(c.procs) is Some {
        let i = pick_next(c.procs)->0;
        let pid = c.procs[i].pid;
        assert(c.procs[i].state == ProcessState::Standby);
        assert forall|k: int|
            0 <= k < post.procs.len() && (#[trigger] post.procs[k]).state
                == ProcessState::Running implies k == i by {
            if k != i {
                // Outside the dispatched index the table came from the
                // charged one, except for a demoted previous runner.
                if c.current_pid != Some(pid) {
                    if c.current_pid is Some && has_pid(c.procs, c.current_pid->0) {
                        let j = idx_of(c.procs, c.current_pid->0);
                        if c.procs[j].state == ProcessState::Running {
                            assert(k != j);
                            assert(post.procs[k] == c.procs[k]);
                            assert(c.current_pid == Some(c.procs[k].pid));
                            lemma_sorted_pid_unique(c.procs, k, j);
                        } else {
                            assert(post.procs[k] == c.procs[k]);
                            assert(c.current_pid == Some(c.procs[k].pid));
                            lemma_sorted_pid_unique(c.procs, k, j);
                        }
                    } else {
                        assert(post.procs[k] == c.procs[k]);
                        assert(c.current_pid == Some(c.procs[k].pid));
                        assert(has_pid(c.procs, c.current_pid->0));
                    }
                } else {
                    assert(post.procs[k] == c.procs[k]);
                    assert(c.current_pid == Some(c.procs[k].pid));
                    assert(c.procs[k].pid == c.procs[i].pid);
                    lemma_sorted_pid_unique(c.procs, k, i);
                }
            }
        }
        assert(post.procs[i].pid == pid);
        assert(post.current_pid == Some(pid));
        assert(runner_consistent(post));
        lemma_runner_consistent_single(post);
    } else {
        assert(post.procs == c.procs);
        if c.current_pid is Some && has_pid(c.procs, c.current_pid->0) && c.procs[idx_of(
            c.procs,
            c.current_pid->0,
        )].state == ProcessState::Running {
            // The runner keeps running and stays current.
            assert(post.current_pid == c.current_pid);
            assert(runner_consistent(post));
        } else {
            // Nothing is Running at all: a Running block would force
            // current_pid to point at it and its entry to be Running.
            assert forall|k: int|
                0 <= k < c.procs.len() implies (#[trigger] c.procs[k]).state
                != ProcessState::Running by {
                if c.procs[k].state == ProcessState::Running {
                    assert(c.current_pid == Some(c.procs[k].pid));
                    assert(has_pid(c.procs, c.current_pid->0));
                    let j = idx_of(c.procs, c.current_pid->0);
                    lemma_sorted_pid_unique(c.procs, j, k);
                }
            }
            assert(runner_consistent(post));
        }
        lemma_runner_consistent_single(post);
    }
}

/// The waiting round trip: blocking the running process records the reason
/// and parks it `Waiting`; waking it afterwards returns exactly the same
/// block to `Standby` with the reason cleared, leaving the rest of the
/// table untouched.
pub proof fn lemma_block_wake_round_trip(m: SchedModel, reason: String, pid: usize)
    requires
        m.wf(),
        m.current_pid == Some(pid),
        has_pid(m.procs, pid),
        m.procs[idx_of(m.procs, pid)].state == ProcessState::Running,
    ensures
        ({
            let i = idx_of(m.procs, pid);
            let blocked = spec_block(m, reason);
            let woken = spec_wake(blocked, pid);
            &&& blocked.procs[i].state == ProcessState::Waiting
            &&& blocked.procs[i].wait_reason == Some(reason)
            &&& blocked.current_pid is None
            &&& woken.procs == m.procs.update(
                i,
                ProcessControlBlock {
                    state: ProcessState::Standby,
                    wait_reason: None,
                    ..m.procs[i]
                },
            )
            &&& woken.procs[i].state == ProcessState::Standby
            &&& woken.procs[i].wait_reason is None
            &&& woken.current_pid is None
        }),
{
    let i = idx_of(m.procs, pid);
    let blocked = spec_block(m, reason);
    assert(blocked.procs[i].pid == pid);
    assert(has_pid(blocked.procs, pid));
    let i2 = idx_of(blocked.procs, pid);
    assert(blocked.procs[i2].pid == pid && 0 <= i2 < blocked.procs.len());
    assert forall|x: int, y: int| 0 <= x < y < blocked.procs.len() implies blocked.procs[x].pid
        < blocked.procs[y].pid by {
        assert(blocked.procs[x].pid == m.procs[x].pid);
        assert(blocked.procs[y].pid == m.procs[y].pid);
    }
    lemma_sorted_pid_unique(blocked.procs, i2, i);
    let woken = spec_wake(blocked, pid);
    assert(woken.procs =~= m.procs.update(
        i,
        ProcessControlBlock { state: ProcessState::Standby, wait_reason: None, ..m.procs[i] },
    ));
}

/// Idle accounting: when no block is `Standby` and none is `Running`, a
/// `schedule` step selects nothing and accrues exactly the ticks since the
/// previous step into `idle_time` - strictly increasing it when time has
/// moved and the counter has room.
pub proof fn lemma_idle_accounting(m: SchedModel, now: u64, last: u64)
    requires
        m.wf(),
        forall|i: int|
            0 <= i < m.procs.len() ==> (#[trigger] m.procs[i]).state != ProcessState::Standby
                && m.procs[i].state != ProcessState::Running,
        m.last_schedule_time == Some(last),
    ensures
        spec_schedule(m, now).current_pid is None,
        spec_schedule(m, now).idle_time == sat_add64(m.idle_time, sat_sub64(now, last)),
        spec_schedule(m, now).procs == m.procs,
        now > last && m.idle_time + (now - last) <= u64::MAX ==> spec_schedule(m, now).idle_time
            > m.idle_time,
        spec_schedule(m, now).last_schedule_time == Some(now),
{
    let c = charge_current(m, now);
    if m.current_pid is Some && has_pid(m.procs, m.current_pid->0) {
        let i = idx_of(m.procs, m.current_pid->0);
        assert(0 <= i < m.procs.len());
        assert(m.procs[i].state != ProcessState::Running);
    }
    assert(c == m);
    lemma_pick_from_props(c.procs, 0, None);
    assert(pick_next(c.procs) is None);
}

} // verus!
