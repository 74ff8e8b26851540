//! Process control blocks: the per-process record the scheduler manages.

use vstd::prelude::*;

verus! {

/// Default time quantum granted to every new process, in ticks.
pub const DEFAULT_TIME_QUANTUM: u64 = 100;

/// Lifecycle states of a process.
///
/// `New` is transient: a process control block is forced to `Standby` when
/// it enters the scheduler's table, so no caller ever observes `New` there.
/// `Zombie` is terminal and is only removed by an explicit reap.
#[derive(Debug, Clone, Copy, PartialEq, Eq, Structural)]
pub enum ProcessState {
    New,
    Standby,
    Running,
    Waiting,
    Suspended,
    Terminated,
    Zombie,
}

/// An opaque register snapshot.  The scheduler copies it verbatim and never
/// interprets any field.
#[derive(Debug, Clone, Copy, PartialEq, Eq, Structural)]
pub struct CpuContext {
    pub rip: usize,
    pub rsp: usize,
    pub rbp: usize,
    pub rax: usize,
    pub rbx: usize,
    pub rcx: usize,
    pub rdx: usize,
    pub rsi: usize,
    pub rdi: usize,
    pub r8: usize,
    pub r9: usize,
    pub r10: usize,
    pub r11: usize,
    pub r12: usize,
    pub r13: usize,
    pub r14: usize,
    pub r15: usize,
    pub rflags: usize,
}

impl Default for CpuContext {
    /// An all-zero register snapshot.
    fn default() -> (r: Self)
        ensures
            r == CpuContext::zeroed(),
    {
        CpuContext {
            rip: 0,
            rsp: 0,
            rbp: 0,
            rax: 0,
            rbx: 0,
            rcx: 0,
            rdx: 0,
            rsi: 0,
            rdi: 0,
            r8: 0,
            r9: 0,
            r10: 0,
            r11: 0,
            r12: 0,
            r13: 0,
            r14: 0,
            r15: 0,
            rflags: 0,
        }
    }
}

impl CpuContext {
    /// The snapshot with every register zero.
    pub open spec fn zeroed() -> CpuContext {
        CpuContext {
            rip: 0,
            rsp: 0,
            rbp: 0,
            rax: 0,
            rbx: 0,
            rcx: 0,
            rdx: 0,
            rsi: 0,
            rdi: 0,
            r8: 0,
            r9: 0,
            r10: 0,
            r11: 0,
            r12: 0,
            r13: 0,
            r14: 0,
            r15: 0,
            rflags: 0,
        }
    }
}

/// Per-process memory accounting, all sizes in bytes.
#[derive(Debug, Clone, Copy, PartialEq, Eq, Structural)]
pub struct MemoryInfo {
    pub virtual_memory_size: usize,
    pub resident_set_size: usize,
    pub shared_memory_size: usize,
    pub text_size: usize,
    pub data_size: usize,
    pub stack_size: usize,
    pub heap_size: usize,
}

impl Default for MemoryInfo {
    /// All counters zero.
    fn default() -> (r: Self)
        ensures
            r == MemoryInfo::zeroed(),
    {
        MemoryInfo {
            virtual_memory_size: 0,
            resident_set_size: 0,
            shared_memory_size: 0,
            text_size: 0,
            data_size: 0,
            stack_size: 0,
            heap_size: 0,
        }
    }
}

impl MemoryInfo {
    /// The record with every counter zero.
    pub open spec fn zeroed() -> MemoryInfo {
        MemoryInfo {
            virtual_memory_size: 0,
            resident_set_size: 0,
            shared_memory_size: 0,
            text_size: 0,
            data_size: 0,
            stack_size: 0,
            heap_size: 0,
        }
    }
}

/// Addition on `u64` that clamps at the maximum instead of wrapping.
pub open spec fn sat_add64(a: u64, b: u64) -> u64 {
    if a + b > u64::MAX {
        u64::MAX
    } else {
        (a + b) as u64
    }
}

/// Subtraction on `u64` that clamps at zero instead of wrapping.
pub open spec fn sat_sub64(a: u64, b: u64) -> u64 {
    if a >= b {
        (a - b) as u64
    } else {
        0
    }
}

/// Executable saturating addition, matching [`sat_add64`].
pub fn add_saturating(a: u64, b: u64) -> (r: u64)
    ensures
        r == sat_add64(a, b),
{
    if a > u64::MAX - b {
        u64::MAX
    } else {
        a + b
    }
}

/// Executable saturating subtraction, matching [`sat_sub64`].
pub fn sub_saturating(a: u64, b: u64) -> (r: u64)
    ensures
        r == sat_sub64(a, b),
{
    if a >= b {
        a - b
    } else {
        0
    }
}

/// The record holding one process's scheduling and execution state.
///
/// Times are monotonic ticks supplied by the host; durations are tick
/// counts.
#[derive(Debug)]
pub struct ProcessControlBlock {
    pub pid: usize,
    /// Parent pid; informational only, never validated against the table.
    pub ppid: Option<usize>,
    pub state: ProcessState,
    /// Static priority, conventionally 0..=139.
    pub priority: u8,
    /// Niceness, clamped to -20..=19 on every write through the scheduler.
    pub nice: i8,
    pub context: CpuContext,
    pub memory_info: MemoryInfo,
    /// Cumulative ticks this process has been scheduled.
    pub cpu_time: u64,
    pub start_time: u64,
    pub last_run_time: Option<u64>,
    /// Slice budget per scheduling turn; fixed at creation.
    pub time_quantum: u64,
    /// What is left of the current slice.
    pub time_slice_remaining: u64,
    /// Present exactly while the process is `Waiting`.
    pub wait_reason: Option<String>,
    /// Present exactly once the process is `Terminated` or `Zombie`.
    pub exit_code: Option<i32>,
    pub command: String,
    pub working_directory: String,
}

/// The effective priority: static priority adjusted by twice the niceness,
/// clamped into 0..=139.  Higher wins.
pub open spec fn spec_effective_priority(priority: u8, nice: i8) -> u8 {
    let e = priority + 2 * nice;
    if e < 0 {
        0
    } else if e > 139 {
        139
    } else {
        e as u8
    }
}

/// Field-level consistency of one process control block: a wait reason is
/// recorded exactly while the process is `Waiting`, and an exit code exactly
/// once it is `Terminated` or `Zombie`.
pub open spec fn pcb_consistent(p: ProcessControlBlock) -> bool {
    &&& p.wait_reason is Some <==> p.state == ProcessState::Waiting
    &&& p.exit_code is Some <==> (p.state == ProcessState::Terminated
        || p.state == ProcessState::Zombie)
}

impl ProcessControlBlock {
    /// A fresh block in state `New` with default quantum, no parent and the
    /// root working directory.  `now` is the host's current tick.
    pub fn new(pid: usize, priority: u8, command: String, now: u64) -> (r: Self)
        ensures
            r.pid == pid,
            r.ppid is None,
            r.state == ProcessState::New,
            r.priority == priority,
            r.nice == 0,
            r.context == CpuContext::zeroed(),
            r.memory_info == MemoryInfo::zeroed(),
            r.cpu_time == 0,
            r.start_time == now,
            r.last_run_time is None,
            r.time_quantum == DEFAULT_TIME_QUANTUM,
            r.time_slice_remaining == DEFAULT_TIME_QUANTUM,
            r.wait_reason is None,
            r.exit_code is None,
            r.command == command,
            r.working_directory@ == "/"@,
    {
        ProcessControlBlock {
            pid,
            ppid: None,
            state: ProcessState::New,
            priority,
            nice: 0,
            context: CpuContext::default(),
            memory_info: MemoryInfo::default(),
            cpu_time: 0,
            start_time: now,
            last_run_time: None,
            time_quantum: DEFAULT_TIME_QUANTUM,
            time_slice_remaining: DEFAULT_TIME_QUANTUM,
            wait_reason: None,
            exit_code: None,
            command,
            working_directory: "/".to_owned(),
        }
    }

    /// Effective priority of this process; always within 0..=139 whatever
    /// the stored priority and niceness are.
    pub fn get_effective_priority(&self) -> (r: u8)
        ensures
            r == spec_effective_priority(self.priority, self.nice),
            r <= 139,
    {
        let base: i16 = self.priority as i16;
        let adjustment: i16 = (self.nice as i16) * 2;
        let effective: i16 = base + adjustment;
        if effective < 0 {
            0
        } else if effective > 139 {
            139
        } else {
            effective as u8
        }
    }

    /// Charge `duration` ticks of CPU use to this process, clamping at the
    /// maximum representable total.
    pub fn update_cpu_time(&mut self, duration: u64)
        ensures
            *final(self) == (ProcessControlBlock {
                cpu_time: sat_add64(old(self).cpu_time, duration),
                ..*old(self)
            }),
    {
        self.cpu_time = add_saturating(self.cpu_time, duration);
    }

    /// Grant a full quantum again.
    pub fn reset_time_slice(&mut self)
        ensures
            *final(self) == (ProcessControlBlock {
                time_slice_remaining: old(self).time_quantum,
                ..*old(self)
            }),
    {
        self.time_slice_remaining = self.time_quantum;
    }
}

} // verus!
