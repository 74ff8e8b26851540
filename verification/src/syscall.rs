//! Syscall numbering, user-memory validation and dispatch.
//!
//! The dispatcher is a function from a syscall number and its raw word
//! arguments to a signed result code plus the lines of text the core hands
//! to the console collaborator.  Reading user memory is the host's job: the
//! host validates an address range with [`is_valid_user_memory`], copies
//! the bytes, and passes them in, so nothing here ever dereferences a raw
//! address.

use vstd::prelude::*;
use vstd::string::StringExecFns;
use vstd::utf8::valid_utf8;
use vstd::utf8::encode_utf8;

use crate::process::ProcessState;
use crate::scheduler::SchedModel;
use crate::scheduler::Scheduler;
use crate::scheduler::has_pid;
use crate::scheduler::idx_of;
use crate::scheduler::spec_schedule;
use crate::scheduler::spec_terminate;

verus! {

/// The closed table of syscall numbers: 1 = `Write`, 2 = `Exit`,
/// 3 = `GetPid`, 10-14 = diagnostics.
#[derive(Debug, Clone, Copy, PartialEq, Eq, Structural)]
pub enum SyscallNumber {
    Write,
    Exit,
    GetPid,
    DumpRegisters,
    DumpScheduler,
    DumpMemory,
    DumpSyscalls,
    DumpAll,
}

/// The number-to-syscall table; anything else is unknown.
pub open spec fn spec_syscall_from(num: u32) -> Option<SyscallNumber> {
    if num == 1 {
        Some(SyscallNumber::Write)
    } else if num == 2 {
        Some(SyscallNumber::Exit)
    } else if num == 3 {
        Some(SyscallNumber::GetPid)
    } else if num == 10 {
        Some(SyscallNumber::DumpRegisters)
    } else if num == 11 {
        Some(SyscallNumber::DumpScheduler)
    } else if num == 12 {
        Some(SyscallNumber::DumpMemory)
    } else if num == 13 {
        Some(SyscallNumber::DumpSyscalls)
    } else if num == 14 {
        Some(SyscallNumber::DumpAll)
    } else {
        None
    }
}

impl SyscallNumber {
    /// Decode a raw syscall number; unknown numbers yield nothing.
    pub fn from_u32(num: u32) -> (r: Option<SyscallNumber>)
        ensures
            r == spec_syscall_from(num),
    {
        match num {
            1 => Some(SyscallNumber::Write),
            2 => Some(SyscallNumber::Exit),
            3 => Some(SyscallNumber::GetPid),
            10 => Some(SyscallNumber::DumpRegisters),
            11 => Some(SyscallNumber::DumpScheduler),
            12 => Some(SyscallNumber::DumpMemory),
            13 => Some(SyscallNumber::DumpSyscalls),
            14 => Some(SyscallNumber::DumpAll),
            _ => None,
        }
    }
}

/// The memory-validation policy for raw pointer+length syscall arguments:
/// reject a null pointer, an empty range, and a range whose end would wrap
/// around the address space.  A minimal sanity filter standing in for a
/// page-table lookup, applied before any dereference.
pub open spec fn valid_user_memory(ptr: usize, len: usize) -> bool {
    &&& ptr != 0
    &&& len != 0
    &&& ptr + len <= usize::MAX
}

/// Executable check of the memory-validation policy.
pub fn is_valid_user_memory(ptr: usize, len: usize) -> (r: bool)
    ensures
        r == valid_user_memory(ptr, len),
{
    ptr != 0 && len != 0 && ptr <= usize::MAX - len
}

/// Relies on `core::str::from_utf8`: it succeeds exactly on valid UTF-8
/// input, and the string it yields consists of the decoded characters of
/// those same bytes (stated through vstd's UTF-8 model, under which a
/// string's bytes are the UTF-8 encoding of its characters).
#[verifier::external_body]
fn decode_utf8_bytes(bytes: &[u8]) -> (r: Option<String>)
    ensures
        r is Some <==> valid_utf8(bytes@),
        r is Some ==> encode_utf8(r->0@) == bytes@,
{
    match core::str::from_utf8(bytes) {
        Ok(s) => Some(s.to_string()),
        Err(_) => None,
    }
}

/// The decimal digit characters.
pub open spec fn dec_digit(d: nat) -> char {
    if d == 0 {
        '0'
    } else if d == 1 {
        '1'
    } else if d == 2 {
        '2'
    } else if d == 3 {
        '3'
    } else if d == 4 {
        '4'
    } else if d == 5 {
        '5'
    } else if d == 6 {
        '6'
    } else if d == 7 {
        '7'
    } else if d == 8 {
        '8'
    } else {
        '9'
    }
}

/// The decimal digits of `n`, most significant first.
pub open spec fn dec_chars(n: nat) -> Seq<char>
    decreases n,
{
    if n < 10 {
        seq![dec_digit(n)]
    } else {
        dec_chars(n / 10).push(dec_digit(n % 10))
    }
}

/// Decimal rendering of a signed value: a minus sign before the digits of
/// the magnitude.
pub open spec fn dec_chars_signed(v: int) -> Seq<char> {
    if v >= 0 {
        dec_chars(v as nat)
    } else {
        seq!['-'] + dec_chars((-v) as nat)
    }
}

/// One decimal digit as a string slice.
fn digit_str(d: u64) -> (s: &'static str)
    requires
        d < 10,
    ensures
        s@ == seq![dec_digit(d as nat)],
{
    let s: &'static str = match d {
        0 => "0",
        1 => "1",
        2 => "2",
        3 => "3",
        4 => "4",
        5 => "5",
        6 => "6",
        7 => "7",
        8 => "8",
        _ => "9",
    };
    proof {
        reveal_strlit("0");
        reveal_strlit("1");
        reveal_strlit("2");
        reveal_strlit("3");
        reveal_strlit("4");
        reveal_strlit("5");
        reveal_strlit("6");
        reveal_strlit("7");
        reveal_strlit("8");
        reveal_strlit("9");
        assert(s@ =~= seq![dec_digit(d as nat)]);
    }
    s
}

/// Render `n` in decimal.
pub fn decimal_string(n: u64) -> (s: String)
    ensures
        s@ == dec_chars(n as nat),
    decreases n,
{
    if n < 10 {
        digit_str(n).to_owned()
    } else {
        let mut s = decimal_string(n / 10);
        s.append(digit_str(n % 10));
        proof {
            assert(s@ =~= dec_chars(n as nat));
        }
        s
    }
}

/// Render a signed value in decimal.
pub fn decimal_string_signed(v: i64) -> (s: String)
    ensures
        s@ == dec_chars_signed(v as int),
{
    if v >= 0 {
        decimal_string(v as u64)
    } else {
        let wide: i128 = v as i128;
        let mag: u64 = (-wide) as u64;
        let mut s = "-".to_owned();
        let digits = decimal_string(mag);
        s.append(digits.as_str());
        proof {
            reveal_strlit("-");
            assert(s@ =~= dec_chars_signed(v as int));
        }
        s
    }
}

/// A line made of a fixed label followed by a decimal value.
pub open spec fn labeled(label: &str, v: nat) -> Seq<char> {
    label@ + dec_chars(v)
}

/// Build a line from a label and a value.
fn labeled_line(label: &'static str, v: u64) -> (s: String)
    ensures
        s@ == labeled(label, v as nat),
{
    let mut s = label.to_owned();
    let digits = decimal_string(v);
    s.append(digits.as_str());
    proof {
        assert(s@ =~= labeled(label, v as nat));
    }
    s
}

/// The name of a process state.
pub open spec fn state_chars(st: ProcessState) -> Seq<char> {
    match st {
        ProcessState::New => "New"@,
        ProcessState::Standby => "Standby"@,
        ProcessState::Running => "Running"@,
        ProcessState::Waiting => "Waiting"@,
        ProcessState::Suspended => "Suspended"@,
        ProcessState::Terminated => "Terminated"@,
        ProcessState::Zombie => "Zombie"@,
    }
}

/// The name of a process state, for console output.
pub fn state_str(st: ProcessState) -> (s: &'static str)
    ensures
        s@ == state_chars(st),
{
    match st {
        ProcessState::New => "New",
        ProcessState::Standby => "Standby",
        ProcessState::Running => "Running",
        ProcessState::Waiting => "Waiting",
        ProcessState::Suspended => "Suspended",
        ProcessState::Terminated => "Terminated",
        ProcessState::Zombie => "Zombie",
    }
}

/// What one syscall dispatch produced: the signed result code handed back
/// to the trapping process, and the lines of text the core asks the
/// console collaborator to emit.
pub struct DispatchOutcome {
    pub result: isize,
    pub console: Vec<String>,
}

/// The `Write` syscall on pre-read bytes: rejected memory yields -1,
/// undecodable bytes -2, and a decodable buffer is emitted and acknowledged
/// with its byte length.
///
/// The host validates `(ptr, len)` with [`is_valid_user_memory`] and passes
/// the bytes it read exactly when the range is valid.
pub fn sys_write(ptr: usize, len: usize, bytes: Option<&[u8]>) -> (out: DispatchOutcome)
    requires
        bytes is Some <==> valid_user_memory(ptr, len),
        bytes is Some ==> bytes->0@.len() == len && len <= isize::MAX,
    ensures
        !valid_user_memory(ptr, len) ==> out.result == -1 && out.console@.len() == 0,
        valid_user_memory(ptr, len) && !valid_utf8(bytes->0@) ==> out.result == -2
            && out.console@.len() == 0,
        valid_user_memory(ptr, len) && valid_utf8(bytes->0@) ==> out.result == len as isize
            && out.console@.len() == 1 && encode_utf8(out.console@[0]@) == bytes->0@,
{
    match bytes {
        Some(b) => match decode_utf8_bytes(b) {
            Some(msg) => {
                let mut console: Vec<String> = Vec::new();
                console.push(msg);
                DispatchOutcome { result: len as isize, console }
            },
            None => DispatchOutcome { result: -2, console: Vec::new() },
        },
        None => DispatchOutcome { result: -1, console: Vec::new() },
    }
}

/// The console line announcing an exit.
pub open spec fn exit_line(pid: usize, code: i32) -> Seq<char> {
    labeled("[EXIT] Process ", pid as nat) + " exited with code "@ + dec_chars_signed(code as int)
}

/// The `Exit` syscall: terminate the running current process with `code`,
/// then advance scheduling at tick `now`.  Announces the exit on the
/// console exactly when a running process was there to exit.
pub fn sys_exit(sched: &mut Scheduler, now: u64, code: i32) -> (out: DispatchOutcome)
    requires
        old(sched)@.wf(),
    ensures
        final(sched)@.wf(),
        final(sched)@ == spec_schedule(spec_terminate(old(sched)@, code), now),
        out.result == 0,
        ({
            let m = old(sched)@;
            if m.current_pid is Some && has_pid(m.procs, m.current_pid->0) && m.procs[idx_of(
                m.procs,
                m.current_pid->0,
            )].state == ProcessState::Running {
                out.console@.len() == 1 && out.console@[0]@ == exit_line(m.current_pid->0, code)
            } else {
                out.console@.len() == 0
            }
        }),
{
    let mut console: Vec<String> = Vec::new();
    let exiting: Option<usize> = match sched.get_current_process() {
        Some(p) => {
            if p.state == ProcessState::Running {
                Some(p.pid)
            } else {
                None
            }
        },
        None => None,
    };
    if let Some(pid) = exiting {
        let mut line = labeled_line("[EXIT] Process ", pid as u64);
        line.append(" exited with code ");
        let digits = decimal_string_signed(code as i64);
        line.append(digits.as_str());
        proof {
            assert(line@ =~= exit_line(pid, code));
        }
        console.push(line);
    }
    sched.terminate_current(code);
    sched.schedule(now);
    DispatchOutcome { result: 0, console }
}

/// The `GetPid` syscall: the current pid, or -1 when nothing is current or
/// the pid does not fit the signed result.
pub fn sys_getpid(sched: &Scheduler) -> (r: isize)
    ensures
        sched.current_pid is None ==> r == -1,
        sched.current_pid is Some && sched.current_pid->0 <= isize::MAX ==> r
            == sched.current_pid->0 as isize,
        sched.current_pid is Some && sched.current_pid->0 > isize::MAX ==> r == -1,
{
    match sched.current_pid {
        Some(pid) => {
            if pid <= (isize::MAX as usize) {
                pid as isize
            } else {
                -1
            }
        },
        None => -1,
    }
}

/// Console lines of the register dump: one line per register of the
/// current process, or an error line when nothing is current.
pub open spec fn registers_dump_lines(m: SchedModel) -> Seq<Seq<char>> {
    if m.current_pid is Some && has_pid(m.procs, m.current_pid->0) {
        let p = m.procs[idx_of(m.procs, m.current_pid->0)];
        seq![
            labeled("[DUMP] Registers for PID ", p.pid as nat) + ":"@,
            labeled("  rip: ", p.context.rip as nat),
            labeled("  rsp: ", p.context.rsp as nat),
            labeled("  rbp: ", p.context.rbp as nat),
            labeled("  rax: ", p.context.rax as nat),
            labeled("  rbx: ", p.context.rbx as nat),
            labeled("  rcx: ", p.context.rcx as nat),
            labeled("  rdx: ", p.context.rdx as nat),
            labeled("  rsi: ", p.context.rsi as nat),
            labeled("  rdi: ", p.context.rdi as nat),
            labeled("  r8: ", p.context.r8 as nat),
            labeled("  r9: ", p.context.r9 as nat),
            labeled("  r10: ", p.context.r10 as nat),
            labeled("  r11: ", p.context.r11 as nat),
            labeled("  r12: ", p.context.r12 as nat),
            labeled("  r13: ", p.context.r13 as nat),
            labeled("  r14: ", p.context.r14 as nat),
            labeled("  r15: ", p.context.r15 as nat),
            labeled("  rflags: ", p.context.rflags as nat),
        ]
    } else {
        seq!["[ERROR] No current process"@]
    }
}

/// Dump the register snapshot of the current process.  Read-only.
pub fn sys_dump_registers(sched: &Scheduler) -> (lines: Vec<String>)
    requires
        sched@.wf(),
    ensures
        lines.deep_view() == registers_dump_lines(sched@),
{
    let mut lines: Vec<String> = Vec::new();
    match sched.get_current_process() {
        Some(p) => {
            let pid = p.pid;
            let cx = p.context;
            let mut header = labeled_line("[DUMP] Registers for PID ", pid as u64);
            header.append(":");
            lines.push(header);
            lines.push(labeled_line("  rip: ", cx.rip as u64));
            lines.push(labeled_line("  rsp: ", cx.rsp as u64));
            lines.push(labeled_line("  rbp: ", cx.rbp as u64));
            lines.push(labeled_line("  rax: ", cx.rax as u64));
            lines.push(labeled_line("  rbx: ", cx.rbx as u64));
            lines.push(labeled_line("  rcx: ", cx.rcx as u64));
            lines.push(labeled_line("  rdx: ", cx.rdx as u64));
            lines.push(labeled_line("  rsi: ", cx.rsi as u64));
            lines.push(labeled_line("  rdi: ", cx.rdi as u64));
            lines.push(labeled_line("  r8: ", cx.r8 as u64));
            lines.push(labeled_line("  r9: ", cx.r9 as u64));
            lines.push(labeled_line("  r10: ", cx.r10 as u64));
            lines.push(labeled_line("  r11: ", cx.r11 as u64));
            lines.push(labeled_line("  r12: ", cx.r12 as u64));
            lines.push(labeled_line("  r13: ", cx.r13 as u64));
            lines.push(labeled_line("  r14: ", cx.r14 as u64));
            lines.push(labeled_line("  r15: ", cx.r15 as u64));
            lines.push(labeled_line("  rflags: ", cx.rflags as u64));
            proof {
                assert(lines.deep_view() =~~= registers_dump_lines(sched@));
            }
        },
        None => {
            lines.push("[ERROR] No current process".to_owned());
            proof {
                assert(lines.deep_view() =~~= registers_dump_lines(sched@));
            }
        },
    }
    lines
}

/// Console lines of the scheduler dump.
pub open spec fn scheduler_dump_lines(m: SchedModel) -> Seq<Seq<char>> {
    seq![
        "[DUMP] Scheduler State:"@,
        match m.current_pid {
            Some(pid) => labeled("  Current PID: ", pid as nat),
            None => "  Current PID: none"@,
        },
        labeled("  Total Processes: ", m.procs.len()),
    ]
}

/// Dump the scheduler's own state.  Read-only.
pub fn sys_dump_scheduler(sched: &Scheduler) -> (lines: Vec<String>)
    ensures
        lines.deep_view() == scheduler_dump_lines(sched@),
{
    let mut lines: Vec<String> = Vec::new();
    lines.push("[DUMP] Scheduler State:".to_owned());
    match sched.current_pid {
        Some(pid) => lines.push(labeled_line("  Current PID: ", pid as u64)),
        None => lines.push("  Current PID: none".to_owned()),
    }
    let count = sched.get_process_count();
    lines.push(labeled_line("  Total Processes: ", count as u64));
    proof {
        assert(lines.deep_view() =~~= scheduler_dump_lines(sched@));
    }
    lines
}

/// Console lines of the syscall help dump.
pub open spec fn syscalls_dump_lines() -> Seq<Seq<char>> {
    seq![
        "[DUMP] Available System Calls:"@,
        "  1  - Write:         Write string to console"@,
        "  2  - Exit:          Exit process with code"@,
        "  3  - GetPid:        Get current process ID"@,
        "  10 - DumpRegisters: Dump current process registers"@,
        "  11 - DumpScheduler: Dump scheduler state"@,
        "  12 - DumpMemory:    Dump memory at address"@,
        "  13 - DumpSyscalls:  Show this help"@,
        "  14 - DumpAll:       Dump all system information"@,
    ]
}

/// The syscall help text.
pub fn sys_dump_syscalls() -> (lines: Vec<String>)
    ensures
        lines.deep_view() == syscalls_dump_lines(),
{
    let mut lines: Vec<String> = Vec::new();
    lines.push("[DUMP] Available System Calls:".to_owned());
    lines.push("  1  - Write:         Write string to console".to_owned());
    lines.push("  2  - Exit:          Exit process with code".to_owned());
    lines.push("  3  - GetPid:        Get current process ID".to_owned());
    lines.push("  10 - DumpRegisters: Dump current process registers".to_owned());
    lines.push("  11 - DumpScheduler: Dump scheduler state".to_owned());
    lines.push("  12 - DumpMemory:    Dump memory at address".to_owned());
    lines.push("  13 - DumpSyscalls:  Show this help".to_owned());
    lines.push("  14 - DumpAll:       Dump all system information".to_owned());
    proof {
        assert(lines.deep_view() =~~= syscalls_dump_lines());
    }
    lines
}

/// Console lines of the memory dump: the byte the host read at a validated
/// address, or an error line for a rejected address.
pub open spec fn memory_dump_lines(addr: usize, byte: Option<u8>) -> Seq<Seq<char>> {
    match byte {
        Some(v) => seq![
            labeled("[DUMP] Memory at ", addr as nat) + " => "@ + dec_chars(v as nat),
        ],
        None => seq!["[ERROR] Invalid memory address"@],
    }
}

/// Dump one byte of user memory.  The host validates `addr` with
/// [`is_valid_user_memory`] over a one-byte range and passes the byte it
/// read exactly when the address is valid.
pub fn sys_dump_memory(addr: usize, byte: Option<u8>) -> (lines: Vec<String>)
    requires
        byte is Some <==> valid_user_memory(addr, 1),
    ensures
        lines.deep_view() == memory_dump_lines(addr, byte),
{
    let mut lines: Vec<String> = Vec::new();
    match byte {
        Some(v) => {
            let mut line = labeled_line("[DUMP] Memory at ", addr as u64);
            line.append(" => ");
            let digits = decimal_string(v as u64);
            line.append(digits.as_str());
            proof {
                assert(line@ =~= labeled("[DUMP] Memory at ", addr as nat) + " => "@ + dec_chars(
                    v as nat,
                ));
            }
            lines.push(line);
        },
        None => {
            lines.push("[ERROR] Invalid memory address".to_owned());
        },
    }
    proof {
        assert(lines.deep_view() =~~= memory_dump_lines(addr, byte));
    }
    lines
}

/// The line describing the current process in the full dump.
pub open spec fn current_process_line(m: SchedModel) -> Seq<char> {
    if m.current_pid is Some && has_pid(m.procs, m.current_pid->0) {
        let p = m.procs[idx_of(m.procs, m.current_pid->0)];
        labeled("Current Process: PID=", p.pid as nat) + ", Status="@ + state_chars(p.state)
    } else {
        "No current process"@
    }
}

/// Console lines of the full system dump: a banner, the current process,
/// then the scheduler, register and syscall dumps.
pub open spec fn all_dump_lines(m: SchedModel) -> Seq<Seq<char>> {
    seq!["=== VERNISOS SYSTEM DUMP ==="@, current_process_line(m)] + scheduler_dump_lines(m)
        + registers_dump_lines(m) + syscalls_dump_lines() + seq!["=== END SYSTEM DUMP ==="@]
}

/// Dump all system information.  Read-only.
pub fn sys_dump_all(sched: &Scheduler) -> (lines: Vec<String>)
    requires
        sched@.wf(),
    ensures
        lines.deep_view() == all_dump_lines(sched@),
{
    let mut lines: Vec<String> = Vec::new();
    lines.push("=== VERNISOS SYSTEM DUMP ===".to_owned());
    match sched.get_current_process() {
        Some(p) => {
            let mut line = labeled_line("Current Process: PID=", p.pid as u64);
            line.append(", Status=");
            line.append(state_str(p.state));
            proof {
                assert(line@ =~= current_process_line(sched@));
            }
            lines.push(line);
        },
        None => {
            lines.push("No current process".to_owned());
        },
    }
    let mut sched_lines = sys_dump_scheduler(sched);
    lines.append(&mut sched_lines);
    let mut reg_lines = sys_dump_registers(sched);
    lines.append(&mut reg_lines);
    let mut sys_lines = sys_dump_syscalls();
    lines.append(&mut sys_lines);
    lines.push("=== END SYSTEM DUMP ===".to_owned());
    proof {
        assert(lines.deep_view() =~~= all_dump_lines(sched@));
    }
    lines
}

/// The syscall dispatch table, driven by the host's trap path.
///
/// `now` is the host's tick counter, used by the `Exit` path to advance
/// scheduling.  For `Write` the host validates `(arg1, arg2)` and passes
/// the bytes it read when valid; for `DumpMemory` it does the same for one
/// byte at `arg1`.  Every syscall except `Exit` leaves the scheduler
/// untouched; an unknown number returns -1 with no side effect at all.
pub fn syscall_handler(
    sched: &mut Scheduler,
    now: u64,
    sys_num: u32,
    arg1: usize,
    arg2: usize,
    _arg3: usize,
    write_bytes: Option<&[u8]>,
    mem_byte: Option<u8>,
) -> (out: DispatchOutcome)
    requires
        old(sched)@.wf(),
        sys_num == 1 ==> (write_bytes is Some <==> valid_user_memory(arg1, arg2)),
        sys_num == 1 && write_bytes is Some ==> write_bytes->0@.len() == arg2 && arg2
            <= isize::MAX,
        sys_num == 12 ==> (mem_byte is Some <==> valid_user_memory(arg1, 1)),
    ensures
        final(sched)@.wf(),
        sys_num != 2 ==> final(sched)@ == old(sched)@,
        sys_num == 2 ==> final(sched)@ == spec_schedule(
            spec_terminate(old(sched)@, arg1 as i32),
            now,
        ) && out.result == 0,
        sys_num == 1 && !valid_user_memory(arg1, arg2) ==> out.result == -1 && out.console@.len()
            == 0,
        sys_num == 1 && valid_user_memory(arg1, arg2) && !valid_utf8(write_bytes->0@)
            ==> out.result == -2 && out.console@.len() == 0,
        sys_num == 1 && valid_user_memory(arg1, arg2) && valid_utf8(write_bytes->0@)
            ==> out.result == arg2 as isize && out.console@.len() == 1 && encode_utf8(
            out.console@[0]@,
        ) == write_bytes->0@,
        sys_num == 3 ==> out.console@.len() == 0 && (old(sched).current_pid is None
            ==> out.result == -1) && (old(sched).current_pid is Some && old(
            sched,
        ).current_pid->0 <= isize::MAX ==> out.result == old(sched).current_pid->0 as isize),
        sys_num == 10 ==> out.result == 0 && out.console.deep_view() == registers_dump_lines(
            old(sched)@,
        ),
        sys_num == 11 ==> out.result == 0 && out.console.deep_view() == scheduler_dump_lines(
            old(sched)@,
        ),
        sys_num == 12 ==> out.result == 0 && out.console.deep_view() == memory_dump_lines(
            arg1,
            mem_byte,
        ),
        sys_num == 13 ==> out.result == 0 && out.console.deep_view() == syscalls_dump_lines(),
        sys_num == 14 ==> out.result == 0 && out.console.deep_view() == all_dump_lines(
            old(sched)@,
        ),
        spec_syscall_from(sys_num) is None ==> out.result == -1 && out.console@.len() == 0,
    {
    match SyscallNumber::from_u32(sys_num) {
        Some(SyscallNumber::Write) => sys_write(arg1, arg2, write_bytes),
        Some(SyscallNumber::Exit) => {
            let code: i32 = #[verifier::truncate] (arg1 as i32);
            sys_exit(sched, now, code)
        },
        Some(SyscallNumber::GetPid) => DispatchOutcome {
            result: sys_getpid(sched),
            console: Vec::new(),
        },
        Some(SyscallNumber::DumpRegisters) => DispatchOutcome {
            result: 0,
            console: sys_dump_registers(sched),
        },
        Some(SyscallNumber::DumpScheduler) => DispatchOutcome {
            result: 0,
            console: sys_dump_scheduler(sched),
        },
        Some(SyscallNumber::DumpMemory) => DispatchOutcome {
            result: 0,
            console: sys_dump_memory(arg1, mem_byte),
        },
        Some(SyscallNumber::DumpSyscalls) => DispatchOutcome {
            result: 0,
            console: sys_dump_syscalls(),
        },
        Some(SyscallNumber::DumpAll) => DispatchOutcome {
            result: 0,
            console: sys_dump_all(sched),
        },
        None => DispatchOutcome { result: -1, console: Vec::new() },
    }
}

} // verus!
