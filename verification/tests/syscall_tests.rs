use verniskernel::process::ProcessState;
use verniskernel::scheduler::Scheduler;
use verniskernel::syscall::SyscallNumber;
use verniskernel::syscall::decimal_string;
use verniskernel::syscall::decimal_string_signed;
use verniskernel::syscall::is_valid_user_memory;
use verniskernel::syscall::syscall_handler;
use verniskernel::syscall::sys_dump_syscalls;

#[test]
fn syscall_numbers_form_a_closed_table() {
    assert_eq!(SyscallNumber::from_u32(1), Some(SyscallNumber::Write));
    assert_eq!(SyscallNumber::from_u32(2), Some(SyscallNumber::Exit));
    assert_eq!(SyscallNumber::from_u32(3), Some(SyscallNumber::GetPid));
    assert_eq!(SyscallNumber::from_u32(10), Some(SyscallNumber::DumpRegisters));
    assert_eq!(SyscallNumber::from_u32(11), Some(SyscallNumber::DumpScheduler));
    assert_eq!(SyscallNumber::from_u32(12), Some(SyscallNumber::DumpMemory));
    assert_eq!(SyscallNumber::from_u32(13), Some(SyscallNumber::DumpSyscalls));
    assert_eq!(SyscallNumber::from_u32(14), Some(SyscallNumber::DumpAll));
    assert_eq!(SyscallNumber::from_u32(0), None);
    assert_eq!(SyscallNumber::from_u32(4), None);
    assert_eq!(SyscallNumber::from_u32(9), None);
    assert_eq!(SyscallNumber::from_u32(15), None);
    assert_eq!(SyscallNumber::from_u32(u32::MAX), None);
}

#[test]
fn memory_validation_policy() {
    assert!(!is_valid_user_memory(0, 10)); // null pointer
    assert!(!is_valid_user_memory(0x1000, 0)); // empty range
    assert!(!is_valid_user_memory(usize::MAX, 2)); // end wraps around
    assert!(!is_valid_user_memory(1, usize::MAX)); // end wraps around
    assert!(is_valid_user_memory(0x1000, 10));
    assert!(is_valid_user_memory(usize::MAX - 1, 1));
    assert!(is_valid_user_memory(1, usize::MAX - 1));
}

#[test]
fn write_rejects_invalid_memory_without_output() {
    let mut s = Scheduler::new(0);
    // Null pointer: the host could read nothing, so it passes None.
    let out = syscall_handler(&mut s, 0, 1, 0, 10, 0, None, None);
    assert_eq!(out.result, -1);
    assert!(out.console.is_empty());
    // Zero length.
    let out = syscall_handler(&mut s, 0, 1, 0x1000, 0, 0, None, None);
    assert_eq!(out.result, -1);
    assert!(out.console.is_empty());
    assert_eq!(s.get_process_count(), 0);
}

#[test]
fn write_decodes_and_emits_utf8() {
    let mut s = Scheduler::new(0);
    let text = b"hello";
    let out = syscall_handler(&mut s, 0, 1, 0x1000, text.len(), 0, Some(text), None);
    assert_eq!(out.result, 5);
    assert_eq!(out.console.len(), 1);
    assert_eq!(out.console[0], "hello");
}

#[test]
fn write_rejects_invalid_encoding() {
    let mut s = Scheduler::new(0);
    let junk: &[u8] = &[0xff, 0xfe, 0x41];
    let out = syscall_handler(&mut s, 0, 1, 0x1000, junk.len(), 0, Some(junk), None);
    assert_eq!(out.result, -2);
    assert!(out.console.is_empty());
}

#[test]
fn exit_terminates_and_advances_scheduling() {
    let mut s = Scheduler::new(0);
    let first = s.create_process(100, String::from("first"), 0);
    let second = s.create_process(50, String::from("second"), 0);
    assert_eq!(s.schedule(0), Some(first));
    let out = syscall_handler(&mut s, 10, 2, 7, 0, 0, None, None);
    assert_eq!(out.result, 0);
    assert_eq!(out.console.len(), 1);
    assert_eq!(out.console[0], "[EXIT] Process 1 exited with code 7");
    let p = s.get_process_info(first).unwrap();
    assert_eq!(p.state, ProcessState::Terminated);
    assert_eq!(p.exit_code, Some(7));
    // Scheduling advanced to the remaining standby process.
    assert_eq!(s.current_pid, Some(second));
    assert_eq!(s.get_process_info(second).unwrap().state, ProcessState::Running);
}

#[test]
fn exit_with_nothing_running_is_quiet() {
    let mut s = Scheduler::new(0);
    let out = syscall_handler(&mut s, 10, 2, 3, 0, 0, None, None);
    assert_eq!(out.result, 0);
    assert!(out.console.is_empty());
}

#[test]
fn getpid_reports_current_or_minus_one() {
    let mut s = Scheduler::new(0);
    let out = syscall_handler(&mut s, 0, 3, 0, 0, 0, None, None);
    assert_eq!(out.result, -1);
    assert!(out.console.is_empty());
    let pid = s.create_process(50, String::from("p"), 0);
    s.schedule(0);
    let out = syscall_handler(&mut s, 0, 3, 0, 0, 0, None, None);
    assert_eq!(out.result, pid as isize);
}

#[test]
fn unknown_syscall_has_no_effect() {
    let mut s = Scheduler::new(0);
    s.create_process(50, String::from("p"), 0);
    s.schedule(0);
    for num in [0u32, 4, 5, 9, 15, 99, u32::MAX] {
        let out = syscall_handler(&mut s, 0, num, 1, 2, 3, None, None);
        assert_eq!(out.result, -1);
        assert!(out.console.is_empty());
    }
    assert_eq!(s.get_process_count(), 1);
    assert_eq!(s.get_running_process_count(), 1);
}

#[test]
fn dump_syscalls_lists_the_table() {
    let lines = sys_dump_syscalls();
    assert_eq!(lines.len(), 9);
    assert_eq!(lines[0], "[DUMP] Available System Calls:");
    assert_eq!(lines[8], "  14 - DumpAll:       Dump all system information");
}

#[test]
fn dump_registers_needs_a_current_process() {
    let mut s = Scheduler::new(0);
    let out = syscall_handler(&mut s, 0, 10, 0, 0, 0, None, None);
    assert_eq!(out.result, 0);
    assert_eq!(out.console, vec!["[ERROR] No current process"]);
    s.create_process(50, String::from("p"), 0);
    s.schedule(0);
    let out = syscall_handler(&mut s, 0, 10, 0, 0, 0, None, None);
    assert_eq!(out.console.len(), 19);
    assert_eq!(out.console[0], "[DUMP] Registers for PID 1:");
    assert_eq!(out.console[1], "  rip: 0");
    assert_eq!(out.console[18], "  rflags: 0");
}

#[test]
fn dump_scheduler_reports_current_and_count() {
    let mut s = Scheduler::new(0);
    let out = syscall_handler(&mut s, 0, 11, 0, 0, 0, None, None);
    assert_eq!(
        out.console,
        vec!["[DUMP] Scheduler State:", "  Current PID: none", "  Total Processes: 0"]
    );
    s.create_process(50, String::from("p"), 0);
    s.schedule(0);
    let out = syscall_handler(&mut s, 0, 11, 0, 0, 0, None, None);
    assert_eq!(
        out.console,
        vec!["[DUMP] Scheduler State:", "  Current PID: 1", "  Total Processes: 1"]
    );
}

#[test]
fn dump_memory_validates_the_address() {
    let mut s = Scheduler::new(0);
    let out = syscall_handler(&mut s, 0, 12, 0, 0, 0, None, None);
    assert_eq!(out.result, 0);
    assert_eq!(out.console, vec!["[ERROR] Invalid memory address"]);
    let out = syscall_handler(&mut s, 0, 12, 0x2000, 0, 0, None, Some(0x41));
    assert_eq!(out.console, vec!["[DUMP] Memory at 8192 => 65"]);
}

#[test]
fn dump_all_composes_the_dumps() {
    let mut s = Scheduler::new(0);
    s.create_process(50, String::from("p"), 0);
    s.schedule(0);
    let out = syscall_handler(&mut s, 0, 14, 0, 0, 0, None, None);
    assert_eq!(out.result, 0);
    // banner + current line + 3 scheduler lines + 19 register lines
    // + 9 syscall lines + footer
    assert_eq!(out.console.len(), 34);
    assert_eq!(out.console[0], "=== VERNISOS SYSTEM DUMP ===");
    assert_eq!(out.console[1], "Current Process: PID=1, Status=Running");
    assert_eq!(out.console[33], "=== END SYSTEM DUMP ===");
}

#[test]
fn decimal_rendering_is_exact() {
    assert_eq!(decimal_string(0), "0");
    assert_eq!(decimal_string(7), "7");
    assert_eq!(decimal_string(1234), "1234");
    assert_eq!(decimal_string(u64::MAX), "18446744073709551615");
    assert_eq!(decimal_string_signed(0), "0");
    assert_eq!(decimal_string_signed(-5), "-5");
    assert_eq!(decimal_string_signed(i64::MIN), "-9223372036854775808");
    assert_eq!(decimal_string_signed(i64::MAX), "9223372036854775807");
}
