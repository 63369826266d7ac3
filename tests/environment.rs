use dirt::codec::native_unpack;
use dirt::emu::{BRK_ADDR, KERNEL_ADDR, SHELLCODE_ADDR, STACK_ADDR, STACK_SIZE, TLS_ADDR};
use dirt::linux::{
    fs_base_plan, fs_shellcode, run_shellcode, get_auxv, init_stack, init_state, uname_bytes, AuxVecType, LinuxEnv,
    LinuxKernel, SyscallRegs, ARCH_SET_FS, MSR_FS_BASE, SYS_ARCH_PRCTL, SYS_BRK, SYS_UNAME, SYS_WRITEV,
};
use dirt::machine::{EmuAction, Reg};
use dirt::vmstate::{DataWriter, VmState};

fn regs(rax: u64, rdi: u64, rsi: u64, rdx: u64) -> SyscallRegs {
    SyscallRegs { rip: 0x401000, rax, rdi, rsi, rdx, r10: 0, r8: 0, r9: 0, rcx: 0x77, rsp: 0x1000ff00 }
}

fn rax_of(plan: &[EmuAction]) -> u64 {
    match plan {
        [EmuAction::SetReg { reg: Reg::Rax, value }] => *value,
        _ => panic!("expected a single return value"),
    }
}

#[test]
fn brk_reports_and_moves_break() {
    let mut k = LinuxKernel::new();
    assert_eq!(rax_of(&k.on_syscall(&regs(SYS_BRK, 0, 0, 0), &[])), BRK_ADDR);
    assert_eq!(rax_of(&k.on_syscall(&regs(SYS_BRK, BRK_ADDR + 0x3000, 0, 0), &[])), BRK_ADDR + 0x3000);
    assert_eq!(k.brk_ptr(), BRK_ADDR + 0x3000);
    assert_eq!(rax_of(&k.on_syscall(&regs(SYS_BRK, 0, 0, 0), &[])), BRK_ADDR + 0x3000);
    k.reset();
    assert_eq!(k.brk_ptr(), BRK_ADDR);
}

#[test]
fn writev_acknowledges_total_length() {
    let mut k = LinuxKernel::new();
    let r = regs(SYS_WRITEV, 2, 0x5000, 2);
    assert_eq!(k.syscall_reads(&r), Some((0x5000, 32)));
    let mut table = Vec::new();
    for (p, l) in [(0x6000u64, 5u64), (0x7000, 11)] {
        table.extend_from_slice(&p.to_le_bytes());
        table.extend_from_slice(&l.to_le_bytes());
    }
    assert_eq!(rax_of(&k.on_syscall(&r, &table)), 16);
    assert_eq!(rax_of(&k.on_syscall(&r, &table[..20])), u64::MAX);
    assert_eq!(rax_of(&k.on_syscall(&regs(SYS_WRITEV, 2, 0x5000, 0), &[])), 0);
}

#[test]
fn uname_fills_buffer() {
    let mut k = LinuxKernel::new();
    let plan = k.on_syscall(&regs(SYS_UNAME, 0x9000, 0, 0), &[]);
    assert_eq!(plan.len(), 2);
    match &plan[0] {
        EmuAction::Write { addr, bytes } => {
            assert_eq!(*addr, 0x9000);
            assert_eq!(bytes.len(), 6 * 64);
            assert_eq!(&bytes[..6], b"Linux\0");
            assert_eq!(&bytes[64..69], b"dirt\0");
            assert_eq!(&bytes[256..263], b"x86_64\0");
        }
        _ => panic!("expected a write"),
    }
    assert_eq!(uname_bytes().len(), 384);
}

#[test]
fn other_syscalls_succeed_without_effect() {
    let mut k = LinuxKernel::new();
    assert_eq!(rax_of(&k.on_syscall(&regs(2, 0x1234, 0, 0), &[])), 0);
    assert_eq!(rax_of(&k.on_syscall(&regs(9, 0, 0x1000, 3), &[])), 0);
    assert_eq!(rax_of(&k.on_syscall(&regs(SYS_ARCH_PRCTL, 0x1003, 0, 0), &[])), 0);
    assert_eq!(k.brk_ptr(), BRK_ADDR);
}

#[test]
fn set_fs_injects_code_and_resumes_after_trap() {
    let mut k = LinuxKernel::new();
    let r = regs(SYS_ARCH_PRCTL, ARCH_SET_FS, 0x1_2345_6789, 0x55);
    let plan = k.on_syscall(&r, &[]);
    assert_eq!(plan.len(), 8);
    match &plan[2] {
        EmuAction::Write { addr, bytes } => {
            assert_eq!(*addr, r.rsp - 8);
            assert_eq!(native_unpack(bytes), 0x401002);
        }
        _ => panic!("expected the pushed return address"),
    }
    assert!(matches!(plan[3], EmuAction::SetReg { reg: Reg::Rax, value: 0x2345_6789 }));
    assert!(matches!(plan[4], EmuAction::SetReg { reg: Reg::Rdx, value: 1 }));
    assert!(matches!(plan[5], EmuAction::SetReg { reg: Reg::Rcx, value: MSR_FS_BASE }));
    match &plan[6] {
        EmuAction::Write { addr, bytes } => {
            assert_eq!(*addr, SHELLCODE_ADDR);
            assert_eq!(bytes, &fs_shellcode(0, 0x77, 0x55));
        }
        _ => panic!("expected the injected code"),
    }
    assert!(matches!(plan[7], EmuAction::SetReg { reg: Reg::Rip, value: v } if v == SHELLCODE_ADDR - 2));
}

#[test]
fn shellcode_layout() {
    let code = fs_shellcode(1, 2, 3);
    let mut expected = vec![0x0f, 0x30, 0x48, 0xb8];
    expected.extend_from_slice(&1u64.to_le_bytes());
    expected.extend_from_slice(&[0x48, 0xb9]);
    expected.extend_from_slice(&2u64.to_le_bytes());
    expected.extend_from_slice(&[0x48, 0xba]);
    expected.extend_from_slice(&3u64.to_le_bytes());
    expected.push(0xc3);
    assert_eq!(code, expected);
    let tls = fs_base_plan(TLS_ADDR);
    assert_eq!(tls.len(), 5);
    assert!(matches!(tls[0], EmuAction::SetReg { reg: Reg::Rax, value: v } if v == TLS_ADDR));
    assert!(matches!(tls[4], EmuAction::Run { start, until } if start == SHELLCODE_ADDR && until == SHELLCODE_ADDR + 2));
}

#[test]
fn auxiliary_vector_codes() {
    let auxv = get_auxv(0x1234);
    assert_eq!(auxv.len(), 8);
    assert_eq!(auxv[1], (AuxVecType::ELF_AT_RANDOM, 0x1234));
    assert_eq!(auxv[1].0.code(), 25);
    assert_eq!(auxv[7].0.code(), 6);
    assert_eq!(auxv[7].1, 0x1000);
    assert_eq!(AuxVecType::ELF_AT_SYSINFO_EHDR.code(), 33);
}

#[test]
fn initial_stack_layout() {
    let sp = STACK_ADDR + STACK_SIZE;
    let mut plan = Vec::new();
    let rand: Vec<u8> = (0..16).collect();
    let mut names = DataWriter::new(KERNEL_ADDR, KERNEL_ADDR + 0x100);
    let new_sp = init_stack(&mut plan, sp, &rand, &mut names).unwrap();
    assert_eq!(new_sp, sp - 16 - 8 * 20);
    assert_eq!(plan.len(), 2 + 2 * 20);
    let words: Vec<u64> = plan
        .iter()
        .filter_map(|a| match a {
            EmuAction::Write { addr, bytes } if *addr < sp - 16 => Some(native_unpack(bytes)),
            _ => None,
        })
        .collect();
    // argc is pushed last, so it sits at the final stack pointer.
    assert_eq!(words[19], 1);
    assert_eq!(words[18], KERNEL_ADDR);
    assert_eq!(words[17], 0);
    assert_eq!(words[16], 0);
    assert_eq!(words[2], sp - 16);
    assert_eq!(words[3], 25);
    match names.into_action() {
        EmuAction::Write { bytes, .. } => assert_eq!(bytes, b"/emu\0".to_vec()),
        _ => panic!("expected a write"),
    }
}

#[test]
fn environment_setup_plan() {
    let mut vm = VmState::new();
    vm.init().unwrap();
    let (k, heap) = LinuxEnv {}.attach(&mut vm).unwrap();
    assert_eq!(k.brk_ptr(), BRK_ADDR);
    assert!(matches!(heap, EmuAction::MapRegion { addr, .. } if addr == BRK_ADDR));
    let plan = init_state(&mut vm, 0x401000, 0x401200).unwrap();
    assert!(matches!(plan.last(), Some(EmuAction::Run { start: 0x401000, until: 0x401200 })));
    let rand_writes = plan
        .iter()
        .filter(|a| matches!(a, EmuAction::Write { addr, bytes } if *addr == STACK_ADDR + STACK_SIZE - 16 && bytes.len() == 16))
        .count();
    assert_eq!(rand_writes, 1);
    assert!(vm.regions().iter().any(|r| r.name == "[kernel]"));
    assert!(vm.regions().iter().any(|r| r.name == "[tls]"));
    assert!(LinuxEnv {}.attach(&mut vm).is_err());
}

#[test]
fn shellcode_runs_from_injection_region() {
    let plan = run_shellcode(vec![0x90, 0x90, 0xc3]);
    assert!(matches!(&plan[0], EmuAction::Write { addr, bytes } if *addr == SHELLCODE_ADDR && bytes == &vec![0x90, 0x90, 0xc3]));
    assert!(matches!(plan[1], EmuAction::Run { start, until } if start == SHELLCODE_ADDR && until == SHELLCODE_ADDR + 3));
}
