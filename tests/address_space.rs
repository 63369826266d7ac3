use std::collections::BTreeMap;

use dirt::args::EmuArgs;
use dirt::calling_convention::{init_args, CallingConvention};
use dirt::codec::{native_pack, native_unpack};
use dirt::datatypes::{BufData, ByteData, CompositeData, DataType, IntegerData, StringData, ThisOffsetData};
use dirt::dirt_engine::TargetInfo;
use dirt::emu::{Error, CODE_SENTINEL, EMUDATA_ADDR, EMUDATA_SIZE, PROT_READ, PROT_WRITE, STACK_ADDR, STACK_SIZE};
use dirt::emu_engine::EmuEngine;
use dirt::linux::LinuxKernel;
use dirt::machine::{EmuAction, Reg};
use dirt::vmstate::{read_str, read_usize, DataWriter, MemMap, VmState};

/// A stand-in for the emulator: sparse memory and a register file.
#[derive(Default)]
struct Sim {
    mem: BTreeMap<u64, u8>,
    regs: BTreeMap<String, u64>,
}

impl Sim {
    fn apply(&mut self, plan: &[EmuAction]) {
        for a in plan {
            match a {
                EmuAction::Write { addr, bytes } => {
                    for (i, b) in bytes.iter().enumerate() {
                        self.mem.insert(addr + i as u64, *b);
                    }
                }
                EmuAction::SetReg { reg, value } => {
                    self.regs.insert(format!("{:?}", reg), *value);
                }
                _ => {}
            }
        }
    }

    fn reg(&self, r: Reg) -> u64 {
        *self.regs.get(&format!("{:?}", r)).unwrap_or(&0)
    }

    fn byte(&self, a: u64) -> u8 {
        *self.mem.get(&a).unwrap_or(&0)
    }

    fn word(&self, a: u64) -> u64 {
        let bytes: Vec<u8> = (0..8).map(|i| self.byte(a + i)).collect();
        native_unpack(&bytes)
    }
}

fn region(addr: u64, size: u64, name: &str) -> MemMap {
    MemMap { addr, size, name: String::from(name), flags: PROT_READ | PROT_WRITE }
}

/// An address space with the engine's regions and a baseline in which every
/// byte of region `i` is `i + 1`.
fn baseline() -> VmState {
    let mut vm = VmState::new();
    vm.init().unwrap();
    vm.mem_map(region(0x400000, 0x2000, "")).unwrap();
    let contents: Vec<Vec<u8>> = vm
        .regions()
        .iter()
        .enumerate()
        .map(|(i, r)| vec![(i + 1) as u8; r.size as usize])
        .collect();
    vm.snapshot(contents).unwrap();
    vm
}

#[test]
fn reset_restores_every_tracked_byte() {
    let vm = baseline();
    let mut sim = Sim::default();
    // A previous probe scribbled over the stack, the scratch data and the program.
    sim.apply(&[
        EmuAction::Write { addr: STACK_ADDR + 0x100, bytes: vec![0xAA; 64] },
        EmuAction::Write { addr: EMUDATA_ADDR, bytes: vec![0xBB; 32] },
        EmuAction::Write { addr: 0x400010, bytes: vec![0xCC; 16] },
        EmuAction::SetReg { reg: Reg::Rsp, value: 42 },
    ]);
    let plan = vm.reset_probe_state().unwrap();
    sim.apply(&plan);
    for (i, r) in vm.regions().iter().enumerate() {
        for off in [0, 1, r.size / 2, r.size - 1] {
            assert_eq!(sim.byte(r.addr + off), (i + 1) as u8);
        }
    }
    assert_eq!(sim.reg(Reg::Rsp), STACK_ADDR + STACK_SIZE);
}

#[test]
fn reset_needs_snapshot() {
    let mut vm = VmState::new();
    assert_eq!(vm.reset_probe_state().unwrap_err(), Error::StackUninitialized);
    vm.init().unwrap();
    assert_eq!(vm.reset_probe_state().unwrap_err(), Error::SnapshotMissing);
    assert_eq!(vm.restore_snapshot().unwrap_err(), Error::SnapshotMissing);
}

#[test]
fn snapshot_must_match_regions() {
    let mut vm = VmState::new();
    vm.init().unwrap();
    assert_eq!(vm.snapshot(vec![vec![0; 4]]), Err(Error::SnapshotMismatch));
    let sizes: Vec<Vec<u8>> = vm.regions().iter().map(|r| vec![0; r.size as usize + 1]).collect();
    assert_eq!(vm.snapshot(sizes), Err(Error::SnapshotMismatch));
    assert_eq!(vm.restore_snapshot().unwrap_err(), Error::SnapshotMissing);
}

#[test]
fn duplicate_region_name_is_refused() {
    let mut vm = VmState::new();
    vm.mem_map(region(0x1000, 0x1000, "[a]")).unwrap();
    assert_eq!(vm.mem_map(region(0x8000, 0x1000, "[a]")).unwrap_err(), Error::MapAlreadyExists);
    assert_eq!(vm.mem_map(region(0x1800, 0x1000, "[b]")).unwrap_err(), Error::MapOverlaps);
    assert_eq!(vm.mem_map(region(0x9000, 0, "[c]")).unwrap_err(), Error::MapOverlaps);
    assert_eq!(vm.regions().len(), 1);
}

#[test]
fn anonymous_region_named_after_address() {
    let mut vm = VmState::new();
    let a = vm.mem_map(region(0x400000, 0x1000, "")).unwrap();
    match a {
        EmuAction::MapRegion { addr, size, perms } => {
            assert_eq!((addr, size, perms), (0x400000, 0x1000, PROT_READ | PROT_WRITE));
        }
        _ => panic!("expected a map action"),
    }
    assert_eq!(vm.regions()[0].name, "anon:400000");
    assert_eq!(vm.mem_map(region(0x400000, 0x1000, "anon:400000")).unwrap_err(), Error::MapAlreadyExists);
}

#[test]
fn init_maps_engine_regions() {
    let mut vm = VmState::new();
    let plan = vm.init().unwrap();
    assert_eq!(plan.len(), 4);
    assert_eq!(vm.base_sp(), Some(STACK_ADDR + STACK_SIZE));
    assert_eq!(vm.regions().len(), 3);
    assert_eq!(vm.regions()[0].name, "[stack]");
    assert_eq!(vm.regions()[1].name, "[emu]");
    assert_eq!(vm.regions()[2].name, "[shellcode]");
}

#[test]
fn data_writer_bumps_and_bounds() {
    let mut w = DataWriter::new(0x100, 0x110);
    assert_eq!(w.write_str("hi"), Ok(0x100));
    assert_eq!(w.current_ptr(), 0x103);
    assert_eq!(w.write_usize(7), Ok(0x103));
    assert_eq!(w.current_ptr(), 0x10b);
    assert_eq!(w.write_data(&[1, 2, 3, 4, 5, 6]), Err(Error::OutOfRegion));
    assert_eq!(w.write_data(&[1, 2, 3, 4, 5]), Ok(0x10b));
    match w.into_action() {
        EmuAction::Write { addr, bytes } => {
            assert_eq!(addr, 0x100);
            assert_eq!(bytes, vec![b'h', b'i', 0, 7, 0, 0, 0, 0, 0, 0, 0, 1, 2, 3, 4, 5]);
        }
        _ => panic!("expected a write"),
    }
}

#[test]
fn marshal_strings_and_integers() {
    let vm = baseline();
    let args = EmuArgs::new(vec![
        DataType::Text(StringData::new("a")),
        DataType::Integer(IntegerData(9)),
        DataType::Text(StringData::new("b")),
        DataType::Byte(ByteData(0x41)),
    ]);
    let (p, image) = args.as_pushable(&vm).unwrap();
    assert_eq!(p.pushed_args(), vec![EMUDATA_ADDR, 9, EMUDATA_ADDR + 2, 0x41]);
    assert_eq!(p.nth(2), EMUDATA_ADDR + 2);
    match image {
        EmuAction::Write { addr, bytes } => {
            assert_eq!(addr, EMUDATA_ADDR);
            assert_eq!(bytes, vec![b'a', 0, b'b', 0]);
        }
        _ => panic!("expected a write"),
    }
}

#[test]
fn marshal_composite_and_self_pointer() {
    let vm = baseline();
    let inner = CompositeData::new(vec![
        DataType::Integer(IntegerData(0x1122334455667788)),
        DataType::ThisOffset(ThisOffsetData(16)),
        DataType::Byte(ByteData(7)),
    ]);
    let args = EmuArgs::new(vec![
        DataType::Buffer(BufData::new(3, Some(vec![9, 8, 7, 6]))),
        DataType::Composite(inner),
        DataType::ThisOffset(ThisOffsetData(4)),
        DataType::Buffer(BufData::new(2, None)),
    ]);
    let (p, image) = args.as_pushable(&vm).unwrap();
    let s = EMUDATA_ADDR;
    assert_eq!(p.pushed_args(), vec![s, s + 3, s + 3 + 17 + 4, s + 3 + 17]);
    let mut expected = vec![9, 8, 7];
    expected.extend_from_slice(&0x1122334455667788u64.to_le_bytes());
    expected.extend_from_slice(&(s + 3 + 8 + 16).to_le_bytes());
    expected.push(7);
    expected.extend_from_slice(&[0, 0]);
    match image {
        EmuAction::Write { addr, bytes } => {
            assert_eq!(addr, s);
            assert_eq!(bytes, expected);
        }
        _ => panic!("expected a write"),
    }
}

#[test]
fn marshal_overflowing_scratch_fails() {
    let vm = baseline();
    let args = EmuArgs::new(vec![DataType::Buffer(BufData::new(EMUDATA_SIZE + 1, None))]);
    assert_eq!(args.as_pushable(&vm).err(), Some(Error::OutOfRegion));
    let fits = EmuArgs::new(vec![DataType::Buffer(BufData::new(EMUDATA_SIZE, None))]);
    assert!(fits.as_pushable(&vm).is_ok());
    let empty = VmState::new();
    assert_eq!(fits.as_pushable(&empty).err(), Some(Error::EmuDataUninitialized));
}

fn callee_args(sim: &Sim, cc: CallingConvention, n: usize) -> Vec<u64> {
    let regs = [Reg::Rdi, Reg::Rsi, Reg::Rdx, Reg::Rcx, Reg::R8, Reg::R9];
    let sp = sim.reg(Reg::Rsp);
    (0..n)
        .map(|i| match cc {
            CallingConvention::Stdcall => sim.word(sp + 8 + 8 * i as u64),
            CallingConvention::SystemV => {
                if i < 6 {
                    sim.reg(regs[i])
                } else {
                    sim.word(sp + 8 + 8 * (i as u64 - 6))
                }
            }
        })
        .collect()
}

#[test]
fn conventions_deliver_same_arguments() {
    let args = vec![11u64, 22, 33];
    let sp = STACK_ADDR + STACK_SIZE;
    let mut a = Sim::default();
    a.apply(&init_args(CallingConvention::Stdcall, &args, CODE_SENTINEL, sp, STACK_ADDR).unwrap());
    let mut b = Sim::default();
    b.apply(&init_args(CallingConvention::SystemV, &args, CODE_SENTINEL, sp, STACK_ADDR).unwrap());
    assert_eq!(callee_args(&a, CallingConvention::Stdcall, 3), args);
    assert_eq!(callee_args(&b, CallingConvention::SystemV, 3), args);
    assert_eq!(a.word(a.reg(Reg::Rsp)), CODE_SENTINEL);
    assert_eq!(b.word(b.reg(Reg::Rsp)), CODE_SENTINEL);
    assert_eq!(a.reg(Reg::Rsp), sp - 32);
    assert_eq!(b.reg(Reg::Rsp), sp - 8);
}

#[test]
fn register_convention_spills_extra_arguments() {
    let args: Vec<u64> = (1..=9).collect();
    let sp = STACK_ADDR + STACK_SIZE;
    let mut sim = Sim::default();
    sim.apply(&init_args(CallingConvention::SystemV, &args, CODE_SENTINEL, sp, STACK_ADDR).unwrap());
    assert_eq!(callee_args(&sim, CallingConvention::SystemV, 9), args);
    assert_eq!(sim.reg(Reg::Rsp), sp - 32);
}

#[test]
fn binding_needs_stack_room() {
    let args = vec![1u64, 2, 3];
    assert_eq!(init_args(CallingConvention::Stdcall, &args, 0, 0x1018, 0x1000).unwrap_err(), Error::OutOfRegion);
    assert!(init_args(CallingConvention::Stdcall, &args, 0, 0x1020, 0x1000).is_ok());
    assert!(init_args(CallingConvention::SystemV, &args, 0, 0x1008, 0x1000).is_ok());
    assert_eq!(init_args(CallingConvention::SystemV, &args, 0, 0x1007, 0x1000).unwrap_err(), Error::OutOfRegion);
}

#[test]
fn probe_plan_resets_marshals_and_binds() {
    let mut engine = EmuEngine { vmstate: baseline(), kernel: LinuxKernel::new(), emu_counter: 0 };
    let target = TargetInfo { fva: 0x401000, cc: CallingConvention::SystemV };
    let args = EmuArgs::new(vec![
        DataType::Text(StringData::new("a")),
        DataType::Text(StringData::new("b")),
    ]);
    let plan = engine.call(&target, &args).unwrap();
    assert_eq!(plan.entry, 0x401000);
    assert_eq!(plan.until, CODE_SENTINEL);
    assert_eq!(engine.emu_counter(), 1);
    let mut sim = Sim::default();
    sim.apply(&[EmuAction::Write { addr: EMUDATA_ADDR, bytes: vec![0xEE; 8] }]);
    sim.apply(&plan.setup);
    assert_eq!(sim.reg(Reg::Rdi), EMUDATA_ADDR);
    assert_eq!(sim.reg(Reg::Rsi), EMUDATA_ADDR + 2);
    assert_eq!(sim.byte(EMUDATA_ADDR), b'a');
    assert_eq!(sim.byte(EMUDATA_ADDR + 1), 0);
    assert_eq!(sim.byte(EMUDATA_ADDR + 2), b'b');
    assert_eq!(sim.byte(EMUDATA_ADDR + 4), 2);
    assert_eq!(sim.word(sim.reg(Reg::Rsp)), CODE_SENTINEL);
    let effects = engine.collect_call_results(5, plan.args);
    assert_eq!(effects.return_value, 5);
    assert_eq!(effects.args.nth(1), EMUDATA_ADDR + 2);
}

#[test]
fn read_back_strings_and_words() {
    assert_eq!(read_str(b"abc\0def").unwrap(), "abc");
    assert_eq!(read_str(b"\0").unwrap(), "");
    assert_eq!(read_str(b"abc"), Err(Error::OutOfRegion));
    assert_eq!(read_str(&[0xff, 0xfe, 0]), Err(Error::FromUtf8Error));
    assert_eq!(read_usize(&[1, 2, 0, 0, 0, 0, 0, 0, 9]), 0x0201);
    assert_eq!(native_pack(0x0102030405060708), vec![8, 7, 6, 5, 4, 3, 2, 1]);
    assert_eq!(native_unpack(&native_pack(u64::MAX - 3)), u64::MAX - 3);
}

#[test]
fn stack_and_scratch_resets() {
    let mut vm = VmState::new();
    assert_eq!(vm.reset_stack().unwrap_err(), Error::StackUninitialized);
    assert_eq!(vm.reset_emudata().unwrap_err(), Error::EmuDataUninitialized);
    vm.init().unwrap();
    let plan = vm.reset_stack().unwrap();
    assert!(matches!(plan[0], EmuAction::SetReg { reg: Reg::Rsp, value } if value == STACK_ADDR + STACK_SIZE));
    assert!(matches!(&plan[1], EmuAction::Write { addr, bytes } if *addr == STACK_ADDR && bytes.len() == STACK_SIZE as usize && bytes.iter().all(|b| *b == 0)));
    let zero = vm.reset_emudata().unwrap();
    assert!(matches!(&zero, EmuAction::Write { addr, bytes } if *addr == EMUDATA_ADDR && bytes.len() == EMUDATA_SIZE as usize));
}

#[test]
fn engine_setup_on_fresh_address_space() {
    let (engine, plan) = EmuEngine::new(VmState::new(), 0x401000, 0x401100).unwrap();
    assert!(matches!(plan[0], EmuAction::MapRegion { addr: CODE_SENTINEL, .. }));
    assert!(matches!(plan.last(), Some(EmuAction::Run { start: 0x401000, until: 0x401100 })));
    let names: Vec<&str> = engine.vmstate.regions().iter().map(|r| r.name.as_str()).collect();
    assert_eq!(names, vec!["[stack]", "[emu]", "[shellcode]", "[heap]", "[kernel]", "[tls]"]);
}

#[test]
fn init_succeeds_beside_other_regions() {
    let mut vm = VmState::new();
    vm.mem_map(region(0x400000, 0x1000, "")).unwrap();
    assert!(vm.init().is_ok());
    let names: Vec<&str> = vm.regions().iter().map(|r| r.name.as_str()).collect();
    assert_eq!(names, vec!["anon:400000", "[stack]", "[emu]", "[shellcode]"]);
    let mut taken = VmState::new();
    taken.mem_map(region(0x1000, 0x1000, "[emu]")).unwrap();
    assert_eq!(taken.init().unwrap_err(), Error::MapAlreadyExists);
}

#[test]
fn restore_writes_back_only_tracked_regions() {
    let vm = baseline();
    let mut sim = Sim::default();
    sim.apply(&[
        EmuAction::Write { addr: 0x400000, bytes: vec![0xAA; 4] },
        EmuAction::Write { addr: 0x9000, bytes: vec![0x55; 4] },
        EmuAction::SetReg { reg: Reg::Rax, value: 9 },
    ]);
    sim.apply(&vm.restore_snapshot().unwrap());
    let idx = vm.regions().iter().position(|r| r.addr == 0x400000).unwrap();
    assert_eq!(sim.byte(0x400000), (idx + 1) as u8);
    assert_eq!(sim.byte(0x9000), 0x55);
    assert_eq!(sim.reg(Reg::Rax), 9);
}

#[test]
fn probe_clears_registers_and_counts() {
    let mut engine = EmuEngine { vmstate: baseline(), kernel: LinuxKernel::new(), emu_counter: 0 };
    let target = TargetInfo { fva: 0x401000, cc: CallingConvention::Stdcall };
    let args = EmuArgs::new(vec![DataType::Integer(IntegerData(3))]);
    let mut sim = Sim::default();
    sim.apply(&[EmuAction::SetReg { reg: Reg::Rbx, value: 77 }, EmuAction::SetReg { reg: Reg::R10, value: 5 }]);
    sim.apply(&engine.call(&target, &args).unwrap().setup);
    assert_eq!(sim.reg(Reg::Rbx), 0);
    assert_eq!(sim.reg(Reg::R10), 0);
    assert_eq!(sim.word(sim.reg(Reg::Rsp) + 8), 3);
    assert_eq!(engine.emu_counter(), 1);
    let too_many = EmuArgs::new((0..(STACK_SIZE / 8)).map(|i| DataType::Integer(IntegerData(i))).collect());
    assert_eq!(engine.call(&target, &too_many).err(), Some(Error::OutOfRegion));
    assert_eq!(engine.emu_counter(), 1);
    let mut bare = EmuEngine { vmstate: VmState::new(), kernel: LinuxKernel::new(), emu_counter: 0 };
    assert_eq!(bare.call(&target, &args).err(), Some(Error::StackUninitialized));
}
