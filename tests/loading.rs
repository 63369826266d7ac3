use dirt::emu::{Error as EmuError, PROT_EXEC, PROT_READ, PROT_WRITE};
use dirt::loader::{aligned_addr, aligned_size, from_elf, load_segments, prot_from_elf_flags, Arch, Error, Segment};
use dirt::machine::EmuAction;
use dirt::vmstate::VmState;

#[test]
fn page_alignment() {
    assert_eq!(aligned_addr(0x401234, 0x1000), 0x401000);
    assert_eq!(aligned_addr(0x401000, 0x1000), 0x401000);
    assert_eq!(aligned_size(0x1234, 0x1000), 0x2000);
    assert_eq!(aligned_size(0x1000, 0x1000), 0x2000);
    assert_eq!(aligned_size(0, 0x1000), 0x1000);
}

#[test]
fn elf_flags_to_permissions() {
    assert_eq!(prot_from_elf_flags(4 | 1), PROT_READ | PROT_EXEC);
    assert_eq!(prot_from_elf_flags(4 | 2), PROT_READ | PROT_WRITE);
    assert_eq!(prot_from_elf_flags(0), 0);
}

#[test]
fn architecture_selection() {
    assert_eq!(Arch::new(62), Ok(Arch::X86_64));
    assert_eq!(Arch::new(3), Ok(Arch::X86_32));
    assert_eq!(Arch::new(40), Err(Error::UnsupportedArch(40)));
}

#[test]
fn segments_are_mapped_and_written() {
    let mut vm = VmState::new();
    let segs = vec![
        Segment { vaddr: 0x400040, memsz: 0x100, flags: 5, data: vec![1, 2, 3] },
        Segment { vaddr: 0x600e10, memsz: 0x300, flags: 6, data: vec![4] },
    ];
    let plan = load_segments(&mut vm, &segs).unwrap();
    assert_eq!(plan.len(), 4);
    assert!(matches!(plan[0], EmuAction::MapRegion { addr: 0x400000, size: 0x1000, perms } if perms == PROT_READ | PROT_EXEC));
    assert!(matches!(plan[2], EmuAction::MapRegion { addr: 0x600000, size: 0x2000, .. }));
    assert!(matches!(&plan[1], EmuAction::Write { addr: 0x400040, bytes } if bytes == &vec![1, 2, 3]));
    assert_eq!(vm.regions()[1].name, "anon:600000");
}

#[test]
fn overlapping_segments_are_refused() {
    let mut vm = VmState::new();
    let segs = vec![
        Segment { vaddr: 0x400040, memsz: 0x100, flags: 5, data: vec![] },
        Segment { vaddr: 0x400f00, memsz: 0x100, flags: 6, data: vec![] },
    ];
    // Both land in page 0x400000, so the second region takes the first one's name.
    assert_eq!(load_segments(&mut vm, &segs).unwrap_err(), Error::EmuError(EmuError::MapAlreadyExists));
    let mut vm = VmState::new();
    let segs = vec![
        Segment { vaddr: 0x400040, memsz: 0x1100, flags: 5, data: vec![] },
        Segment { vaddr: 0x401f00, memsz: 0x100, flags: 6, data: vec![] },
    ];
    assert_eq!(load_segments(&mut vm, &segs).unwrap_err(), Error::EmuError(EmuError::MapOverlaps));
}

#[test]
fn program_image_plan() {
    let segs = vec![Segment { vaddr: 0x400000, memsz: 0x800, flags: 5, data: vec![0x90; 16] }];
    let (engine, plan) = from_elf(&segs, 0x400010, 0x400020).unwrap();
    assert!(matches!(plan.last(), Some(EmuAction::Run { start: 0x400010, until: 0x400020 })));
    assert!(engine.vmstate.base_sp().is_some());
    assert_eq!(engine.emu_counter(), 0);
}

#[test]
fn program_without_segments_still_gets_an_image() {
    let (engine, plan) = from_elf(&vec![], 0x10, 0x20).unwrap();
    assert!(plan.len() > 1);
    assert_eq!(engine.vmstate.regions().len(), 6);
}

#[test]
fn loaded_segments_enter_registry() {
    let segs = vec![
        Segment { vaddr: 0x400040, memsz: 0x100, flags: 5, data: vec![1] },
        Segment { vaddr: 0x600010, memsz: 0x10, flags: 6, data: vec![] },
    ];
    let (engine, _) = from_elf(&segs, 0x400040, 0x400050).unwrap();
    let r = engine.vmstate.regions();
    assert_eq!(r.len(), 8);
    assert_eq!((r[0].addr, r[0].size, r[0].flags, r[0].name.as_str()), (0x400000, 0x1000, PROT_READ | PROT_EXEC, "anon:400000"));
    assert_eq!((r[1].addr, r[1].flags, r[1].name.as_str()), (0x600000, PROT_READ | PROT_WRITE, "anon:600000"));
    let names: Vec<&str> = r[2..].iter().map(|m| m.name.as_str()).collect();
    assert_eq!(names, vec!["[stack]", "[emu]", "[shellcode]", "[heap]", "[kernel]", "[tls]"]);
}

#[test]
fn segment_bytes_must_fit_memory_size() {
    let mut vm = VmState::new();
    let segs = vec![Segment { vaddr: 0x400000, memsz: 2, flags: 4, data: vec![1, 2, 3] }];
    assert_eq!(load_segments(&mut vm, &segs).unwrap_err(), Error::EmuError(EmuError::OutOfRegion));
}
