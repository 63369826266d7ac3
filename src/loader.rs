//! Placement of a program's loadable segments in the address space.
use vstd::prelude::*;
use crate::emu;
use crate::emu::{PROT_READ, PROT_WRITE, PROT_EXEC, STACK_ADDR, STACK_SIZE, EMUDATA_ADDR, EMUDATA_SIZE,
    SHELLCODE_ADDR, SHELLCODE_SIZE, BRK_ADDR, BRK_SIZE, KERNEL_ADDR, KERNEL_SIZE, TLS_ADDR, TLS_SIZE};
use crate::emu_engine::{EmuEngine, engine_free, is_engine_registry};
use crate::machine::EmuAction;
use crate::vmstate::{MemMap, VmState, anon_name_of, has_name, slot_free};

verus! {

/// Failures while loading a program.
#[derive(Debug, Clone, Copy, PartialEq, Eq, Structural)]
pub enum Error {
    /// The file is not a well-formed ELF image.
    ParseError,
    /// The emulator refused an operation; the value is its error code.
    UnicornError(u32),
    /// The address space refused the program.
    EmuError(emu::Error),
    /// The file could not be read.
    IoError,
    /// The ELF machine type is not supported; the value is that type.
    UnsupportedArch(u16),
    Unknown,
}

/// Page granularity of segment mappings.
pub const PAGE: u64 = 0x1000;
/// ELF machine type of 32-bit x86.
pub const EM_386: u16 = 3;
/// ELF machine type of x86-64.
pub const EM_X86_64: u16 = 62;
/// ELF segment flag: executable.
pub const PF_X: u32 = 1;
/// ELF segment flag: writable.
pub const PF_W: u32 = 2;
/// ELF segment flag: readable.
pub const PF_R: u32 = 4;

/// Size rounded to whole pages, always with one page to spare past `size`
/// (`size / page_size + 1` pages).
pub fn aligned_size(size: u64, page_size: u64) -> (r: u64)
    requires
        page_size > 0,
        (size / page_size + 1) * page_size <= u64::MAX,
    ensures
        r == (size / page_size + 1) * page_size,
{
    let q = size / page_size;
    proof {
        assert(q + 1 <= (q + 1) * page_size) by (nonlinear_arith)
            requires
                page_size >= 1,
                q >= 0,
        ;
    }
    (q + 1) * page_size
}

/// Address rounded down to its page.
pub fn aligned_addr(addr: u64, page_size: u64) -> (r: u64)
    requires
        page_size > 0,
    ensures
        r == (addr / page_size) * page_size,
        r <= addr,
        addr - r < page_size,
{
    proof {
        assert((addr / page_size) * page_size <= addr) by (nonlinear_arith)
            requires
                page_size > 0,
        ;
        assert(addr - (addr / page_size) * page_size < page_size) by (nonlinear_arith)
            requires
                page_size > 0,
        ;
    }
    (addr / page_size) * page_size
}

/// Region permissions for ELF segment flags.
pub open spec fn prot_spec(flags: u32) -> u32 {
    (if flags & PF_R != 0 { PROT_READ } else { 0u32 }) | (if flags & PF_W != 0 { PROT_WRITE } else { 0u32 }) | (if flags & PF_X != 0 { PROT_EXEC } else { 0u32 })
}

/// Region permissions for ELF segment flags.
pub fn prot_from_elf_flags(flags: u32) -> (r: u32)
    ensures
        r == prot_spec(flags),
{
    let read = if flags & PF_R != 0 { PROT_READ } else { 0u32 };
    let write = if flags & PF_W != 0 { PROT_WRITE } else { 0u32 };
    let exec = if flags & PF_X != 0 { PROT_EXEC } else { 0u32 };
    read | write | exec
}

/// The emulated architecture.
#[derive(Debug, Clone, Copy, PartialEq, Eq, Structural)]
pub enum Arch {
    X86_32,
    X86_64,
}

impl Arch {
    /// The architecture of an ELF machine type.
    pub fn new(machine: u16) -> (r: Result<Arch, Error>)
        ensures
            machine == EM_386 ==> r == Ok::<Arch, Error>(Arch::X86_32),
            machine == EM_X86_64 ==> r == Ok::<Arch, Error>(Arch::X86_64),
            machine != EM_386 && machine != EM_X86_64 ==> r == Err::<Arch, Error>(Error::UnsupportedArch(machine)),
    {
        if machine == EM_386 {
            Ok(Arch::X86_32)
        } else if machine == EM_X86_64 {
            Ok(Arch::X86_64)
        } else {
            Err(Error::UnsupportedArch(machine))
        }
    }
}

/// A loadable segment: its virtual address, its size in memory, its ELF
/// flags, and its bytes in the file.
pub struct Segment {
    pub vaddr: u64,
    pub memsz: u64,
    pub flags: u32,
    pub data: Vec<u8>,
}

/// The page-aligned region that holds a segment: from the page of `vaddr`,
/// `aligned_size(memsz + offset in page)` bytes.
pub open spec fn segment_region(s: Segment) -> (u64, u64) {
    let page_addr = (s.vaddr / PAGE) * PAGE;
    let offset = s.vaddr - page_addr;
    (page_addr as u64, (((s.memsz + offset) / PAGE as int + 1) * PAGE) as u64)
}

/// Whether a segment's region can be computed without overflow and its
/// bytes fit in its size in memory.
pub open spec fn segment_fits(s: Segment) -> bool {
    let page = (s.vaddr / PAGE) * PAGE;
    let offset = s.vaddr - page;
    &&& s.memsz + offset <= u64::MAX
    &&& (s.memsz + offset) / (PAGE as int) < u64::MAX / PAGE - 1
    &&& s.data@.len() <= s.memsz
}

/// Whether the regions of two segments are apart.
pub open spec fn segments_apart(a: Segment, b: Segment) -> bool {
    let ra = segment_region(a);
    let rb = segment_region(b);
    &&& anon_name_of(ra.0) != anon_name_of(rb.0)
    &&& ra.0 + ra.1 <= rb.0 || rb.0 + rb.1 <= ra.0
}

/// Whether every segment fits, its region and name are free in `rs`, and
/// the segments' regions are apart from one another.
pub open spec fn segments_loadable(rs: Seq<MemMap>, segs: Seq<Segment>) -> bool {
    forall|i: int|
        0 <= i < segs.len() ==> {
            &&& segment_fits(#[trigger] segs[i])
            &&& slot_free(rs, anon_name_of(segment_region(segs[i]).0), segment_region(segs[i]).0, segment_region(segs[i]).1)
            &&& forall|j: int| 0 <= j < i ==> segments_apart(#[trigger] segs[j], segs[i])
        }
}

/// Whether `m` is the registry entry of segment `s`: its region, its
/// permissions, and the name of its page.
pub open spec fn is_segment_entry(m: MemMap, s: Segment) -> bool {
    &&& m.addr == segment_region(s).0
    &&& m.size == segment_region(s).1
    &&& m.flags == prot_spec(s.flags)
    &&& m.name@ == anon_name_of(segment_region(s).0)
}

/// Whether `[addr, addr + size)` meets none of the engine's fixed regions.
pub open spec fn region_clear(addr: u64, size: u64) -> bool {
    let apart = |a: u64, n: u64| addr + size <= a || a + n <= addr;
    &&& apart(STACK_ADDR, STACK_SIZE)
    &&& apart(EMUDATA_ADDR, EMUDATA_SIZE)
    &&& apart(SHELLCODE_ADDR, SHELLCODE_SIZE)
    &&& apart(BRK_ADDR, BRK_SIZE)
    &&& apart(KERNEL_ADDR, KERNEL_SIZE)
    &&& apart(TLS_ADDR, TLS_SIZE)
}

/// Whether a segment's region meets none of the engine's fixed regions.
pub open spec fn clear_of_engine(s: Segment) -> bool {
    region_clear(segment_region(s).0, segment_region(s).1)
}

/// Registers one region per segment and returns, for each, the action that
/// maps it followed by the write of its file bytes at its address. Fails on
/// a segment whose region overflows the address space or overlaps another
/// region, or whose bytes outrun it.
pub fn load_segments(vmstate: &mut VmState, segments: &Vec<Segment>) -> (r: Result<Vec<EmuAction>, Error>)
    requires
        old(vmstate).wf(),
    ensures
        final(vmstate).wf(),
        final(vmstate).stack_view() == old(vmstate).stack_view(),
        final(vmstate).emudata_view() == old(vmstate).emudata_view(),
        final(vmstate).shellcode_view() == old(vmstate).shellcode_view(),
        final(vmstate).snapshot_view() == old(vmstate).snapshot_view(),
        segments@.len() == 0 ==> r is Ok && final(vmstate).regions_view() == old(vmstate).regions_view(),
        segments_loadable(old(vmstate).regions_view(), segments@) ==> r is Ok,
        r is Ok ==> final(vmstate).regions_view().len() == old(vmstate).regions_view().len() + segments@.len()
            && final(vmstate).regions_view().subrange(0, old(vmstate).regions_view().len() as int) == old(vmstate).regions_view()
            && forall|i: int| 0 <= i < segments@.len() ==> is_segment_entry(
                #[trigger] final(vmstate).regions_view()[old(vmstate).regions_view().len() + i],
                segments@[i],
            ),
        r matches Ok(plan) ==> plan@.len() == 2 * segments@.len() && forall|i: int| 0 <= i < segments@.len() ==> {
            &&& #[trigger] plan@[2 * i] == (EmuAction::MapRegion {
                addr: segment_region(segments@[i]).0,
                size: segment_region(segments@[i]).1,
                perms: prot_spec(segments@[i].flags),
            })
            &&& plan@[2 * i + 1] is Write
            &&& plan@[2 * i + 1]->Write_addr == segments@[i].vaddr
            &&& plan@[2 * i + 1]->Write_bytes@ == segments@[i].data@
        },
{
    let mut plan: Vec<EmuAction> = Vec::new();
    let mut i: usize = 0;
    while i < segments.len()
        invariant
            i <= segments@.len(),
            vmstate.wf(),
            vmstate.stack_view() == old(vmstate).stack_view(),
            vmstate.emudata_view() == old(vmstate).emudata_view(),
            vmstate.shellcode_view() == old(vmstate).shellcode_view(),
            vmstate.snapshot_view() == old(vmstate).snapshot_view(),
            vmstate.regions_view().len() == old(vmstate).regions_view().len() + i,
            i == 0 ==> vmstate.regions_view() == old(vmstate).regions_view(),
            vmstate.regions_view().subrange(0, old(vmstate).regions_view().len() as int) == old(vmstate).regions_view(),
            forall|k: int| 0 <= k < i ==> is_segment_entry(
                #[trigger] vmstate.regions_view()[old(vmstate).regions_view().len() + k],
                segments@[k],
            ),
            plan@.len() == 2 * i,
            forall|k: int| 0 <= k < i ==> {
                &&& #[trigger] plan@[2 * k] == (EmuAction::MapRegion {
                    addr: segment_region(segments@[k]).0,
                    size: segment_region(segments@[k]).1,
                    perms: prot_spec(segments@[k].flags),
                })
                &&& plan@[2 * k + 1] is Write
                &&& plan@[2 * k + 1]->Write_addr == segments@[k].vaddr
                &&& plan@[2 * k + 1]->Write_bytes@ == segments@[k].data@
            },
        decreases segments@.len() - i,
    {
        let seg = &segments[i];
        let page_addr = aligned_addr(seg.vaddr, PAGE);
        let offset = seg.vaddr - page_addr;
        if seg.memsz > u64::MAX - offset || (seg.memsz + offset) / PAGE >= u64::MAX / PAGE - 1 {
            return Err(Error::EmuError(emu::Error::MapOverlaps));
        }
        let total = seg.memsz + offset;
        proof {
            let q = total / PAGE;
            assert((q + 1) * 0x1000 <= u64::MAX) by (nonlinear_arith)
                requires
                    q < 0xfffffffffffff - 1,
            ;
        }
        let page_size = aligned_size(total, PAGE);
        if seg.data.len() as u64 > seg.memsz {
            return Err(Error::EmuError(emu::Error::OutOfRegion));
        }
        let flags = prot_from_elf_flags(seg.flags);
        let ghost rv = vmstate.regions_view();
        let ghost n0 = old(vmstate).regions_view().len() as int;
        proof {
            if segments_loadable(old(vmstate).regions_view(), segments@) {
                let s_i = segments@[i as int];
                let reg = segment_region(s_i);
                let name = anon_name_of(reg.0);
                assert(segment_fits(s_i));
                assert(slot_free(old(vmstate).regions_view(), name, reg.0, reg.1));
                assert forall|k: int| 0 <= k < rv.len() implies (#[trigger] rv[k]).name@ != name && (rv[k].addr
                    + rv[k].size <= reg.0 || reg.0 + reg.1 <= rv[k].addr) by {
                    if k < n0 {
                        assert(rv[k] == rv.subrange(0, n0)[k]);
                    } else {
                        let j = k - n0;
                        assert(is_segment_entry(rv[n0 + j], segments@[j]));
                        assert(segments_apart(segments@[j], s_i));
                    }
                }
                assert(!has_name(rv, name));
            }
        }
        let map = match vmstate.mem_map(MemMap { addr: page_addr, size: page_size, name: String::new(), flags }) {
            Ok(a) => a,
            Err(e) => return Err(Error::EmuError(e)),
        };
        proof {
            let nv = vmstate.regions_view();
            assert(nv.subrange(0, n0) =~= rv.subrange(0, n0));
            assert forall|k: int| 0 <= k < i + 1 implies is_segment_entry(#[trigger] nv[n0 + k], segments@[k]) by {
                if k < i {
                    assert(nv[n0 + k] == rv[n0 + k]);
                }
            }
        }
        let bytes = vstd::slice::slice_to_vec(seg.data.as_slice());
        let ghost before = plan@;
        plan.push(map);
        plan.push(EmuAction::Write { addr: seg.vaddr, bytes });
        proof {
            assert forall|k: int| 0 <= k < i + 1 implies {
                &&& #[trigger] plan@[2 * k] == (EmuAction::MapRegion {
                    addr: segment_region(segments@[k]).0,
                    size: segment_region(segments@[k]).1,
                    perms: prot_spec(segments@[k].flags),
                })
                &&& plan@[2 * k + 1] is Write
                &&& plan@[2 * k + 1]->Write_addr == segments@[k].vaddr
                &&& plan@[2 * k + 1]->Write_bytes@ == segments@[k].data@
            } by {
                if k < i {
                    assert(plan@[2 * k] == before[2 * k]);
                    assert(plan@[2 * k + 1] == before[2 * k + 1]);
                }
            }
        }
        i = i + 1;
    }
    Ok(plan)
}

/// Creates the emulation context for a program given its loadable segments
/// and the addresses of its entry point and of `main`: the segments are
/// placed, then the process image is prepared (see `EmuEngine::new`). The
/// host applies the returned actions, then captures the baseline. Succeeds
/// when the segments can be loaded and their regions stay clear of the
/// engine's fixed regions.
pub fn from_elf(segments: &Vec<Segment>, start_fva: u64, main_fva: u64) -> (r: Result<(EmuEngine, Vec<EmuAction>), Error>)
    ensures
        segments@.len() == 0 ==> r is Ok,
        segments_loadable(Seq::empty(), segments@) && (forall|i: int|
            0 <= i < segments@.len() ==> clear_of_engine(#[trigger] segments@[i])) ==> r is Ok,
        r matches Ok((e, plan)) ==> e.counter() == 0 && exists|rs: Seq<MemMap>| {
            &&& rs.len() == segments@.len()
            &&& forall|i: int| 0 <= i < segments@.len() ==> is_segment_entry(#[trigger] rs[i], segments@[i])
            &&& is_engine_registry(rs, e.vmstate.regions_view())
        },
        r matches Ok((e, plan)) ==> e.vmstate.wf() && e.vmstate.stack_view() is Some && e.vmstate.emudata_view() is Some
            && plan@.len() >= 2 * segments@.len() && plan@.last() == (EmuAction::Run { start: start_fva, until: main_fva }),
{
    let mut vmstate = VmState::new();
    let mut plan = load_segments(&mut vmstate, segments)?;
    let ghost rs = vmstate.regions_view();
    proof {
        if segments@.len() == 0 {
            assert(vmstate.regions_view().len() == 0);
        }
        assert(rs.subrange(0, 0) =~= Seq::<MemMap>::empty());
        assert forall|i: int| 0 <= i < segments@.len() implies is_segment_entry(#[trigger] rs[i], segments@[i]) by {
            assert(rs[i] == rs[0 + i]);
        }
        if forall|i: int| 0 <= i < segments@.len() ==> clear_of_engine(#[trigger] segments@[i]) {
            reveal_strlit("[stack]");
            reveal_strlit("[emu]");
            reveal_strlit("[shellcode]");
            reveal_strlit("[heap]");
            reveal_strlit("[kernel]");
            reveal_strlit("[tls]");
            assert forall|k: int| 0 <= k < rs.len() implies (#[trigger] rs[k]).name@[0] == 'a' by {
                assert(is_segment_entry(rs[k], segments@[k]));
                assert(clear_of_engine(segments@[k]));
            }
            assert forall|k: int| 0 <= k < rs.len() implies #[trigger] rs[k].name@ != "[stack]"@ && rs[k].name@ != "[emu]"@
                && rs[k].name@ != "[shellcode]"@ && rs[k].name@ != "[heap]"@ && rs[k].name@ != "[kernel]"@
                && rs[k].name@ != "[tls]"@ by {
                assert(rs[k].name@[0] == 'a');
            }
            assert forall|k: int| 0 <= k < rs.len() implies region_clear((#[trigger] rs[k]).addr, rs[k].size) by {
                assert(is_segment_entry(rs[k], segments@[k]));
                assert(clear_of_engine(segments@[k]));
            }
            assert(engine_free(rs));
        }
    }
    let (engine, mut image) = match EmuEngine::new(vmstate, start_fva, main_fva) {
        Ok(x) => x,
        Err(e) => return Err(Error::EmuError(e)),
    };
    let ghost img = image@;
    plan.append(&mut image);
    assert(plan@.last() == img.last());
    Ok((engine, plan))
}

} // verus!
