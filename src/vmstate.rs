//! The address-space manager: the registry of named regions, the baseline
//! snapshot, probe resets, and the scratch-data writer.
use vstd::prelude::*;
use vstd::slice::slice_to_vec;
use crate::emu::{Error, STACK_ADDR, STACK_SIZE, EMUDATA_ADDR, EMUDATA_SIZE, SHELLCODE_ADDR,
    SHELLCODE_SIZE, PROT_READ, PROT_WRITE, PROT_EXEC};
use crate::codec::native_pack;
use vstd::bytes::spec_u64_to_le_bytes;
use vstd::utf8::{valid_utf8, decode_utf8};
use vstd::string::{StringSliceAdditionalSpecFns, StringExecFns};
use crate::machine::{EmuAction, Reg, mem_after, regs_after, writes_at, lemma_mem_last_writer,
    lemma_mem_untouched_all, lemma_regs_untouched_all,
    lemma_regs_untouched_suffix};

verus! {

/// A named, permission-tagged region of emulated memory.
#[derive(Debug)]
pub struct MemMap {
    pub addr: u64,
    pub size: u64,
    pub name: String,
    pub flags: u32,
}

impl MemMap {
    /// Whether the region holds address `x`.
    pub open spec fn contains(self, x: int) -> bool {
        self.addr <= x < self.addr + self.size
    }

    /// Whether two regions share no address.
    pub open spec fn disjoint(self, other: MemMap) -> bool {
        self.addr + self.size <= other.addr || other.addr + other.size <= self.addr
    }

    /// First address past the region.
    pub open spec fn end(self) -> int {
        self.addr + self.size
    }

    /// A copy of the region descriptor.
    pub fn copy(&self) -> (r: MemMap)
        ensures
            r == *self,
    {
        MemMap { addr: self.addr, size: self.size, name: self.name.clone(), flags: self.flags }
    }
}

/// Lowercase hexadecimal digit of a value below sixteen.
pub open spec fn hex_char(d: nat) -> char {
    if d < 10 {
        ((d + 48) as u8) as char
    } else {
        ((d + 87) as u8) as char
    }
}

/// Lowercase hexadecimal digits of `n`, without leading zeros.
pub open spec fn hex_digits(n: nat) -> Seq<char>
    decreases n,
{
    if n < 16 {
        seq![hex_char(n)]
    } else {
        hex_digits(n / 16) + seq![hex_char(n % 16)]
    }
}

/// Name given to a region registered without one.
pub open spec fn anon_name_of(addr: u64) -> Seq<char> {
    seq!['a', 'n', 'o', 'n', ':'] + hex_digits(addr as nat)
}

/// Relies on std's `format!` with `{:x}`: lowercase hexadecimal without
/// leading zeros.
#[verifier::external_body]
fn hex_text(n: u64) -> (r: String)
    ensures
        r@ == hex_digits(n as nat),
{
    format!("{:x}", n)
}

/// The name given to a region registered without one.
fn anon_name(addr: u64) -> (r: String)
    ensures
        r@ == anon_name_of(addr),
{
    proof {
        reveal_strlit("anon:");
    }
    let mut name = String::from_str("anon:");
    let hex = hex_text(addr);
    name.append(hex.as_str());
    assert(name@ =~= anon_name_of(addr));
    name
}

/// A slice of `n` zero bytes.
pub fn zeros(n: u64) -> (r: Vec<u8>)
    ensures
        r@ == Seq::new(n as nat, |i: int| 0u8),
{
    let mut v: Vec<u8> = Vec::new();
    let mut i: u64 = 0;
    while i < n
        invariant
            i <= n,
            v@ == Seq::new(i as nat, |k: int| 0u8),
        decreases n - i,
    {
        v.push(0u8);
        i = i + 1;
        assert(v@ =~= Seq::new(i as nat, |k: int| 0u8));
    }
    v
}

/// The captured baseline: the regions in registry order and their bytes.
pub struct Snapshot {
    maps: Vec<MemMap>,
    data: Vec<Vec<u8>>,
}

/// The registry of regions and the baseline snapshot.
pub struct VmState {
    regions: Vec<MemMap>,
    stack_info: Option<MemMap>,
    emudata_info: Option<MemMap>,
    shellcode_info: Option<MemMap>,
    snapshot: Option<Snapshot>,
}

/// Whether a sequence of regions is pairwise disjoint with distinct names.
pub open spec fn regions_wf(rs: Seq<MemMap>) -> bool {
    &&& forall|i: int| 0 <= i < rs.len() ==> (#[trigger] rs[i]).addr + rs[i].size <= u64::MAX
    &&& forall|i: int| 0 <= i < rs.len() ==> (#[trigger] rs[i]).size > 0
    &&& forall|i: int, j: int|
        0 <= i < rs.len() && 0 <= j < rs.len() && i != j ==> (#[trigger] rs[i]).disjoint(
            #[trigger] rs[j],
        ) && rs[i].name@ != rs[j].name@
}

/// Whether `r` may join the registry `rs`.
pub open spec fn fits(rs: Seq<MemMap>, r: MemMap) -> bool {
    &&& r.size > 0
    &&& r.addr + r.size <= u64::MAX
    &&& forall|i: int| 0 <= i < rs.len() ==> (#[trigger] rs[i]).disjoint(r)
}

/// Whether `[addr, addr + size)` is a non-empty range that fits the address
/// space and meets no region of `rs`.
pub open spec fn range_free(rs: Seq<MemMap>, addr: u64, size: u64) -> bool {
    &&& size > 0
    &&& addr + size <= u64::MAX
    &&& forall|i: int| 0 <= i < rs.len() ==> (#[trigger] rs[i]).addr + rs[i].size <= addr || addr + size <= rs[i].addr
}

/// Whether a region named `name` over `[addr, addr + size)` may join `rs`.
pub open spec fn slot_free(rs: Seq<MemMap>, name: Seq<char>, addr: u64, size: u64) -> bool {
    !has_name(rs, name) && range_free(rs, addr, size)
}

/// Whether the stack, scratch-data and code-injection regions may join `rs`.
pub open spec fn init_free(rs: Seq<MemMap>) -> bool {
    &&& slot_free(rs, "[stack]"@, STACK_ADDR, STACK_SIZE)
    &&& slot_free(rs, "[emu]"@, EMUDATA_ADDR, EMUDATA_SIZE)
    &&& slot_free(rs, "[shellcode]"@, SHELLCODE_ADDR, SHELLCODE_SIZE)
}

/// A slot stays free after a region with another name and a range apart
/// from it joins the registry.
pub proof fn lemma_slot_stays_free(rs: Seq<MemMap>, m: MemMap, name: Seq<char>, addr: u64, size: u64)
    requires
        slot_free(rs, name, addr, size),
        m.name@ != name,
        m.addr + m.size <= addr || addr + size <= m.addr,
    ensures
        slot_free(rs.push(m), name, addr, size),
{
    let r2 = rs.push(m);
    assert forall|i: int| 0 <= i < r2.len() implies (#[trigger] r2[i]).name@ != name by {
        if i < rs.len() {
            assert(r2[i] == rs[i]);
        }
    }
    assert forall|i: int| 0 <= i < r2.len() implies (#[trigger] r2[i]).addr + r2[i].size <= addr || addr + size
        <= r2[i].addr by {
        if i < rs.len() {
            assert(r2[i] == rs[i]);
        }
    }
}

/// Whether some region of `rs` is named `name`.
pub open spec fn has_name(rs: Seq<MemMap>, name: Seq<char>) -> bool {
    exists|i: int| 0 <= i < rs.len() && (#[trigger] rs[i]).name@ == name
}

/// The name a region is registered under.
pub open spec fn effective_name(r: MemMap) -> Seq<char> {
    if r.name@.len() == 0 {
        anon_name_of(r.addr)
    } else {
        r.name@
    }
}

impl VmState {
    /// The registered regions, in registration order.
    pub closed spec fn regions_view(self) -> Seq<MemMap> {
        self.regions@
    }

    /// The stack region, once registered.
    pub closed spec fn stack_view(self) -> Option<MemMap> {
        self.stack_info
    }

    /// The scratch-data region, once registered.
    pub closed spec fn emudata_view(self) -> Option<MemMap> {
        self.emudata_info
    }

    /// The code-injection region, once registered.
    pub closed spec fn shellcode_view(self) -> Option<MemMap> {
        self.shellcode_info
    }

    /// The baseline, once captured: each tracked region with its bytes.
    pub closed spec fn snapshot_view(self) -> Option<Seq<(MemMap, Seq<u8>)>> {
        match self.snapshot {
            Some(s) => Some(Seq::new(s.maps@.len(), |i: int| (s.maps@[i], s.data@[i]@))),
            None => None,
        }
    }

    /// Well-formedness: regions disjoint with distinct names, the special
    /// regions registered, and the snapshot a byte-exact image of a prefix of
    /// the registry.
    pub closed spec fn wf(self) -> bool {
        &&& regions_wf(self.regions@)
        &&& (self.stack_info matches Some(m) ==> self.regions@.contains(m))
        &&& (self.emudata_info matches Some(m) ==> self.regions@.contains(m))
        &&& (self.shellcode_info matches Some(m) ==> self.regions@.contains(m))
        &&& (self.snapshot matches Some(s) ==> {
            &&& s.maps@.len() == s.data@.len()
            &&& s.maps@.len() <= self.regions@.len()
            &&& forall|i: int| 0 <= i < s.maps@.len() ==> #[trigger] s.maps@[i] == self.regions@[i]
            &&& forall|i: int| 0 <= i < s.maps@.len() ==> (#[trigger] s.data@[i])@.len() == s.maps@[i].size
        })
    }

    /// An empty address space.
    pub fn new() -> (r: VmState)
        ensures
            r.wf(),
            r.regions_view() == Seq::<MemMap>::empty(),
            (r.stack_view() is None),
            (r.emudata_view() is None),
            (r.shellcode_view() is None),
            (r.snapshot_view() is None),
    {
        VmState {
            regions: Vec::new(),
            stack_info: None,
            emudata_info: None,
            shellcode_info: None,
            snapshot: None,
        }
    }

    /// The registered regions.
    pub fn regions(&self) -> (r: &Vec<MemMap>)
        ensures
            r@ == self.regions_view(),
    {
        &self.regions
    }

    /// Registers a region and returns the action that maps it. A region
    /// without a name is named after its address. Fails when the name is
    /// taken, or when the region is empty, wraps, or overlaps another.
    pub fn mem_map(&mut self, mem_map: MemMap) -> (r: Result<EmuAction, Error>)
        requires
            old(self).wf(),
        ensures
            final(self).wf(),
            final(self).stack_view() == old(self).stack_view(),
            final(self).emudata_view() == old(self).emudata_view(),
            final(self).shellcode_view() == old(self).shellcode_view(),
            final(self).snapshot_view() == old(self).snapshot_view(),
            has_name(old(self).regions_view(), effective_name(mem_map)) ==> r == Err::<EmuAction, Error>(Error::MapAlreadyExists),
            !has_name(old(self).regions_view(), effective_name(mem_map)) && !fits(old(self).regions_view(), mem_map)
                ==> r == Err::<EmuAction, Error>(Error::MapOverlaps),
            r is Err ==> final(self).regions_view() == old(self).regions_view(),
            r matches Ok(a) ==> a == (EmuAction::MapRegion { addr: mem_map.addr, size: mem_map.size, perms: mem_map.flags }),
            !has_name(old(self).regions_view(), effective_name(mem_map)) && fits(old(self).regions_view(), mem_map) ==> {
                &&& r == Ok::<EmuAction, Error>(EmuAction::MapRegion { addr: mem_map.addr, size: mem_map.size, perms: mem_map.flags })
                &&& final(self).regions_view() == old(self).regions_view().push(MemMap {
                    addr: mem_map.addr,
                    size: mem_map.size,
                    name: final(self).regions_view().last().name,
                    flags: mem_map.flags,
                })
                &&& final(self).regions_view().last().name@ == effective_name(mem_map)
            },
    {
        let mut m = mem_map;
        if m.name.as_str().is_empty() {
            m.name = anon_name(m.addr);
        }
        let mut i: usize = 0;
        while i < self.regions.len()
            invariant
                i <= self.regions@.len(),
                self.wf(),
                *self == *old(self),
                m.name@ == effective_name(mem_map),
                m.addr == mem_map.addr,
                m.size == mem_map.size,
                m.flags == mem_map.flags,
                forall|k: int| 0 <= k < i ==> (#[trigger] self.regions@[k]).name@ != m.name@,
            decreases self.regions@.len() - i,
        {
            if self.regions[i].name == m.name {
                return Err(Error::MapAlreadyExists);
            }
            i = i + 1;
        }
        if m.size == 0 || m.addr > u64::MAX - m.size {
            return Err(Error::MapOverlaps);
        }
        let mut j: usize = 0;
        while j < self.regions.len()
            invariant
                j <= self.regions@.len(),
                self.wf(),
                *self == *old(self),
                m.name@ == effective_name(mem_map),
                m.addr == mem_map.addr,
                m.size == mem_map.size,
                m.flags == mem_map.flags,
                forall|k: int| 0 <= k < self.regions@.len() ==> (#[trigger] self.regions@[k]).name@ != m.name@,
                regions_wf(self.regions@),
                m.addr + m.size <= u64::MAX,
                forall|k: int| 0 <= k < j ==> (#[trigger] self.regions@[k]).disjoint(m),
            decreases self.regions@.len() - j,
        {
            let o = &self.regions[j];
            if !(o.addr + o.size <= m.addr || m.addr + m.size <= o.addr) {
                assert(!self.regions@[j as int].disjoint(mem_map));
                assert(!fits(self.regions@, mem_map));
                return Err(Error::MapOverlaps);
            }
            j = j + 1;
        }
        let action = EmuAction::MapRegion { addr: m.addr, size: m.size, perms: m.flags };
        proof {
            let rs = self.regions@;
            assert(!has_name(rs, effective_name(mem_map)));
            assert(fits(rs, m));
        }
        let ghost before = self.regions@;
        self.regions.push(m);
        proof {
            let rs = self.regions@;
            assert forall|a: int, b: int|
                0 <= a < rs.len() && 0 <= b < rs.len() && a != b implies (#[trigger] rs[a]).disjoint(
                    #[trigger] rs[b],
                ) && rs[a].name@ != rs[b].name@ by {
                if a == before.len() {
                    assert(rs[b] == before[b]);
                } else if b == before.len() {
                    assert(rs[a] == before[a]);
                } else {
                    assert(rs[a] == before[a] && rs[b] == before[b]);
                }
            }
            if self.stack_info is Some {
                let sm = self.stack_info->Some_0;
                let k = choose|k: int| 0 <= k < before.len() && before[k] == sm;
                assert(rs[k] == sm);
            }
            if self.emudata_info is Some {
                let sm = self.emudata_info->Some_0;
                let k = choose|k: int| 0 <= k < before.len() && before[k] == sm;
                assert(rs[k] == sm);
            }
            if self.shellcode_info is Some {
                let sm = self.shellcode_info->Some_0;
                let k = choose|k: int| 0 <= k < before.len() && before[k] == sm;
                assert(rs[k] == sm);
            }
            if self.snapshot is Some {
                let s = self.snapshot->Some_0;
                assert forall|k: int| 0 <= k < s.maps@.len() implies #[trigger] s.maps@[k] == rs[k] by {
                    assert(rs[k] == before[k]);
                }
            }
        }
        Ok(action)
    }
}


/// Whether a plan writes every captured region of `snap` back, in capture
/// order, and does nothing else.
pub open spec fn is_restore_plan(plan: Seq<EmuAction>, snap: Seq<(MemMap, Seq<u8>)>) -> bool {
    &&& plan.len() == snap.len()
    &&& forall|j: int| 0 <= j < snap.len() ==> {
        &&& (#[trigger] plan[j]) is Write
        &&& plan[j]->Write_addr == snap[j].0.addr
        &&& plan[j]->Write_bytes@ == snap[j].1
    }
}

/// Whether a plan restores the baseline of `snap` and resets the stack
/// pointer to `sp`: set the stack pointer, zero the stack and scratch-data
/// regions, then write every captured region back, in capture order.
pub open spec fn is_reset_plan(
    plan: Seq<EmuAction>,
    sp: u64,
    stack: MemMap,
    emudata: MemMap,
    snap: Seq<(MemMap, Seq<u8>)>,
) -> bool {
    &&& plan.len() == 3 + snap.len()
    &&& plan[0] == EmuAction::SetReg { reg: Reg::Rsp, value: sp }
    &&& plan[1] is Write && plan[1]->Write_addr == stack.addr
        && plan[1]->Write_bytes@ == Seq::new(stack.size as nat, |i: int| 0u8)
    &&& plan[2] is Write && plan[2]->Write_addr == emudata.addr
        && plan[2]->Write_bytes@ == Seq::new(emudata.size as nat, |i: int| 0u8)
    &&& forall|j: int| 0 <= j < snap.len() ==> {
        &&& (#[trigger] plan[3 + j]) is Write
        &&& plan[3 + j]->Write_addr == snap[j].0.addr
        &&& plan[3 + j]->Write_bytes@ == snap[j].1
    }
}

/// Appends to `plan` the actions that push `value` on a stack whose pointer
/// is `sp`, and returns the new stack pointer.
pub fn stack_push(plan: &mut Vec<EmuAction>, sp: u64, value: u64) -> (r: u64)
    requires
        sp >= 8,
    ensures
        r == sp - 8,
        final(plan)@.len() == old(plan)@.len() + 2,
        final(plan)@.subrange(0, old(plan)@.len() as int) == old(plan)@,
        final(plan)@[old(plan)@.len() as int] == (EmuAction::SetReg { reg: Reg::Rsp, value: r }),
        (final(plan)@[old(plan)@.len() + 1int] is Write),
        final(plan)@[old(plan)@.len() + 1int]->Write_addr == r,
        final(plan)@[old(plan)@.len() + 1int]->Write_bytes@ == spec_u64_to_le_bytes(value),
{
    let new_sp = sp - 8;
    plan.push(EmuAction::SetReg { reg: Reg::Rsp, value: new_sp });
    plan.push(EmuAction::Write { addr: new_sp, bytes: native_pack(value) });
    assert(plan@.subrange(0, old(plan)@.len() as int) =~= old(plan)@);
    new_sp
}

impl VmState {
    /// Top of the stack region, the stack pointer at the start of a probe.
    pub open spec fn spec_base_sp(self) -> Option<u64> {
        match self.stack_view() {
            Some(s) => Some((s.addr + s.size) as u64),
            None => None,
        }
    }

    /// Top of the stack region, once registered.
    pub fn base_sp(&self) -> (r: Option<u64>)
        requires
            self.wf(),
        ensures
            r == self.spec_base_sp(),
            r matches Some(sp) ==> sp == self.stack_view()->Some_0.addr + self.stack_view()->Some_0.size,
    {
        match &self.stack_info {
            Some(s) => {
                proof {
                    let k = choose|k: int| 0 <= k < self.regions@.len() && self.regions@[k] == *s;
                    assert(self.regions@[k].addr + self.regions@[k].size <= u64::MAX);
                }
                Some(s.addr + s.size)
            },
            None => None,
        }
    }

    /// The stack region, once registered.
    pub fn stack_region(&self) -> (r: Option<&MemMap>)
        ensures
            r matches Some(m) ==> self.stack_view() == Some(*m),
            (r is None ==> self.stack_view() is None),
    {
        self.stack_info.as_ref()
    }

    /// Registers the stack, scratch-data and code-injection regions, and
    /// returns the actions that map them and point the stack pointer at the
    /// top of the stack. Succeeds when their names and ranges are free.
    pub fn init(&mut self) -> (r: Result<Vec<EmuAction>, Error>)
        requires
            old(self).wf(),
            (old(self).snapshot_view() is None),
        ensures
            final(self).wf(),
            (final(self).snapshot_view() is None),
            (init_free(old(self).regions_view()) ==> r is Ok),
            r is Ok ==> final(self).stack_view()->Some_0.name@ == "[stack]"@ && final(self).emudata_view()->Some_0.name@
                == "[emu]"@ && final(self).shellcode_view()->Some_0.name@ == "[shellcode]"@,
            r is Ok ==> final(self).regions_view() == old(self).regions_view() + seq![
                final(self).stack_view()->Some_0,
                final(self).emudata_view()->Some_0,
                final(self).shellcode_view()->Some_0,
            ],
            r matches Ok(plan) ==> {
                &&& final(self).stack_view() matches Some(m) && m.addr == STACK_ADDR && m.size == STACK_SIZE
                    && m.flags == (PROT_READ | PROT_WRITE)
                &&& final(self).emudata_view() matches Some(m) && m.addr == EMUDATA_ADDR && m.size
                    == EMUDATA_SIZE && m.flags == (PROT_READ | PROT_WRITE)
                &&& final(self).shellcode_view() matches Some(m) && m.addr == SHELLCODE_ADDR && m.size
                    == SHELLCODE_SIZE && m.flags == (PROT_READ | PROT_WRITE | PROT_EXEC)
                &&& plan@ == seq![
                    EmuAction::MapRegion { addr: STACK_ADDR, size: STACK_SIZE, perms: PROT_READ | PROT_WRITE },
                    EmuAction::SetReg { reg: Reg::Rsp, value: (STACK_ADDR + STACK_SIZE) as u64 },
                    EmuAction::MapRegion { addr: EMUDATA_ADDR, size: EMUDATA_SIZE, perms: PROT_READ | PROT_WRITE },
                    EmuAction::MapRegion {
                        addr: SHELLCODE_ADDR,
                        size: SHELLCODE_SIZE,
                        perms: PROT_READ | PROT_WRITE | PROT_EXEC,
                    },
                ]
            },
    {
        proof {
            reveal_strlit("[stack]");
            reveal_strlit("[emu]");
            reveal_strlit("[shellcode]");
        }
        let ghost empty = init_free(self.regions@);
        let ghost r0 = self.regions@;
        let mut plan: Vec<EmuAction> = Vec::new();
        let stack = MemMap {
            addr: STACK_ADDR,
            size: STACK_SIZE,
            name: "[stack]".to_owned(),
            flags: PROT_READ | PROT_WRITE,
        };
        let stack_copy = stack.copy();
        proof {
            if empty {
                assert(!has_name(self.regions@, effective_name(stack)));
            }
        }
        let a = self.mem_map(stack)?;
        let ghost r1 = self.regions@;
        self.stack_info = Some(MemMap { name: self.regions[self.regions.len() - 1].name.clone(), ..stack_copy });
        proof {
            assert(self.regions@.last() == self.stack_info->Some_0);
            assert(self.regions@.contains(self.stack_info->Some_0));
        }
        plan.push(a);
        plan.push(EmuAction::SetReg { reg: Reg::Rsp, value: STACK_ADDR + STACK_SIZE });
        let emudata = MemMap {
            addr: EMUDATA_ADDR,
            size: EMUDATA_SIZE,
            name: "[emu]".to_owned(),
            flags: PROT_READ | PROT_WRITE,
        };
        let emudata_copy = emudata.copy();
        proof {
            if empty {
                assert(r1 == r0.push(self.stack_info->Some_0));
                lemma_slot_stays_free(r0, self.stack_info->Some_0, "[emu]"@, EMUDATA_ADDR, EMUDATA_SIZE);
                lemma_slot_stays_free(r0, self.stack_info->Some_0, "[shellcode]"@, SHELLCODE_ADDR, SHELLCODE_SIZE);
                assert(!has_name(r1, effective_name(emudata)));
                assert(fits(r1, emudata));
            }
        }
        let a = self.mem_map(emudata)?;
        let ghost r2 = self.regions@;
        self.emudata_info = Some(MemMap { name: self.regions[self.regions.len() - 1].name.clone(), ..emudata_copy });
        proof {
            assert(self.regions@.last() == self.emudata_info->Some_0);
            assert(self.regions@.contains(self.emudata_info->Some_0));
        }
        plan.push(a);
        let shellcode = MemMap {
            addr: SHELLCODE_ADDR,
            size: SHELLCODE_SIZE,
            name: "[shellcode]".to_owned(),
            flags: PROT_READ | PROT_WRITE | PROT_EXEC,
        };
        let shellcode_copy = shellcode.copy();
        proof {
            if empty {
                assert(r2 == r1.push(self.emudata_info->Some_0));
                lemma_slot_stays_free(r1, self.emudata_info->Some_0, "[shellcode]"@, SHELLCODE_ADDR, SHELLCODE_SIZE);
                assert(!has_name(r2, effective_name(shellcode)));
                assert(fits(r2, shellcode));
            }
        }
        let a = self.mem_map(shellcode)?;
        self.shellcode_info = Some(MemMap { name: self.regions[self.regions.len() - 1].name.clone(), ..shellcode_copy });
        proof {
            assert(self.regions@.last() == self.shellcode_info->Some_0);
            assert(self.regions@.contains(self.shellcode_info->Some_0));
            assert(self.regions@.contains(self.stack_info->Some_0)) by {
                assert(r1.contains(self.stack_info->Some_0));
                let k = choose|k: int| 0 <= k < r1.len() && r1[k] == self.stack_info->Some_0;
                assert(self.regions@[k] == r1[k]);
            }
            assert(self.regions@.contains(self.emudata_info->Some_0)) by {
                let k = choose|k: int| 0 <= k < r2.len() && r2[k] == self.emudata_info->Some_0;
                assert(self.regions@[k] == r2[k]);
            }
            assert(self.regions@ =~= r0 + seq![
                self.stack_info->Some_0,
                self.emudata_info->Some_0,
                self.shellcode_info->Some_0,
            ]);
        }
        plan.push(a);
        Ok(plan)
    }

    /// Captures the baseline: `contents[i]` is the current content of the
    /// `i`-th registered region. Replaces any earlier snapshot. Fails, and
    /// changes nothing, when the contents do not match the regions one for
    /// one in number and length.
    pub fn snapshot(&mut self, contents: Vec<Vec<u8>>) -> (r: Result<(), Error>)
        requires
            old(self).wf(),
        ensures
            final(self).wf(),
            final(self).regions_view() == old(self).regions_view(),
            final(self).stack_view() == old(self).stack_view(),
            final(self).emudata_view() == old(self).emudata_view(),
            final(self).shellcode_view() == old(self).shellcode_view(),
            ({
                let ok = contents@.len() == old(self).regions_view().len() && forall|i: int|
                    0 <= i < contents@.len() ==> (#[trigger] contents@[i])@.len()
                        == old(self).regions_view()[i].size;
                &&& ok ==> r is Ok && final(self).snapshot_view() == Some(
                    Seq::new(contents@.len(), |i: int| (old(self).regions_view()[i], contents@[i]@)),
                )
                &&& !ok ==> r == Err::<(), Error>(Error::SnapshotMismatch) && final(self).snapshot_view()
                    == old(self).snapshot_view()
            }),
    {
        if contents.len() != self.regions.len() {
            return Err(Error::SnapshotMismatch);
        }
        let mut maps: Vec<MemMap> = Vec::new();
        let mut i: usize = 0;
        while i < contents.len()
            invariant
                i <= contents@.len(),
                self.wf(),
                *self == *old(self),
                contents@.len() == self.regions@.len(),
                maps@.len() == i,
                forall|k: int| 0 <= k < i ==> (#[trigger] contents@[k])@.len() == self.regions@[k].size,
                forall|k: int| 0 <= k < i ==> #[trigger] maps@[k] == self.regions@[k],
            decreases contents@.len() - i,
        {
            if contents[i].len() as u64 != self.regions[i].size {
                return Err(Error::SnapshotMismatch);
            }
            maps.push(self.regions[i].copy());
            i = i + 1;
        }
        let snap = Snapshot { maps, data: contents };
        self.snapshot = Some(snap);
        proof {
            let s = self.snapshot->Some_0;
            assert(self.snapshot_view()->Some_0 =~= Seq::new(
                contents@.len(),
                |i: int| (old(self).regions_view()[i], contents@[i]@),
            ));
        }
        Ok(())
    }

    /// Actions that write every captured region back, in capture order.
    /// Fails when no snapshot has been captured.
    pub fn restore_snapshot(&self) -> (r: Result<Vec<EmuAction>, Error>)
        requires
            self.wf(),
        ensures
            self.snapshot_view() is None <==> r == Err::<Vec<EmuAction>, Error>(Error::SnapshotMissing),
            r matches Ok(plan) ==> is_restore_plan(plan@, self.snapshot_view()->Some_0),
    {
        let mut plan: Vec<EmuAction> = Vec::new();
        self.append_restore(&mut plan)?;
        proof {
            let snap = self.snapshot_view()->Some_0;
            assert forall|j: int| 0 <= j < snap.len() implies {
                &&& (#[trigger] plan@[j]) is Write
                &&& plan@[j]->Write_addr == snap[j].0.addr
                &&& plan@[j]->Write_bytes@ == snap[j].1
            } by {
                assert(plan@[j] == plan@[0 + j]);
            }
        }
        Ok(plan)
    }

    fn append_restore(&self, plan: &mut Vec<EmuAction>) -> (r: Result<(), Error>)
        requires
            self.wf(),
        ensures
            self.snapshot_view() is None <==> r == Err::<(), Error>(Error::SnapshotMissing),
            (self.snapshot_view() is Some ==> r is Ok),
            r is Err ==> final(plan)@ == old(plan)@,
            r is Ok ==> {
                let snap = self.snapshot_view()->Some_0;
                let n = old(plan)@.len();
                &&& final(plan)@.len() == n + snap.len()
                &&& final(plan)@.subrange(0, n as int) == old(plan)@
                &&& forall|j: int| 0 <= j < snap.len() ==> {
                    &&& (#[trigger] final(plan)@[n + j]) is Write
                    &&& final(plan)@[n + j]->Write_addr == snap[j].0.addr
                    &&& final(plan)@[n + j]->Write_bytes@ == snap[j].1
                }
            },
    {
        let snap = match &self.snapshot {
            Some(s) => s,
            None => return Err(Error::SnapshotMissing),
        };
        let ghost n = plan@.len();
        let mut j: usize = 0;
        while j < snap.maps.len()
            invariant
                self.wf(),
                self.snapshot == Some(*snap),
                j <= snap.maps@.len(),
                plan@.len() == n + j,
                plan@.subrange(0, n as int) == old(plan)@,
                forall|k: int| 0 <= k < j ==> {
                    &&& (#[trigger] plan@[n + k]) is Write
                    &&& plan@[n + k]->Write_addr == snap.maps@[k].addr
                    &&& plan@[n + k]->Write_bytes@ == snap.data@[k]@
                },
            decreases snap.maps@.len() - j,
        {
            let bytes = slice_to_vec(snap.data[j].as_slice());
            let ghost before = plan@;
            plan.push(EmuAction::Write { addr: snap.maps[j].addr, bytes });
            proof {
                assert(plan@.subrange(0, n as int) =~= before.subrange(0, n as int));
                assert forall|k: int| 0 <= k < j + 1 implies {
                    &&& (#[trigger] plan@[n + k]) is Write
                    &&& plan@[n + k]->Write_addr == snap.maps@[k].addr
                    &&& plan@[n + k]->Write_bytes@ == snap.data@[k]@
                } by {
                    if k < j {
                        assert(plan@[n + k] == before[n + k]);
                    }
                }
            }
            j = j + 1;
        }
        Ok(())
    }

    /// Actions that point the stack pointer at the top of the stack and
    /// zero-fill the stack region. Fails when the stack is missing.
    pub fn reset_stack(&self) -> (r: Result<Vec<EmuAction>, Error>)
        requires
            self.wf(),
        ensures
            self.stack_view() is None ==> r == Err::<Vec<EmuAction>, Error>(Error::StackUninitialized),
            self.stack_view() matches Some(m) ==> (r matches Ok(plan) && plan@.len() == 2
                && plan@[0] == (EmuAction::SetReg { reg: Reg::Rsp, value: self.spec_base_sp()->Some_0 })
                && plan@[1] is Write && plan@[1]->Write_addr == m.addr
                && plan@[1]->Write_bytes@ == Seq::new(m.size as nat, |i: int| 0u8)),
    {
        let sp = match self.base_sp() {
            Some(sp) => sp,
            None => return Err(Error::StackUninitialized),
        };
        let stack = match &self.stack_info {
            Some(s) => s,
            None => return Err(Error::StackUninitialized),
        };
        let mut plan: Vec<EmuAction> = Vec::new();
        plan.push(EmuAction::SetReg { reg: Reg::Rsp, value: sp });
        plan.push(EmuAction::Write { addr: stack.addr, bytes: zeros(stack.size) });
        Ok(plan)
    }

    /// The action that zero-fills the scratch-data region. Fails when that
    /// region is missing.
    pub fn reset_emudata(&self) -> (r: Result<EmuAction, Error>)
        requires
            self.wf(),
        ensures
            self.emudata_view() is None ==> r == Err::<EmuAction, Error>(Error::EmuDataUninitialized),
            self.emudata_view() matches Some(m) ==> (r matches Ok(a) && a is Write && a->Write_addr == m.addr
                && a->Write_bytes@ == Seq::new(m.size as nat, |i: int| 0u8)),
    {
        match &self.emudata_info {
            Some(e) => Ok(EmuAction::Write { addr: e.addr, bytes: zeros(e.size) }),
            None => Err(Error::EmuDataUninitialized),
        }
    }

    /// Actions that bring every tracked region back to the baseline: the
    /// stack pointer goes to the top of the stack, the stack and
    /// scratch-data regions are zero-filled, then the snapshot is written
    /// back. Fails when the stack or scratch-data region is missing or no
    /// snapshot has been captured.
    pub fn reset_probe_state(&self) -> (r: Result<Vec<EmuAction>, Error>)
        requires
            self.wf(),
        ensures
            self.stack_view() is None ==> r == Err::<Vec<EmuAction>, Error>(Error::StackUninitialized),
            self.stack_view() is Some && self.emudata_view() is None
                ==> r == Err::<Vec<EmuAction>, Error>(Error::EmuDataUninitialized),
            self.stack_view() is Some && self.emudata_view() is Some && self.snapshot_view() is None
                ==> r == Err::<Vec<EmuAction>, Error>(Error::SnapshotMissing),
            self.stack_view() is Some && self.emudata_view() is Some && self.snapshot_view() is Some
                ==> (r matches Ok(plan) && is_reset_plan(
                plan@,
                self.spec_base_sp()->Some_0,
                self.stack_view()->Some_0,
                self.emudata_view()->Some_0,
                self.snapshot_view()->Some_0,
            )),
    {
        let mut plan = self.reset_stack()?;
        let zero_emudata = self.reset_emudata()?;
        if self.snapshot.is_none() {
            return Err(Error::SnapshotMissing);
        }
        plan.push(zero_emudata);
        let ghost p3 = plan@;
        let _ = self.append_restore(&mut plan);
        proof {
            assert(p3.len() == 3);
            assert(plan@[0] == p3[0]);
            assert(plan@[1] == p3[1]);
            assert(plan@[2] == p3[2]);
            let snap = self.snapshot_view()->Some_0;
            assert forall|j: int| 0 <= j < snap.len() implies {
                &&& (#[trigger] plan@[3 + j]) is Write
                &&& plan@[3 + j]->Write_addr == snap[j].0.addr
                &&& plan@[3 + j]->Write_bytes@ == snap[j].1
            } by {
                assert(plan@[3 + j] == plan@[p3.len() + j]);
            }
        }
        Ok(plan)
    }

    /// A writer that lays data out from the start of the scratch-data
    /// region. Fails when that region is missing.
    pub fn emudata_writer(&self) -> (r: Result<DataWriter, Error>)
        requires
            self.wf(),
        ensures
            self.emudata_view() is None <==> r == Err::<DataWriter, Error>(Error::EmuDataUninitialized),
            (self.emudata_view() is Some ==> r is Ok),
            r matches Ok(w) ==> w.wf() && w.base() == self.emudata_view()->Some_0.addr && w.limit()
                == self.emudata_view()->Some_0.addr + self.emudata_view()->Some_0.size && w.written()
                == Seq::<u8>::empty(),
    {
        match &self.emudata_info {
            Some(e) => {
                proof {
                    let k = choose|k: int| 0 <= k < self.regions@.len() && self.regions@[k] == *e;
                    assert(self.regions@[k].addr + self.regions@[k].size <= u64::MAX);
                }
                Ok(DataWriter::new(e.addr, e.addr + e.size))
            },
            None => Err(Error::EmuDataUninitialized),
        }
    }
}

/// Isolation: after the reset plan, every byte of every tracked region holds
/// its captured value, whatever the memory held before, and the stack
/// pointer is at the top of the stack.
pub proof fn lemma_reset_isolation(
    vm: VmState,
    plan: Seq<EmuAction>,
    mem: spec_fn(int) -> u8,
    regs: spec_fn(Reg) -> u64,
    j: int,
    i: int,
)
    requires
        vm.wf(),
        (vm.stack_view() is Some),
        (vm.emudata_view() is Some),
        (vm.snapshot_view() is Some),
        is_reset_plan(
            plan,
            vm.spec_base_sp()->Some_0,
            vm.stack_view()->Some_0,
            vm.emudata_view()->Some_0,
            vm.snapshot_view()->Some_0,
        ),
        0 <= j < vm.snapshot_view()->Some_0.len(),
        0 <= i < vm.snapshot_view()->Some_0[j].0.size,
    ensures
        mem_after(mem, plan)(vm.snapshot_view()->Some_0[j].0.addr + i) == vm.snapshot_view()->Some_0[j].1[i],
        regs_after(regs, plan)(Reg::Rsp) == vm.spec_base_sp()->Some_0,
{
    let snap = vm.snapshot_view()->Some_0;
    let s = vm.snapshot->Some_0;
    let x = snap[j].0.addr + i;
    assert(snap[j].0 == vm.regions@[j]);
    assert forall|k: int| 3 + j < k < plan.len() implies !writes_at(#[trigger] plan[k], x) by {
        let jj = k - 3;
        assert(plan[3 + jj] == plan[k]);
        assert(snap[jj].0 == vm.regions@[jj]);
        assert(vm.regions@[jj].disjoint(vm.regions@[j]));
    }
    lemma_mem_last_writer(mem, plan, 3 + j, x);
    assert forall|k: int| 0 < k < plan.len() implies !(#[trigger] plan[k] is SetReg && plan[k]->SetReg_reg
        == Reg::Rsp) by {
        if k >= 3 {
            assert(plan[3 + (k - 3)] == plan[k]);
        }
    }
    lemma_regs_untouched_suffix(regs, plan, 0, Reg::Rsp);
    let p1 = plan.subrange(0, 1);
    assert(p1.drop_last() =~= Seq::<EmuAction>::empty());
}

/// What a well-formed address space guarantees of its snapshot: each
/// captured content is as long as its region, and the captured regions are
/// pairwise disjoint.
pub proof fn lemma_snapshot_regions(vm: VmState)
    requires
        vm.wf(),
        vm.snapshot_view() is Some,
    ensures
        forall|j: int|
            0 <= j < vm.snapshot_view()->Some_0.len() ==> (#[trigger] vm.snapshot_view()->Some_0[j]).1.len()
                == vm.snapshot_view()->Some_0[j].0.size,
        forall|i: int, j: int|
            0 <= i < vm.snapshot_view()->Some_0.len() && 0 <= j < vm.snapshot_view()->Some_0.len() && i != j
                ==> (#[trigger] vm.snapshot_view()->Some_0[i]).0.disjoint(#[trigger] vm.snapshot_view()->Some_0[j].0),
{
    let snap = vm.snapshot_view()->Some_0;
    assert forall|i: int, j: int| 0 <= i < snap.len() && 0 <= j < snap.len() && i != j implies (
    #[trigger] snap[i]).0.disjoint(#[trigger] snap[j].0) by {
        assert(snap[i].0 == vm.regions@[i] && snap[j].0 == vm.regions@[j]);
    }
}

/// Isolation after a restore: every byte of every captured region holds its
/// captured value, every other byte and every register is unchanged.
pub proof fn lemma_restore_isolation(vm: VmState, plan: Seq<EmuAction>, mem: spec_fn(int) -> u8, regs: spec_fn(Reg) -> u64, x: int)
    requires
        vm.wf(),
        vm.snapshot_view() is Some,
        is_restore_plan(plan, vm.snapshot_view()->Some_0),
    ensures
        forall|j: int|
            0 <= j < vm.snapshot_view()->Some_0.len() && (#[trigger] vm.snapshot_view()->Some_0[j]).0.contains(x)
                ==> mem_after(mem, plan)(x) == vm.snapshot_view()->Some_0[j].1[x - vm.snapshot_view()->Some_0[j].0.addr],
        (forall|j: int| 0 <= j < vm.snapshot_view()->Some_0.len() ==> !(#[trigger] vm.snapshot_view()->Some_0[j]).0.contains(x))
            ==> mem_after(mem, plan)(x) == mem(x),
        forall|r: Reg| #[trigger] regs_after(regs, plan)(r) == regs(r),
    decreases plan.len(),
{
    let snap = vm.snapshot_view()->Some_0;
    lemma_snapshot_regions(vm);
    assert forall|j: int| 0 <= j < snap.len() && (#[trigger] snap[j]).0.contains(x) implies mem_after(mem, plan)(x)
        == snap[j].1[x - snap[j].0.addr] by {
        assert forall|k: int| j < k < plan.len() implies !writes_at(#[trigger] plan[k], x) by {
            assert(snap[k].0.disjoint(snap[j].0));
        }
        lemma_mem_last_writer(mem, plan, j, x);
    }
    if forall|j: int| 0 <= j < snap.len() ==> !(#[trigger] snap[j]).0.contains(x) {
        lemma_mem_untouched_all(mem, plan, x);
    }
    assert forall|r: Reg| #[trigger] regs_after(regs, plan)(r) == regs(r) by {
        lemma_regs_untouched_all(regs, plan, r);
    }
}

/// Bump writer over the scratch-data region: data is laid out back to back
/// from `base`, never past `limit`.
pub struct DataWriter {
    base: u64,
    limit: u64,
    data: Vec<u8>,
}

impl DataWriter {
    /// First address of the area.
    pub closed spec fn base(self) -> u64 {
        self.base
    }

    /// First address past the area.
    pub closed spec fn limit(self) -> u64 {
        self.limit
    }

    /// The bytes laid out so far, from `base` on.
    pub closed spec fn written(self) -> Seq<u8> {
        self.data@
    }

    /// The address the next write goes to.
    pub open spec fn ptr(self) -> int {
        self.base() + self.written().len()
    }

    /// The cursor stays within the area.
    pub open spec fn wf(self) -> bool {
        self.base() <= self.ptr() <= self.limit()
    }

    /// A writer over `[base, limit)` that has written nothing.
    pub fn new(base: u64, limit: u64) -> (r: DataWriter)
        requires
            base <= limit,
        ensures
            r.wf(),
            r.base() == base,
            r.limit() == limit,
            r.written() == Seq::<u8>::empty(),
    {
        DataWriter { base, limit, data: Vec::new() }
    }

    /// The address the next write goes to.
    pub fn current_ptr(&self) -> (r: u64)
        requires
            self.wf(),
        ensures
            r == self.ptr(),
    {
        self.base + self.data.len() as u64
    }

    /// Bytes left before the end of the area.
    pub fn room(&self) -> (r: u64)
        requires
            self.wf(),
        ensures
            r == self.limit() - self.ptr(),
    {
        self.limit - self.current_ptr()
    }

    /// Lays `data` out at the cursor and returns the address it went to.
    /// Fails, writing nothing, when it would pass the end of the area.
    pub fn write_data(&mut self, data: &[u8]) -> (r: Result<u64, Error>)
        requires
            old(self).wf(),
        ensures
            final(self).wf(),
            final(self).base() == old(self).base(),
            final(self).limit() == old(self).limit(),
            old(self).ptr() + data@.len() <= old(self).limit() ==> r == Ok::<u64, Error>(old(self).ptr() as u64)
                && final(self).written() == old(self).written() + data@,
            old(self).ptr() + data@.len() > old(self).limit() ==> r == Err::<u64, Error>(Error::OutOfRegion)
                && final(self).written() == old(self).written(),
    {
        let ptr = self.current_ptr();
        if data.len() as u64 > self.limit - ptr {
            return Err(Error::OutOfRegion);
        }
        let mut tail = slice_to_vec(data);
        self.data.append(&mut tail);
        Ok(ptr)
    }

    /// Lays out the bytes of `data` followed by a NUL terminator and returns
    /// the address of the first byte.
    pub fn write_str(&mut self, data: &str) -> (r: Result<u64, Error>)
        requires
            old(self).wf(),
        ensures
            final(self).wf(),
            final(self).base() == old(self).base(),
            final(self).limit() == old(self).limit(),
            old(self).ptr() + data.spec_bytes().len() + 1 <= old(self).limit() ==> r == Ok::<u64, Error>(
                old(self).ptr() as u64,
            ) && final(self).written() == old(self).written() + data.spec_bytes().push(0u8),
            old(self).ptr() + data.spec_bytes().len() + 1 > old(self).limit() ==> r == Err::<u64, Error>(
                Error::OutOfRegion,
            ) && final(self).written() == old(self).written(),
    {
        let mut buf = slice_to_vec(data.as_bytes());
        buf.push(0u8);
        self.write_data(buf.as_slice())
    }

    /// Lays out `value` as a little-endian machine word and returns its
    /// address.
    pub fn write_usize(&mut self, value: u64) -> (r: Result<u64, Error>)
        requires
            old(self).wf(),
        ensures
            final(self).wf(),
            final(self).base() == old(self).base(),
            final(self).limit() == old(self).limit(),
            old(self).ptr() + 8 <= old(self).limit() ==> r == Ok::<u64, Error>(old(self).ptr() as u64)
                && final(self).written() == old(self).written() + spec_u64_to_le_bytes(value),
            old(self).ptr() + 8 > old(self).limit() ==> r == Err::<u64, Error>(Error::OutOfRegion)
                && final(self).written() == old(self).written(),
    {
        let data = native_pack(value);
        self.write_data(data.as_slice())
    }

    /// The action that stores everything laid out so far.
    pub fn into_action(self) -> (r: EmuAction)
        ensures
            (r is Write),
            r->Write_addr == self.base(),
            r->Write_bytes@ == self.written(),
    {
        EmuAction::Write { addr: self.base, bytes: self.data }
    }
}

/// Relies on std's `String::from_utf8`: it succeeds exactly on valid UTF-8
/// and then holds the decoded characters.
#[verifier::external_body]
fn string_from_utf8(bytes: Vec<u8>) -> (r: Option<String>)
    ensures
        r is Some <==> valid_utf8(bytes@),
        r matches Some(s) ==> s@ == decode_utf8(bytes@),
{
    String::from_utf8(bytes).ok()
}

/// Reads the NUL-terminated string at the start of `bytes` (the memory from
/// the string's address on). Fails when no NUL is found or the bytes before
/// it are not UTF-8.
pub fn read_str(bytes: &[u8]) -> (r: Result<String, Error>)
    ensures
        (forall|k: int| 0 <= k < bytes@.len() ==> bytes@[k] != 0) ==> r == Err::<String, Error>(Error::OutOfRegion),
        forall|n: int|
            0 <= n < bytes@.len() && bytes@[n] == 0 && (forall|k: int| 0 <= k < n ==> bytes@[k] != 0) ==> {
                &&& valid_utf8(bytes@.subrange(0, n)) ==> (r matches Ok(s) && s@ == decode_utf8(bytes@.subrange(0, n)))
                &&& !valid_utf8(bytes@.subrange(0, n)) ==> r == Err::<String, Error>(Error::FromUtf8Error)
            },
{
    let mut buf: Vec<u8> = Vec::new();
    let mut i: usize = 0;
    while i < bytes.len()
        invariant
            i <= bytes@.len(),
            buf@ == bytes@.subrange(0, i as int),
            forall|k: int| 0 <= k < i ==> bytes@[k] != 0,
        decreases bytes@.len() - i,
    {
        let b = bytes[i];
        if b == 0 {
            return match string_from_utf8(buf) {
                Some(s) => Ok(s),
                None => Err(Error::FromUtf8Error),
            };
        }
        buf.push(b);
        i = i + 1;
        assert(buf@ =~= bytes@.subrange(0, i as int));
    }
    Err(Error::OutOfRegion)
}

/// Reads the little-endian machine word at the start of `bytes`.
pub fn read_usize(bytes: &[u8]) -> (r: u64)
    requires
        bytes@.len() >= 8,
    ensures
        r == vstd::bytes::spec_u64_from_le_bytes(bytes@.subrange(0, 8)),
{
    crate::codec::native_unpack(bytes)
}

} // verus!
