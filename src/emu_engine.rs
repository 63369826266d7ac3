//! The emulation engine: process-image set-up and the plan of each probe.
use vstd::prelude::*;
use crate::args::{EmuArgs, PushableArgs, args_bytes, args_values};
use crate::calling_convention::{init_args, is_call_plan, stack_need, callee_arg, lemma_callee_sees_args};
use crate::dirt_engine::TargetInfo;
use crate::emu::{Error, CODE_SENTINEL, CODE_SENTINEL_SIZE, PROT_EXEC, PROT_READ, PROT_WRITE, STACK_ADDR, STACK_SIZE,
    EMUDATA_ADDR, EMUDATA_SIZE, SHELLCODE_ADDR, SHELLCODE_SIZE, BRK_ADDR, BRK_SIZE, KERNEL_ADDR, KERNEL_SIZE,
    TLS_ADDR, TLS_SIZE};
use crate::linux::{LinuxEnv, LinuxKernel, init_state};
use crate::machine::{EmuAction, Reg, mem_after, regs_after, word_at, lemma_after_append, clear_registers,
    is_clear_regs_plan, cleared_reg, writes_at, lemma_mem_after_agree, lemma_regs_after_agree};
use crate::datatypes::DataType;
use crate::vmstate::{VmState, MemMap, lemma_snapshot_regions, is_reset_plan, init_free, slot_free, lemma_slot_stays_free};

verus! {

/// What a completed probe left behind for the verifier: the return value
/// and the values passed for the arguments (memory is read through the
/// emulator).
pub struct EmuEffects {
    pub return_value: u64,
    pub args: PushableArgs,
}

/// Everything the host does for one probe: apply `setup`, run from `entry`
/// until the sentinel return address is reached, then collect the effects.
pub struct ProbePlan {
    pub setup: Vec<EmuAction>,
    pub entry: u64,
    pub until: u64,
    pub args: PushableArgs,
}

/// Whether `setup`, with a run from `entry` to `until`, is the probe of
/// `target` with the arguments `vals` on the address space `vm`, passing
/// `passed`: the reset of every tracked region, the clearing of every
/// other register, the write that lays the
/// arguments out in the scratch-data region, then the binding of the passed
/// values with the sentinel as return address.
pub open spec fn is_probe_plan(
    vm: VmState,
    target: TargetInfo,
    vals: Seq<DataType>,
    setup: Seq<EmuAction>,
    entry: u64,
    until: u64,
    passed: Seq<u64>,
) -> bool {
    let snap = vm.snapshot_view()->Some_0;
    let e = vm.emudata_view()->Some_0;
    let sp = vm.spec_base_sp()->Some_0;
    let n = snap.len() + 3int;
    &&& vm.stack_view() is Some && vm.emudata_view() is Some && vm.snapshot_view() is Some
    &&& entry == target.fva
    &&& until == CODE_SENTINEL
    &&& passed == args_values(vals, e.addr as int)
    &&& passed.len() == vals.len()
    &&& n + 12 <= setup.len()
    &&& is_reset_plan(setup.subrange(0, n), sp, vm.stack_view()->Some_0, e, snap)
    &&& is_clear_regs_plan(setup.subrange(n, n + 11))
    &&& setup[n + 11] is Write && setup[n + 11]->Write_addr == e.addr
    &&& setup[n + 11]->Write_bytes@ == args_bytes(vals, e.addr as int)
    &&& is_call_plan(target.cc, passed, CODE_SENTINEL, sp, setup.subrange(n + 12, setup.len() as int))
    &&& stack_need(target.cc, passed.len() as int) <= sp
}

/// The error owed when planning a probe of `target` with the arguments
/// `vals` on `vm`, or `None` when a plan is owed: a missing region or
/// snapshot, arguments that do not fit in the scratch-data region, or a
/// stack too small for the binding.
pub open spec fn call_error(vm: VmState, target: TargetInfo, vals: Seq<DataType>) -> Option<Error> {
    if vm.stack_view() is None {
        Some(Error::StackUninitialized)
    } else if vm.emudata_view() is None {
        Some(Error::EmuDataUninitialized)
    } else if vm.snapshot_view() is None {
        Some(Error::SnapshotMissing)
    } else {
        let e = vm.emudata_view()->Some_0;
        if e.addr + args_bytes(vals, e.addr as int).len() > e.addr + e.size {
            Some(Error::OutOfRegion)
        } else if stack_need(target.cc, vals.len() as int) > vm.stack_view()->Some_0.size {
            Some(Error::OutOfRegion)
        } else {
            None
        }
    }
}

/// Once the setup of a probe has been applied, whatever the emulator held
/// before, the callee finds each argument as the value passed for it under
/// the target's convention, and the sentinel as its return address.
pub proof fn lemma_probe_delivers_arguments(
    vm: VmState,
    target: TargetInfo,
    vals: Seq<DataType>,
    setup: Seq<EmuAction>,
    entry: u64,
    until: u64,
    passed: Seq<u64>,
    mem: spec_fn(int) -> u8,
    regs: spec_fn(Reg) -> u64,
    i: int,
)
    requires
        is_probe_plan(vm, target, vals, setup, entry, until, passed),
        0 <= i < passed.len(),
    ensures
        callee_arg(target.cc, mem_after(mem, setup), regs_after(regs, setup), i) == passed[i],
        word_at(mem_after(mem, setup), regs_after(regs, setup)(Reg::Rsp) as int) == CODE_SENTINEL,
{
    let n = vm.snapshot_view()->Some_0.len() + 3int;
    let pre = setup.subrange(0, n + 12);
    let bind = setup.subrange(n + 12, setup.len() as int);
    assert(setup =~= pre + bind);
    lemma_after_append(mem, regs, pre, bind);
    let sp = vm.spec_base_sp()->Some_0;
    lemma_callee_sees_args(target.cc, passed, CODE_SENTINEL, sp, bind, mem_after(mem, pre), regs_after(regs, pre), i);
}

/// Whether the fixed regions of the engine (stack, scratch data, injected
/// code, heap, environment, thread-local storage) may all join `rs`.
pub open spec fn engine_free(rs: Seq<MemMap>) -> bool {
    &&& init_free(rs)
    &&& slot_free(rs, "[heap]"@, BRK_ADDR, BRK_SIZE)
    &&& slot_free(rs, "[kernel]"@, KERNEL_ADDR, KERNEL_SIZE)
    &&& slot_free(rs, "[tls]"@, TLS_ADDR, TLS_SIZE)
}

/// Whether `m` is the region `name` over `[addr, addr + size)` with `flags`.
pub open spec fn is_fixed_entry(m: MemMap, name: Seq<char>, addr: u64, size: u64, flags: u32) -> bool {
    m.name@ == name && m.addr == addr && m.size == size && m.flags == flags
}

/// Whether `fs` is the registry `rs` followed by the engine's six fixed
/// regions, in registration order.
pub open spec fn is_engine_registry(rs: Seq<MemMap>, fs: Seq<MemMap>) -> bool {
    let n = rs.len() as int;
    &&& fs.len() == n + 6
    &&& fs.subrange(0, n) == rs
    &&& is_fixed_entry(fs[n], "[stack]"@, STACK_ADDR, STACK_SIZE, PROT_READ | PROT_WRITE)
    &&& is_fixed_entry(fs[n + 1], "[emu]"@, EMUDATA_ADDR, EMUDATA_SIZE, PROT_READ | PROT_WRITE)
    &&& is_fixed_entry(fs[n + 2], "[shellcode]"@, SHELLCODE_ADDR, SHELLCODE_SIZE, PROT_READ | PROT_WRITE | PROT_EXEC)
    &&& is_fixed_entry(fs[n + 3], "[heap]"@, BRK_ADDR, BRK_SIZE, PROT_READ | PROT_WRITE)
    &&& is_fixed_entry(fs[n + 4], "[kernel]"@, KERNEL_ADDR, KERNEL_SIZE, PROT_READ | PROT_WRITE)
    &&& is_fixed_entry(fs[n + 5], "[tls]"@, TLS_ADDR, TLS_SIZE, PROT_READ | PROT_WRITE)
}

/// Whether the byte at `x` lies in a region of the snapshot.
pub open spec fn is_tracked(vm: VmState, x: int) -> bool {
    exists|j: int| 0 <= j < vm.snapshot_view()->Some_0.len() && (#[trigger] vm.snapshot_view()->Some_0[j]).0.contains(x)
}

/// Every probe of the same target with the same arguments starts from the
/// same emulator state: whatever earlier probes wrote into the tracked
/// regions or left in the registers, two emulators that agree outside the
/// tracked regions agree everywhere in memory and in every register once
/// the probe's setup has been applied.
pub proof fn lemma_probe_start_determined(
    vm: VmState,
    target: TargetInfo,
    vals: Seq<DataType>,
    setup: Seq<EmuAction>,
    entry: u64,
    until: u64,
    passed: Seq<u64>,
    mem1: spec_fn(int) -> u8,
    mem2: spec_fn(int) -> u8,
    regs1: spec_fn(Reg) -> u64,
    regs2: spec_fn(Reg) -> u64,
)
    requires
        vm.wf(),
        is_probe_plan(vm, target, vals, setup, entry, until, passed),
        forall|x: int| !is_tracked(vm, x) ==> #[trigger] mem1(x) == mem2(x),
    ensures
        forall|x: int| #[trigger] mem_after(mem1, setup)(x) == mem_after(mem2, setup)(x),
        forall|r: Reg| #[trigger] regs_after(regs1, setup)(r) == regs_after(regs2, setup)(r),
{
    let snap = vm.snapshot_view()->Some_0;
    let n = snap.len() + 3int;
    let reset = setup.subrange(0, n);
    let clear = setup.subrange(n, n + 11);
    lemma_snapshot_regions(vm);
    assert forall|x: int| #[trigger] mem_after(mem1, setup)(x) == mem_after(mem2, setup)(x) by {
        if is_tracked(vm, x) {
            let j = choose|j: int| 0 <= j < snap.len() && (#[trigger] snap[j]).0.contains(x);
            assert(reset[3 + j] is Write);
            assert(setup[3 + j] == reset[3 + j]);
            assert(writes_at(setup[3 + j], x));
        }
        lemma_mem_after_agree(mem1, mem2, setup, x);
    }
    assert forall|r: Reg| #[trigger] regs_after(regs1, setup)(r) == regs_after(regs2, setup)(r) by {
        let k: int = match r {
            Reg::Rsp => 0,
            Reg::Rax => n,
            Reg::Rbx => n + 1,
            Reg::Rcx => n + 2,
            Reg::Rdx => n + 3,
            Reg::Rsi => n + 4,
            Reg::Rdi => n + 5,
            Reg::Rbp => n + 6,
            Reg::R8 => n + 7,
            Reg::R9 => n + 8,
            Reg::R10 => n + 9,
            Reg::Rip => n + 10,
        };
        if k == 0 {
            assert(setup[0] == reset[0]);
        } else {
            assert(setup[k] == clear[k - n]);
            assert(clear[k - n] == (EmuAction::SetReg { reg: cleared_reg(k - n), value: 0 }));
        }
        assert(setup[k] is SetReg && setup[k]->SetReg_reg == r);
        lemma_regs_after_agree(regs1, regs2, setup, r);
    }
}

/// The address space, the kernel state and the count of emulated calls.
pub struct EmuEngine {
    pub vmstate: VmState,
    pub kernel: LinuxKernel,
    pub emu_counter: usize,
}

impl EmuEngine {
    /// Number of probes planned so far.
    pub closed spec fn counter(self) -> nat {
        self.emu_counter as nat
    }

    /// Prepares the process image over `vmstate` (which holds the loaded
    /// program): maps the sentinel page, registers the engine's regions and
    /// the heap, and builds the environment, ending with a run from
    /// `start_fva` to `main_fva`. The host applies the returned actions and
    /// then captures the baseline with `snapshot`. Succeeds whenever the
    /// names and ranges of the six fixed regions are free.
    pub fn new(vmstate: VmState, start_fva: u64, main_fva: u64) -> (r: Result<(EmuEngine, Vec<EmuAction>), Error>)
        requires
            vmstate.wf(),
            vmstate.snapshot_view() is None,
        ensures
            engine_free(vmstate.regions_view()) ==> r is Ok,
            r matches Ok((e, plan)) ==> is_engine_registry(vmstate.regions_view(), e.vmstate.regions_view()),
            r matches Ok((e, plan)) ==> {
                &&& e.vmstate.wf()
                &&& e.vmstate.stack_view() is Some
                &&& e.vmstate.emudata_view() is Some
                &&& e.vmstate.snapshot_view() is None
                &&& e.counter() == 0
                &&& plan@.len() > 0
                &&& plan@[0] == (EmuAction::MapRegion { addr: CODE_SENTINEL, size: CODE_SENTINEL_SIZE, perms: PROT_EXEC })
                &&& plan@.last() == (EmuAction::Run { start: start_fva, until: main_fva })
            },
    {
        let mut vmstate = vmstate;
        let mut plan: Vec<EmuAction> = Vec::new();
        plan.push(EmuAction::MapRegion { addr: CODE_SENTINEL, size: CODE_SENTINEL_SIZE, perms: PROT_EXEC });
        let ghost first = plan@[0];
        let ghost rs0 = vmstate.regions_view();
        let ghost free = engine_free(rs0);
        proof {
            reveal_strlit("[stack]");
            reveal_strlit("[emu]");
            reveal_strlit("[shellcode]");
            reveal_strlit("[heap]");
            reveal_strlit("[kernel]");
            reveal_strlit("[tls]");
        }
        let mut regions = vmstate.init()?;
        plan.append(&mut regions);
        let ghost st = vmstate.stack_view()->Some_0;
        let ghost em = vmstate.emudata_view()->Some_0;
        let ghost sh = vmstate.shellcode_view()->Some_0;
        proof {
            if free {
                assert("[heap]"@.len() == 6 && "[kernel]"@.len() == 8 && "[tls]"@.len() == 5);
                assert(st.name@.len() == 7 && em.name@.len() == 5 && sh.name@.len() == 11);
                assert(em.name@[1] != "[tls]"@[1]);
                lemma_slot_stays_free(rs0, st, "[heap]"@, BRK_ADDR, BRK_SIZE);
                lemma_slot_stays_free(rs0.push(st), em, "[heap]"@, BRK_ADDR, BRK_SIZE);
                lemma_slot_stays_free(rs0.push(st).push(em), sh, "[heap]"@, BRK_ADDR, BRK_SIZE);
                lemma_slot_stays_free(rs0, st, "[kernel]"@, KERNEL_ADDR, KERNEL_SIZE);
                lemma_slot_stays_free(rs0.push(st), em, "[kernel]"@, KERNEL_ADDR, KERNEL_SIZE);
                lemma_slot_stays_free(rs0.push(st).push(em), sh, "[kernel]"@, KERNEL_ADDR, KERNEL_SIZE);
                lemma_slot_stays_free(rs0, st, "[tls]"@, TLS_ADDR, TLS_SIZE);
                lemma_slot_stays_free(rs0.push(st), em, "[tls]"@, TLS_ADDR, TLS_SIZE);
                lemma_slot_stays_free(rs0.push(st).push(em), sh, "[tls]"@, TLS_ADDR, TLS_SIZE);
                assert(vmstate.regions_view() =~= rs0.push(st).push(em).push(sh));
            }
        }
        let ghost r3 = vmstate.regions_view();
        let env = LinuxEnv {};
        let (kernel, heap) = env.attach(&mut vmstate)?;
        plan.push(heap);
        let ghost hp = vmstate.regions_view().last();
        proof {
            assert(vmstate.regions_view() =~= r3.push(hp));
            if free {
                assert(hp.name@.len() == 6);
                lemma_slot_stays_free(r3, hp, "[kernel]"@, KERNEL_ADDR, KERNEL_SIZE);
                lemma_slot_stays_free(r3, hp, "[tls]"@, TLS_ADDR, TLS_SIZE);
            }
        }
        let ghost r4 = vmstate.regions_view();
        let mut image = init_state(&mut vmstate, start_fva, main_fva)?;
        assert(plan@[0] == first);
        proof {
            let f = vmstate.regions_view();
            let n = rs0.len() as int;
            assert(f.subrange(0, n) =~= rs0) by {
                assert(f.subrange(0, r4.len() as int) == r4);
                assert(r4.subrange(0, n) =~= rs0);
            }
            assert(f[n] == st && f[n + 1] == em && f[n + 2] == sh && f[n + 3] == hp) by {
                assert(f[n] == r4[n] && f[n + 1] == r4[n + 1] && f[n + 2] == r4[n + 2] && f[n + 3] == r4[n + 3]);
            }
        }
        let ghost p = plan@;
        plan.append(&mut image);
        assert(plan@[0] == p[0]);
        Ok((EmuEngine { vmstate, kernel, emu_counter: 0 }, plan))
    }

    /// Captures the baseline once the process image is built; see
    /// `VmState::snapshot`.
    pub fn snapshot(&mut self, contents: Vec<Vec<u8>>) -> (r: Result<(), Error>)
        requires
            old(self).vmstate.wf(),
        ensures
            final(self).vmstate.wf(),
            final(self).vmstate.stack_view() == old(self).vmstate.stack_view(),
            final(self).vmstate.emudata_view() == old(self).vmstate.emudata_view(),
            final(self).vmstate.regions_view() == old(self).vmstate.regions_view(),
            final(self).counter() == old(self).counter(),
            ({
                let rs = old(self).vmstate.regions_view();
                let ok = contents@.len() == rs.len() && forall|i: int|
                    0 <= i < contents@.len() ==> (#[trigger] contents@[i])@.len() == rs[i].size;
                &&& ok ==> r is Ok && final(self).vmstate.snapshot_view() == Some(
                    Seq::new(contents@.len(), |i: int| (rs[i], contents@[i]@)),
                )
                &&& !ok ==> r == Err::<(), Error>(Error::SnapshotMismatch)
            }),
    {
        self.vmstate.snapshot(contents)
    }

    /// Plans one probe of `target` with `args`: reset every tracked region
    /// to the baseline (and the program break), clear the other registers,
    /// lay the arguments out in
    /// the scratch-data region, bind them under the target's convention
    /// with the sentinel as return address, and run from the entry point
    /// to the sentinel. Fails when a region is missing, no baseline was
    /// captured, or the arguments do not fit.
    pub fn call(&mut self, target: &TargetInfo, args: &EmuArgs) -> (r: Result<ProbePlan, Error>)
        requires
            old(self).vmstate.wf(),
        ensures
            final(self).vmstate == old(self).vmstate,
            r is Ok ==> final(self).kernel.brk() == crate::emu::BRK_ADDR,
            r matches Ok(p) ==> is_probe_plan(old(self).vmstate, *target, args.values(), p.setup@, p.entry, p.until, p.args.values()),
            r is Ok ==> final(self).counter() == if old(self).counter() < usize::MAX {
                old(self).counter() + 1
            } else {
                old(self).counter()
            },
            r is Err ==> final(self).counter() == old(self).counter(),
            call_error(old(self).vmstate, *target, args.values()) is None ==> r is Ok,
            call_error(old(self).vmstate, *target, args.values()) matches Some(e) ==> r == Err::<ProbePlan, Error>(e),
    {
        let mut setup = self.vmstate.reset_probe_state()?;
        let ghost n = setup@.len() as int;
        let ghost reset = setup@;
        let mut clear = clear_registers();
        let ghost clear_v = clear@;
        setup.append(&mut clear);
        self.kernel.reset();
        let (pushable, image) = args.as_pushable(&self.vmstate)?;
        let sp = match self.vmstate.base_sp() {
            Some(sp) => sp,
            None => return Err(Error::StackUninitialized),
        };
        let floor = match self.vmstate.stack_region() {
            Some(s) => s.addr,
            None => return Err(Error::StackUninitialized),
        };
        let values = pushable.pushed_args();
        let mut bind = init_args(target.cc, &values, CODE_SENTINEL, sp, floor)?;
        let ghost bind_v = bind@;
        setup.push(image);
        setup.append(&mut bind);
        proof {
            assert(setup@.subrange(0, n) =~= reset);
            assert(setup@.subrange(n, n + 11) =~= clear_v);
            assert(setup@.subrange(n + 12, setup@.len() as int) =~= bind_v);
            assert(pushable.values().len() == args.values().len());
        }
        if self.emu_counter < usize::MAX {
            self.emu_counter = self.emu_counter + 1;
        }
        Ok(ProbePlan { setup, entry: target.fva, until: CODE_SENTINEL, args: pushable })
    }

    /// The effects of a completed probe: the value the callee returned and
    /// the values passed for its arguments.
    pub fn collect_call_results(&self, return_value: u64, args: PushableArgs) -> (r: EmuEffects)
        ensures
            r.return_value == return_value,
            r.args == args,
    {
        EmuEffects { return_value, args }
    }

    /// Number of probes planned so far (it stops growing at the largest
    /// `usize`).
    pub fn emu_counter(&self) -> (r: usize)
        ensures
            r == self.counter(),
    {
        self.emu_counter
    }
}

} // verus!
