//! Actions on the emulator and their meaning on a model of its state.
//!
//! The model of the emulator is a memory, a total function from address to
//! byte, and a register file, a total function from register to value.
//! Writes and register updates change the model; what a mapping or a run
//! does is up to the emulator, so the model leaves it unchanged and the
//! statements made over it concern plans of writes and register updates.
use vstd::prelude::*;
use vstd::bytes::spec_u64_from_le_bytes;

verus! {

/// The general-purpose registers the engine reads or writes.
#[derive(Debug, Clone, Copy, PartialEq, Eq, Structural)]
pub enum Reg {
    Rax,
    Rbx,
    Rcx,
    Rdx,
    Rsi,
    Rdi,
    Rbp,
    Rsp,
    R8,
    R9,
    R10,
    Rip,
}

/// One operation for the emulator to perform.
#[derive(Debug, Clone)]
pub enum EmuAction {
    /// Map `size` bytes at `addr` with the given permission bits.
    MapRegion { addr: u64, size: u64, perms: u32 },
    /// Write `bytes` at `addr`.
    Write { addr: u64, bytes: Vec<u8> },
    /// Set a register.
    SetReg { reg: Reg, value: u64 },
    /// Run from `start` until `until` is reached, within the engine's budgets.
    Run { start: u64, until: u64 },
}

/// Memory after one action.
pub open spec fn step_mem(mem: spec_fn(int) -> u8, a: EmuAction) -> spec_fn(int) -> u8 {
    match a {
        EmuAction::Write { addr, bytes } => |x: int|
            if addr <= x < addr + bytes@.len() {
                bytes@[x - addr]
            } else {
                mem(x)
            },
        _ => mem,
    }
}

/// Registers after one action.
pub open spec fn step_regs(regs: spec_fn(Reg) -> u64, a: EmuAction) -> spec_fn(Reg) -> u64 {
    match a {
        EmuAction::SetReg { reg, value } => |r: Reg|
            if r == reg {
                value
            } else {
                regs(r)
            },
        _ => regs,
    }
}

/// Memory after a plan, applied first to last.
pub open spec fn mem_after(mem: spec_fn(int) -> u8, plan: Seq<EmuAction>) -> spec_fn(int) -> u8
    decreases plan.len(),
{
    if plan.len() == 0 {
        mem
    } else {
        step_mem(mem_after(mem, plan.drop_last()), plan.last())
    }
}

/// Registers after a plan, applied first to last.
pub open spec fn regs_after(regs: spec_fn(Reg) -> u64, plan: Seq<EmuAction>) -> spec_fn(Reg) -> u64
    decreases plan.len(),
{
    if plan.len() == 0 {
        regs
    } else {
        step_regs(regs_after(regs, plan.drop_last()), plan.last())
    }
}

/// Whether an action writes the byte at `x`.
pub open spec fn writes_at(a: EmuAction, x: int) -> bool {
    match a {
        EmuAction::Write { addr, bytes } => addr <= x < addr + bytes@.len(),
        _ => false,
    }
}

/// The eight bytes at `addr`, lowest address first.
pub open spec fn word_bytes(mem: spec_fn(int) -> u8, addr: int) -> Seq<u8> {
    Seq::new(8, |i: int| mem(addr + i))
}

/// The little-endian 64-bit word at `addr`.
pub open spec fn word_at(mem: spec_fn(int) -> u8, addr: int) -> u64 {
    spec_u64_from_le_bytes(word_bytes(mem, addr))
}

/// A byte that no action after position `j` writes keeps the value it had
/// after the first `j + 1` actions.
pub proof fn lemma_mem_untouched_suffix(mem: spec_fn(int) -> u8, plan: Seq<EmuAction>, j: int, x: int)
    requires
        0 <= j < plan.len(),
        forall|k: int| j < k < plan.len() ==> !writes_at(#[trigger] plan[k], x),
    ensures
        mem_after(mem, plan)(x) == mem_after(mem, plan.subrange(0, j + 1))(x),
    decreases plan.len(),
{
    if plan.len() == j + 1 {
        assert(plan.subrange(0, j + 1) =~= plan);
    } else {
        let p = plan.drop_last();
        assert forall|k: int| j < k < p.len() implies !writes_at(#[trigger] p[k], x) by {
            assert(p[k] == plan[k]);
        }
        lemma_mem_untouched_suffix(mem, p, j, x);
        assert(p.subrange(0, j + 1) =~= plan.subrange(0, j + 1));
        assert(!writes_at(plan.last(), x));
    }
}

/// The byte at `x` after a plan whose action `j` writes it and whose later
/// actions do not.
pub proof fn lemma_mem_last_writer(mem: spec_fn(int) -> u8, plan: Seq<EmuAction>, j: int, x: int)
    requires
        0 <= j < plan.len(),
        plan[j] is Write,
        writes_at(plan[j], x),
        forall|k: int| j < k < plan.len() ==> !writes_at(#[trigger] plan[k], x),
    ensures
        mem_after(mem, plan)(x) == plan[j]->Write_bytes@[x - plan[j]->Write_addr],
{
    lemma_mem_untouched_suffix(mem, plan, j, x);
    let p = plan.subrange(0, j + 1);
    assert(p.drop_last() =~= plan.subrange(0, j));
    assert(p.last() == plan[j]);
}

/// A register that no action after position `j` sets keeps the value it had
/// after the first `j + 1` actions.
pub proof fn lemma_regs_untouched_suffix(regs: spec_fn(Reg) -> u64, plan: Seq<EmuAction>, j: int, r: Reg)
    requires
        0 <= j < plan.len(),
        forall|k: int| j < k < plan.len() ==> !(#[trigger] plan[k] is SetReg && plan[k]->SetReg_reg == r),
    ensures
        regs_after(regs, plan)(r) == regs_after(regs, plan.subrange(0, j + 1))(r),
    decreases plan.len(),
{
    if plan.len() == j + 1 {
        assert(plan.subrange(0, j + 1) =~= plan);
    } else {
        let p = plan.drop_last();
        assert forall|k: int| j < k < p.len() implies !(#[trigger] p[k] is SetReg && p[k]->SetReg_reg == r) by {
            assert(p[k] == plan[k]);
        }
        lemma_regs_untouched_suffix(regs, p, j, r);
        assert(p.subrange(0, j + 1) =~= plan.subrange(0, j + 1));
        let l = plan[plan.len() - 1];
        assert(!(l is SetReg && l->SetReg_reg == r));
    }
}

/// Applying two plans one after the other is applying their concatenation.
pub proof fn lemma_after_append(mem: spec_fn(int) -> u8, regs: spec_fn(Reg) -> u64, a: Seq<EmuAction>, b: Seq<EmuAction>)
    ensures
        mem_after(mem, a + b) == mem_after(mem_after(mem, a), b),
        regs_after(regs, a + b) == regs_after(regs_after(regs, a), b),
    decreases b.len(),
{
    if b.len() == 0 {
        assert(a + b =~= a);
    } else {
        assert((a + b).drop_last() =~= a + b.drop_last());
        assert((a + b).last() == b.last());
        lemma_after_append(mem, regs, a, b.drop_last());
    }
}

/// The registers cleared before every probe, in order: all but the stack
/// pointer, which is set to the top of the stack instead.
pub open spec fn cleared_reg(i: int) -> Reg {
    if i == 0 {
        Reg::Rax
    } else if i == 1 {
        Reg::Rbx
    } else if i == 2 {
        Reg::Rcx
    } else if i == 3 {
        Reg::Rdx
    } else if i == 4 {
        Reg::Rsi
    } else if i == 5 {
        Reg::Rdi
    } else if i == 6 {
        Reg::Rbp
    } else if i == 7 {
        Reg::R8
    } else if i == 8 {
        Reg::R9
    } else if i == 9 {
        Reg::R10
    } else {
        Reg::Rip
    }
}

/// Number of registers cleared before every probe.
pub const CLEARED_REGS: usize = 11;

/// Whether `plan` clears every register of `cleared_reg`, in order.
pub open spec fn is_clear_regs_plan(plan: Seq<EmuAction>) -> bool {
    &&& plan.len() == CLEARED_REGS
    &&& forall|i: int| 0 <= i < CLEARED_REGS ==> #[trigger] plan[i] == (EmuAction::SetReg { reg: cleared_reg(i), value: 0 })
}

/// The actions that clear every register but the stack pointer.
pub fn clear_registers() -> (r: Vec<EmuAction>)
    ensures
        is_clear_regs_plan(r@),
{
    let regs = [Reg::Rax, Reg::Rbx, Reg::Rcx, Reg::Rdx, Reg::Rsi, Reg::Rdi, Reg::Rbp, Reg::R8, Reg::R9, Reg::R10, Reg::Rip];
    let mut r: Vec<EmuAction> = Vec::new();
    let mut i: usize = 0;
    while i < CLEARED_REGS
        invariant
            i <= CLEARED_REGS,
            regs@.len() == CLEARED_REGS,
            forall|k: int| 0 <= k < CLEARED_REGS ==> #[trigger] regs@[k] == cleared_reg(k),
            r@.len() == i,
            forall|k: int| 0 <= k < i ==> #[trigger] r@[k] == (EmuAction::SetReg { reg: cleared_reg(k), value: 0 }),
        decreases CLEARED_REGS - i,
    {
        r.push(EmuAction::SetReg { reg: regs[i], value: 0 });
        i = i + 1;
    }
    r
}

/// A byte that two memories share, or that the plan writes, is the same
/// after the plan in both.
pub proof fn lemma_mem_after_agree(m1: spec_fn(int) -> u8, m2: spec_fn(int) -> u8, plan: Seq<EmuAction>, x: int)
    requires
        m1(x) == m2(x) || exists|k: int| 0 <= k < plan.len() && writes_at(#[trigger] plan[k], x),
    ensures
        mem_after(m1, plan)(x) == mem_after(m2, plan)(x),
    decreases plan.len(),
{
    if plan.len() > 0 {
        let p = plan.drop_last();
        if !writes_at(plan.last(), x) {
            if m1(x) != m2(x) {
                let k = choose|k: int| 0 <= k < plan.len() && writes_at(#[trigger] plan[k], x);
                assert(k < p.len());
                assert(writes_at(p[k], x));
            }
            lemma_mem_after_agree(m1, m2, p, x);
        }
    }
}

/// A register that two register files share, or that the plan sets, is the
/// same after the plan in both.
pub proof fn lemma_regs_after_agree(r1: spec_fn(Reg) -> u64, r2: spec_fn(Reg) -> u64, plan: Seq<EmuAction>, r: Reg)
    requires
        r1(r) == r2(r) || exists|k: int| 0 <= k < plan.len() && #[trigger] plan[k] is SetReg && plan[k]->SetReg_reg == r,
    ensures
        regs_after(r1, plan)(r) == regs_after(r2, plan)(r),
    decreases plan.len(),
{
    if plan.len() > 0 {
        let p = plan.drop_last();
        let l = plan.last();
        if !(l is SetReg && l->SetReg_reg == r) {
            if r1(r) != r2(r) {
                let k = choose|k: int| 0 <= k < plan.len() && #[trigger] plan[k] is SetReg && plan[k]->SetReg_reg == r;
                assert(k < p.len());
                assert(p[k] == plan[k]);
            }
            lemma_regs_after_agree(r1, r2, p, r);
        }
    }
}

/// A byte that no action writes is unchanged by the plan.
pub proof fn lemma_mem_untouched_all(mem: spec_fn(int) -> u8, plan: Seq<EmuAction>, x: int)
    requires
        forall|k: int| 0 <= k < plan.len() ==> !writes_at(#[trigger] plan[k], x),
    ensures
        mem_after(mem, plan)(x) == mem(x),
    decreases plan.len(),
{
    if plan.len() > 0 {
        let p = plan.drop_last();
        assert forall|k: int| 0 <= k < p.len() implies !writes_at(#[trigger] p[k], x) by {
            assert(p[k] == plan[k]);
        }
        lemma_mem_untouched_all(mem, p, x);
        assert(!writes_at(plan[plan.len() - 1], x));
    }
}

/// A plan that only writes memory leaves every register unchanged.
pub proof fn lemma_regs_untouched_all(regs: spec_fn(Reg) -> u64, plan: Seq<EmuAction>, r: Reg)
    requires
        forall|k: int| 0 <= k < plan.len() ==> (#[trigger] plan[k]) is Write,
    ensures
        regs_after(regs, plan)(r) == regs(r),
    decreases plan.len(),
{
    if plan.len() > 0 {
        let p = plan.drop_last();
        assert forall|k: int| 0 <= k < p.len() implies (#[trigger] p[k]) is Write by {
            assert(p[k] == plan[k]);
        }
        lemma_regs_untouched_all(regs, p, r);
        assert(plan[plan.len() - 1] is Write);
    }
}

} // verus!
