//! Calling conventions: how argument values reach a callee.
use vstd::prelude::*;
use vstd::bytes::{spec_u64_to_le_bytes, spec_u64_from_le_bytes};
use crate::emu::Error;
use crate::machine::{EmuAction, Reg, mem_after, regs_after, writes_at, word_at, word_bytes,
    lemma_mem_last_writer, lemma_regs_untouched_suffix};
use crate::vmstate::stack_push;

verus! {

/// The calling convention of a target.
#[derive(Debug, Clone, Copy, PartialEq, Eq, Structural)]
pub enum CallingConvention {
    /// Every argument on the stack, the first nearest the return address.
    Stdcall,
    /// The first six arguments in registers, the rest on the stack.
    SystemV,
}

/// Number of register slots of the register-then-stack convention.
pub const ARG_REG_COUNT: usize = 6;

/// The register that carries argument `i` (below six) in the
/// register-then-stack convention.
pub open spec fn arg_reg(i: int) -> Reg {
    if i == 0 {
        Reg::Rdi
    } else if i == 1 {
        Reg::Rsi
    } else if i == 2 {
        Reg::Rdx
    } else if i == 3 {
        Reg::Rcx
    } else if i == 4 {
        Reg::R8
    } else {
        Reg::R9
    }
}

fn arg_reg_exec(i: usize) -> (r: Reg)
    ensures
        r == arg_reg(i as int),
{
    if i == 0 {
        Reg::Rdi
    } else if i == 1 {
        Reg::Rsi
    } else if i == 2 {
        Reg::Rdx
    } else if i == 3 {
        Reg::Rcx
    } else if i == 4 {
        Reg::R8
    } else {
        Reg::R9
    }
}

/// How many of `n` arguments travel in registers.
pub open spec fn reg_count(cc: CallingConvention, n: int) -> int {
    match cc {
        CallingConvention::Stdcall => 0,
        CallingConvention::SystemV => if n < 6 {
            n
        } else {
            6
        },
    }
}

/// Argument `i` as the callee reads it on entry: from its register, or from
/// the stack slot above the return address.
pub open spec fn callee_arg(cc: CallingConvention, mem: spec_fn(int) -> u8, regs: spec_fn(Reg) -> u64, i: int) -> u64 {
    match cc {
        CallingConvention::Stdcall => word_at(mem, regs(Reg::Rsp) + 8 + 8 * i),
        CallingConvention::SystemV => if i < 6 {
            regs(arg_reg(i))
        } else {
            word_at(mem, regs(Reg::Rsp) + 8 + 8 * (i - 6))
        },
    }
}

/// Whether actions `k` and `k + 1` of `plan` push `value` on a stack whose
/// pointer was `sp`.
pub open spec fn is_push_at(plan: Seq<EmuAction>, k: int, sp: int, value: u64) -> bool {
    &&& plan[k] == (EmuAction::SetReg { reg: Reg::Rsp, value: (sp - 8) as u64 })
    &&& plan[k + 1] is Write
    &&& plan[k + 1]->Write_addr == sp - 8
    &&& plan[k + 1]->Write_bytes@ == spec_u64_to_le_bytes(value)
}

/// Whether `plan` binds `args` under `cc` and pushes the return address
/// `ret`, starting from stack pointer `sp`: registers first, then the stack
/// arguments from the last to the first, then the return address.
pub open spec fn is_call_plan(cc: CallingConvention, args: Seq<u64>, ret: u64, sp: u64, plan: Seq<EmuAction>) -> bool {
    let n = args.len() as int;
    let r = reg_count(cc, n);
    let s = n - r;
    &&& plan.len() == r + 2 * (s + 1)
    &&& forall|i: int| 0 <= i < r ==> #[trigger] plan[i] == (EmuAction::SetReg { reg: arg_reg(i), value: args[i] })
    &&& forall|t: int| 0 <= t < s ==> #[trigger] is_push_at(plan, r + 2 * t, sp - 8 * t, args[n - 1 - t])
    &&& is_push_at(plan, r + 2 * s, sp - 8 * s, ret)
}

/// Stack bytes the call needs under `cc` for `n` arguments.
pub open spec fn stack_need(cc: CallingConvention, n: int) -> int {
    8 * (n - reg_count(cc, n) + 1)
}

/// Builds the actions that bind the argument values `args` under `cc` and
/// push the return address `ret`, with the stack pointer at `sp` and the
/// stack ending below at `floor`. Fails when the stack is too small.
pub fn init_args(cc: CallingConvention, args: &Vec<u64>, ret: u64, sp: u64, floor: u64) -> (r: Result<Vec<EmuAction>, Error>)
    requires
        floor <= sp,
    ensures
        stack_need(cc, args@.len() as int) <= sp - floor ==> (r matches Ok(plan) && is_call_plan(cc, args@, ret, sp, plan@)),
        stack_need(cc, args@.len() as int) > sp - floor ==> r == Err::<Vec<EmuAction>, Error>(Error::OutOfRegion),
{
    let n = args.len();
    let nreg: usize = match cc {
        CallingConvention::Stdcall => 0,
        CallingConvention::SystemV => if n < ARG_REG_COUNT {
            n
        } else {
            ARG_REG_COUNT
        },
    };
    let nstack = n - nreg;
    if nstack as u64 >= (sp - floor) / 8 || (nstack as u64 + 1) * 8 > sp - floor {
        proof {
            assert(stack_need(cc, n as int) > sp - floor) by (nonlinear_arith)
                requires
                    stack_need(cc, n as int) == 8 * (nstack + 1),
                    nstack as u64 >= (sp - floor) / 8 || (nstack + 1) * 8 > sp - floor,
                    sp >= floor,
            ;
        }
        return Err(Error::OutOfRegion);
    }
    proof {
        assert(8 * (nstack + 1) <= sp - floor) by (nonlinear_arith)
            requires
                nstack < (sp - floor) / 8,
                sp >= floor,
        ;
    }
    let mut plan: Vec<EmuAction> = Vec::new();
    let mut i: usize = 0;
    while i < nreg
        invariant
            i <= nreg,
            nreg == reg_count(cc, n as int),
            n == args@.len(),
            plan@.len() == i,
            forall|k: int| 0 <= k < i ==> #[trigger] plan@[k] == (EmuAction::SetReg { reg: arg_reg(k), value: args@[k] }),
        decreases nreg - i,
    {
        plan.push(EmuAction::SetReg { reg: arg_reg_exec(i), value: args[i] });
        i = i + 1;
    }
    let mut cur = sp;
    let mut t: usize = 0;
    while t < nstack
        invariant
            t <= nstack,
            nstack == n - nreg,
            nreg == reg_count(cc, n as int),
            n == args@.len(),
            8 * (nstack + 1) <= sp - floor,
            cur == sp - 8 * t,
            plan@.len() == nreg + 2 * t,
            forall|k: int| 0 <= k < nreg ==> #[trigger] plan@[k] == (EmuAction::SetReg { reg: arg_reg(k), value: args@[k] }),
            forall|u: int| 0 <= u < t ==> #[trigger] is_push_at(plan@, nreg + 2 * u, sp - 8 * u, args@[n - 1 - u]),
        decreases nstack - t,
    {
        let ghost before = plan@;
        cur = stack_push(&mut plan, cur, args[n - 1 - t]);
        proof {
            assert forall|k: int| 0 <= k < nreg implies #[trigger] plan@[k] == (EmuAction::SetReg { reg: arg_reg(k), value: args@[k] }) by {
                assert(plan@[k] == before.subrange(0, before.len() as int)[k]);
            }
            assert forall|u: int| 0 <= u < t + 1 implies #[trigger] is_push_at(plan@, nreg + 2 * u, sp - 8 * u, args@[n - 1 - u]) by {
                if u < t {
                    let sub = plan@.subrange(0, before.len() as int);
                    assert(plan@[nreg + 2 * u] == sub[nreg + 2 * u]);
                    assert(plan@[nreg + 2 * u + 1] == sub[nreg + 2 * u + 1]);
                    assert(is_push_at(before, nreg + 2 * u, sp - 8 * u, args@[n - 1 - u]));
                } else {
                    assert(u == t);
                    assert(nreg + 2 * u == before.len());
                }
            }
        }
        t = t + 1;
    }
    let ghost before = plan@;
    cur = stack_push(&mut plan, cur, ret);
    proof {
        assert forall|k: int| 0 <= k < nreg implies #[trigger] plan@[k] == (EmuAction::SetReg { reg: arg_reg(k), value: args@[k] }) by {
            assert(plan@[k] == before[k]);
        }
        assert forall|u: int| 0 <= u < nstack implies #[trigger] is_push_at(plan@, nreg + 2 * u, sp - 8 * u, args@[n - 1 - u]) by {
            let sub = plan@.subrange(0, before.len() as int);
            assert(plan@[nreg + 2 * u] == sub[nreg + 2 * u]);
            assert(plan@[nreg + 2 * u + 1] == sub[nreg + 2 * u + 1]);
            assert(is_push_at(before, nreg + 2 * u, sp - 8 * u, args@[n - 1 - u]));
        }
    }
    Ok(plan)
}

/// The shape of action `k` of a call plan: register writes first, then
/// alternately a stack-pointer update and an eight-byte write below it.
proof fn lemma_plan_shape(cc: CallingConvention, args: Seq<u64>, ret: u64, sp: u64, plan: Seq<EmuAction>, k: int)
    requires
        is_call_plan(cc, args, ret, sp, plan),
        0 <= k < plan.len(),
    ensures
        ({
            let r = reg_count(cc, args.len() as int);
            let t = (k - r) / 2;
            &&& k < r ==> plan[k] == (EmuAction::SetReg { reg: arg_reg(k), value: args[k] })
            &&& k >= r && (k - r) % 2 == 0 ==> plan[k] == (EmuAction::SetReg { reg: Reg::Rsp, value: (sp - 8 * t - 8) as u64 })
            &&& k >= r && (k - r) % 2 == 1 ==> plan[k] is Write && plan[k]->Write_addr == sp - 8 * t - 8
                && plan[k]->Write_bytes@.len() == 8
        }),
{
    let n = args.len() as int;
    let r = reg_count(cc, n);
    let s = n - r;
    let t = (k - r) / 2;
    if k >= r {
        vstd::bytes::lemma_auto_spec_u64_to_from_le_bytes();
        if t < s {
            assert(is_push_at(plan, r + 2 * t, sp - 8 * t, args[n - 1 - t]));
        } else {
            assert(t == s);
        }
    } else {
        assert(plan[k] == (EmuAction::SetReg { reg: arg_reg(k), value: args[k] }));
    }
}

/// A word written at `addr` by action `k`, and not overwritten by a later
/// action, is read back unchanged.
proof fn lemma_word_survives(mem: spec_fn(int) -> u8, plan: Seq<EmuAction>, k: int, addr: int, value: u64)
    requires
        0 <= k < plan.len(),
        plan[k] is Write,
        plan[k]->Write_addr == addr,
        plan[k]->Write_bytes@ == spec_u64_to_le_bytes(value),
        forall|m: int, b: int| k < m < plan.len() && 0 <= b < 8 ==> !#[trigger] writes_at(plan[m], addr + b),
    ensures
        word_at(mem_after(mem, plan), addr) == value,
{
    vstd::bytes::lemma_auto_spec_u64_to_from_le_bytes();
    let m2 = mem_after(mem, plan);
    assert forall|b: int| 0 <= b < 8 implies #[trigger] word_bytes(m2, addr)[b] == spec_u64_to_le_bytes(value)[b] by {
        assert forall|m: int| k < m < plan.len() implies !#[trigger] writes_at(plan[m], addr + b) by {}
        lemma_mem_last_writer(mem, plan, k, addr + b);
    }
    assert(word_bytes(m2, addr) =~= spec_u64_to_le_bytes(value));
}

/// Whatever the convention, once a call plan has been applied the callee
/// reads each argument as the value bound for it and finds the return
/// address at the top of the stack.
pub proof fn lemma_callee_sees_args(
    cc: CallingConvention,
    args: Seq<u64>,
    ret: u64,
    sp: u64,
    plan: Seq<EmuAction>,
    mem: spec_fn(int) -> u8,
    regs: spec_fn(Reg) -> u64,
    i: int,
)
    requires
        is_call_plan(cc, args, ret, sp, plan),
        stack_need(cc, args.len() as int) <= sp,
        0 <= i < args.len(),
    ensures
        regs_after(regs, plan)(Reg::Rsp) == sp - stack_need(cc, args.len() as int),
        word_at(mem_after(mem, plan), regs_after(regs, plan)(Reg::Rsp) as int) == ret,
        callee_arg(cc, mem_after(mem, plan), regs_after(regs, plan), i) == args[i],
{
    let n = args.len() as int;
    let r = reg_count(cc, n);
    let s = n - r;
    let m2 = mem_after(mem, plan);
    let r2 = regs_after(regs, plan);
    // The stack pointer is last set by the return-address push.
    let js = r + 2 * s;
    assert forall|k: int| js < k < plan.len() implies !(#[trigger] plan[k] is SetReg && plan[k]->SetReg_reg == Reg::Rsp) by {
        lemma_plan_shape(cc, args, ret, sp, plan, k);
    }
    lemma_regs_untouched_suffix(regs, plan, js, Reg::Rsp);
    assert(plan.subrange(0, js + 1).last() == plan[js]);
    assert(r2(Reg::Rsp) == sp - 8 * s - 8);
    // The return address.
    assert(is_push_at(plan, r + 2 * s, sp - 8 * s, ret));
    assert forall|m: int, b: int| js + 1 < m < plan.len() && 0 <= b < 8 implies !#[trigger] writes_at(plan[m], sp - 8 * s - 8 + b) by {}
    lemma_word_survives(mem, plan, js + 1, sp - 8 * s - 8, ret);
    if i < r {
        assert forall|k: int| i < k < plan.len() implies !(#[trigger] plan[k] is SetReg && plan[k]->SetReg_reg == arg_reg(i)) by {
            lemma_plan_shape(cc, args, ret, sp, plan, k);
        }
        lemma_regs_untouched_suffix(regs, plan, i, arg_reg(i));
        assert(plan.subrange(0, i + 1).last() == plan[i]);
        assert(plan[i] == (EmuAction::SetReg { reg: arg_reg(i), value: args[i] }));
    } else {
        let t = n - 1 - i;
        assert(0 <= t < s);
        assert(is_push_at(plan, r + 2 * t, sp - 8 * t, args[n - 1 - t]));
        let addr = sp - 8 * t - 8;
        assert forall|m: int, b: int| r + 2 * t + 1 < m < plan.len() && 0 <= b < 8 implies !#[trigger] writes_at(plan[m], addr + b) by {
            lemma_plan_shape(cc, args, ret, sp, plan, m);
        }
        lemma_word_survives(mem, plan, r + 2 * t + 1, addr, args[i]);
        assert(addr == r2(Reg::Rsp) + 8 + 8 * (i - r));
    }
}

/// For a target with no more arguments than register slots, both
/// conventions deliver the same argument values to the callee: the ones
/// that were bound.
pub proof fn lemma_conventions_agree(
    args: Seq<u64>,
    ret: u64,
    sp: u64,
    stack_plan: Seq<EmuAction>,
    reg_plan: Seq<EmuAction>,
    mem: spec_fn(int) -> u8,
    regs: spec_fn(Reg) -> u64,
    i: int,
)
    requires
        args.len() <= ARG_REG_COUNT,
        is_call_plan(CallingConvention::Stdcall, args, ret, sp, stack_plan),
        is_call_plan(CallingConvention::SystemV, args, ret, sp, reg_plan),
        stack_need(CallingConvention::Stdcall, args.len() as int) <= sp,
        0 <= i < args.len(),
    ensures
        callee_arg(CallingConvention::Stdcall, mem_after(mem, stack_plan), regs_after(regs, stack_plan), i)
            == callee_arg(CallingConvention::SystemV, mem_after(mem, reg_plan), regs_after(regs, reg_plan), i),
        callee_arg(CallingConvention::SystemV, mem_after(mem, reg_plan), regs_after(regs, reg_plan), i) == args[i],
{
    lemma_callee_sees_args(CallingConvention::Stdcall, args, ret, sp, stack_plan, mem, regs, i);
    lemma_callee_sees_args(CallingConvention::SystemV, args, ret, sp, reg_plan, mem, regs, i);
}

} // verus!
