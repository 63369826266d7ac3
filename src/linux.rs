//! The minimal Linux process environment: the initial stack handed over at
//! process entry, thread-local storage set-up, and a few emulated system
//! calls.
use vstd::prelude::*;
use vstd::bytes::spec_u64_to_le_bytes;
use vstd::string::StringSliceAdditionalSpecFns;
use crate::codec::{native_pack, native_unpack};
use crate::emu::{Error, BRK_ADDR, BRK_SIZE, KERNEL_ADDR, KERNEL_SIZE, TLS_ADDR, TLS_SIZE,
    SHELLCODE_ADDR, SHELLCODE_SIZE, PROT_READ, PROT_WRITE};
use crate::machine::{EmuAction, Reg};
use crate::vmstate::{MemMap, VmState, DataWriter, stack_push, has_name, range_free};

verus! {

/// Keys of the auxiliary vector handed to a new process.
#[allow(non_camel_case_types)]
#[derive(Debug, Clone, Copy, PartialEq, Eq, Structural)]
pub enum AuxVecType {
    ELF_AT_NULL,
    ELF_AT_IGNORE,
    ELF_AT_EXECFD,
    ELF_AT_PHDR,
    ELF_AT_PHENT,
    ELF_AT_PHNUM,
    ELF_AT_PAGESZ,
    ELF_AT_BASE,
    ELF_AT_FLAGS,
    ELF_AT_ENTRY,
    ELF_AT_NOTELF,
    ELF_AT_UID,
    ELF_AT_EUID,
    ELF_AT_GID,
    ELF_AT_EGID,
    ELF_AT_PLATFORM,
    ELF_AT_HWCAP,
    ELF_AT_CLKTCK,
    ELF_AT_RANDOM,
    ELF_AT_SYSINFO,
    ELF_AT_SYSINFO_EHDR,
}

impl AuxVecType {
    /// The numeric key.
    pub open spec fn spec_code(self) -> u64 {
        match self {
            AuxVecType::ELF_AT_NULL => 0,
            AuxVecType::ELF_AT_IGNORE => 1,
            AuxVecType::ELF_AT_EXECFD => 2,
            AuxVecType::ELF_AT_PHDR => 3,
            AuxVecType::ELF_AT_PHENT => 4,
            AuxVecType::ELF_AT_PHNUM => 5,
            AuxVecType::ELF_AT_PAGESZ => 6,
            AuxVecType::ELF_AT_BASE => 7,
            AuxVecType::ELF_AT_FLAGS => 8,
            AuxVecType::ELF_AT_ENTRY => 9,
            AuxVecType::ELF_AT_NOTELF => 10,
            AuxVecType::ELF_AT_UID => 11,
            AuxVecType::ELF_AT_EUID => 12,
            AuxVecType::ELF_AT_GID => 13,
            AuxVecType::ELF_AT_EGID => 14,
            AuxVecType::ELF_AT_PLATFORM => 15,
            AuxVecType::ELF_AT_HWCAP => 16,
            AuxVecType::ELF_AT_CLKTCK => 17,
            AuxVecType::ELF_AT_RANDOM => 25,
            AuxVecType::ELF_AT_SYSINFO => 32,
            AuxVecType::ELF_AT_SYSINFO_EHDR => 33,
        }
    }

    /// The numeric key.
    pub fn code(&self) -> (r: u64)
        ensures
            r == self.spec_code(),
    {
        match self {
            AuxVecType::ELF_AT_NULL => 0,
            AuxVecType::ELF_AT_IGNORE => 1,
            AuxVecType::ELF_AT_EXECFD => 2,
            AuxVecType::ELF_AT_PHDR => 3,
            AuxVecType::ELF_AT_PHENT => 4,
            AuxVecType::ELF_AT_PHNUM => 5,
            AuxVecType::ELF_AT_PAGESZ => 6,
            AuxVecType::ELF_AT_BASE => 7,
            AuxVecType::ELF_AT_FLAGS => 8,
            AuxVecType::ELF_AT_ENTRY => 9,
            AuxVecType::ELF_AT_NOTELF => 10,
            AuxVecType::ELF_AT_UID => 11,
            AuxVecType::ELF_AT_EUID => 12,
            AuxVecType::ELF_AT_GID => 13,
            AuxVecType::ELF_AT_EGID => 14,
            AuxVecType::ELF_AT_PLATFORM => 15,
            AuxVecType::ELF_AT_HWCAP => 16,
            AuxVecType::ELF_AT_CLKTCK => 17,
            AuxVecType::ELF_AT_RANDOM => 25,
            AuxVecType::ELF_AT_SYSINFO => 32,
            AuxVecType::ELF_AT_SYSINFO_EHDR => 33,
        }
    }
}

/// Page size announced to the process.
pub const PAGE_SIZE: u64 = 0x1000;

/// The auxiliary vector, in push order, when the random bytes sit at
/// `rand_addr`.
pub open spec fn auxv_spec(rand_addr: u64) -> Seq<(AuxVecType, u64)> {
    seq![
        (AuxVecType::ELF_AT_NULL, 0u64),
        (AuxVecType::ELF_AT_RANDOM, rand_addr),
        (AuxVecType::ELF_AT_EGID, 0u64),
        (AuxVecType::ELF_AT_GID, 0u64),
        (AuxVecType::ELF_AT_EUID, 0u64),
        (AuxVecType::ELF_AT_UID, 0u64),
        (AuxVecType::ELF_AT_FLAGS, 0u64),
        (AuxVecType::ELF_AT_PAGESZ, PAGE_SIZE),
    ]
}

/// The auxiliary vector, in push order, when the random bytes sit at
/// `rand_addr`.
pub fn get_auxv(rand_addr: u64) -> (r: Vec<(AuxVecType, u64)>)
    ensures
        r@ == auxv_spec(rand_addr),
{
    let r = vec![
        (AuxVecType::ELF_AT_NULL, 0u64),
        (AuxVecType::ELF_AT_RANDOM, rand_addr),
        (AuxVecType::ELF_AT_EGID, 0u64),
        (AuxVecType::ELF_AT_GID, 0u64),
        (AuxVecType::ELF_AT_EUID, 0u64),
        (AuxVecType::ELF_AT_UID, 0u64),
        (AuxVecType::ELF_AT_FLAGS, 0u64),
        (AuxVecType::ELF_AT_PAGESZ, PAGE_SIZE),
    ];
    assert(r@ =~= auxv_spec(rand_addr));
    r
}

/// The words pushed on the initial stack, in push order, when the random
/// bytes sit at `rand_addr` and the program name at `name_addr`: the
/// auxiliary vector (value, then key), an empty environment, a one-entry
/// argument vector, and the argument count.
pub open spec fn initial_stack_words(rand_addr: u64, name_addr: u64) -> Seq<u64> {
    Seq::new(16, |i: int| if i % 2 == 0 { auxv_spec(rand_addr)[i / 2].1 } else { auxv_spec(rand_addr)[i / 2].0.spec_code() })
        + seq![0u64, 0u64, name_addr, 1u64]
}

/// Bytes of stack the initial process image takes.
pub const INIT_STACK_NEED: u64 = 16 + 8 * 20;

/// Relies on rand's `random`: sixteen bytes from the thread-local generator.
#[verifier::external_body]
fn random_bytes() -> (r: Vec<u8>)
    ensures
        r@.len() == 16,
{
    rand::random::<[u8; 16]>().to_vec()
}

/// Appends the actions that build the initial stack from stack pointer
/// `sp`: the sixteen random bytes `rand`, then the words of
/// `initial_stack_words`, each pushed in turn. The program name is laid
/// out with `names`. Returns the final stack pointer.
pub fn init_stack(plan: &mut Vec<EmuAction>, sp: u64, rand: &Vec<u8>, names: &mut DataWriter) -> (r: Result<u64, Error>)
    requires
        old(names).wf(),
        rand@.len() == 16,
        sp >= INIT_STACK_NEED,
    ensures
        final(names).wf(),
        final(names).base() == old(names).base(),
        final(names).limit() == old(names).limit(),
        old(names).ptr() + 5 <= old(names).limit() ==> (r matches Ok(new_sp) && new_sp == sp - INIT_STACK_NEED && ({
            let name_addr = old(names).ptr() as u64;
            let words = initial_stack_words((sp - 16) as u64, name_addr);
            let n = old(plan)@.len() as int;
            &&& final(names).written() == old(names).written() + seq![0x2fu8, 0x65u8, 0x6du8, 0x75u8, 0u8]
            &&& final(plan)@.len() == n + 2 + 2 * words.len()
            &&& final(plan)@.subrange(0, n) == old(plan)@
            &&& final(plan)@[n] == (EmuAction::SetReg { reg: Reg::Rsp, value: (sp - 16) as u64 })
            &&& final(plan)@[n + 1] is Write && final(plan)@[n + 1]->Write_addr == sp - 16 && final(plan)@[n + 1]->Write_bytes@ == rand@
            &&& forall|i: int| 0 <= i < words.len() ==> {
                &&& #[trigger] final(plan)@[n + 2 + 2 * i] == (EmuAction::SetReg { reg: Reg::Rsp, value: (sp - 16 - 8 * (i + 1)) as u64 })
                &&& final(plan)@[n + 3 + 2 * i] is Write
                &&& final(plan)@[n + 3 + 2 * i]->Write_addr == sp - 16 - 8 * (i + 1)
                &&& final(plan)@[n + 3 + 2 * i]->Write_bytes@ == spec_u64_to_le_bytes(words[i])
            }
        })),
        old(names).ptr() + 5 > old(names).limit() ==> r == Err::<u64, Error>(Error::OutOfRegion),
{
    let name = vec![0x2fu8, 0x65u8, 0x6du8, 0x75u8, 0u8];
    assert(name@ =~= seq![0x2fu8, 0x65u8, 0x6du8, 0x75u8, 0u8]);
    let name_addr = names.write_data(name.as_slice())?;
    let ghost n: int = plan@.len() as int;
    let rand_addr = sp - 16;
    plan.push(EmuAction::SetReg { reg: Reg::Rsp, value: rand_addr });
    plan.push(EmuAction::Write { addr: rand_addr, bytes: vstd::slice::slice_to_vec(rand.as_slice()) });
    let auxv = get_auxv(rand_addr);
    let mut words: Vec<u64> = Vec::new();
    let mut k: usize = 0;
    while k < auxv.len()
        invariant
            k <= auxv@.len(),
            auxv@ == auxv_spec(rand_addr),
            words@.len() == 2 * k,
            forall|i: int| 0 <= i < 2 * k ==> #[trigger] words@[i] == initial_stack_words(rand_addr, name_addr)[i],
        decreases auxv@.len() - k,
    {
        words.push(auxv[k].1);
        words.push(auxv[k].0.code());
        k = k + 1;
    }
    words.push(0);
    words.push(0);
    words.push(name_addr);
    words.push(1);
    let ghost ws = initial_stack_words(rand_addr, name_addr);
    assert(words@ =~= ws);
    let mut cur = rand_addr;
    let mut i: usize = 0;
    let ghost base = plan@;
    while i < words.len()
        invariant
            i <= words@.len(),
            words@ == ws,
            ws.len() == 20,
            rand_addr == sp - 16,
            sp >= INIT_STACK_NEED,
            cur == rand_addr - 8 * i,
            plan@.len() == n + 2 + 2 * i,
            base.len() == n + 2,
            plan@.subrange(0, n + 2) == base.subrange(0, n + 2),
            forall|j: int| 0 <= j < i ==> {
                &&& #[trigger] plan@[n + 2 + 2 * j] == (EmuAction::SetReg { reg: Reg::Rsp, value: (sp - 16 - 8 * (j + 1)) as u64 })
                &&& plan@[n + 3 + 2 * j] is Write
                &&& plan@[n + 3 + 2 * j]->Write_addr == sp - 16 - 8 * (j + 1)
                &&& plan@[n + 3 + 2 * j]->Write_bytes@ == spec_u64_to_le_bytes(ws[j])
            },
        decreases words@.len() - i,
    {
        let ghost before = plan@;
        cur = stack_push(plan, cur, words[i]);
        proof {
            assert(plan@.subrange(0, n + 2) =~= before.subrange(0, n + 2));
            assert forall|j: int| 0 <= j < i + 1 implies {
                &&& #[trigger] plan@[n + 2 + 2 * j] == (EmuAction::SetReg { reg: Reg::Rsp, value: (sp - 16 - 8 * (j + 1)) as u64 })
                &&& plan@[n + 3 + 2 * j] is Write
                &&& plan@[n + 3 + 2 * j]->Write_addr == sp - 16 - 8 * (j + 1)
                &&& plan@[n + 3 + 2 * j]->Write_bytes@ == spec_u64_to_le_bytes(ws[j])
            } by {
                if j < i {
                    let sub = plan@.subrange(0, before.len() as int);
                    assert(plan@[n + 2 + 2 * j] == sub[n + 2 + 2 * j]);
                    assert(plan@[n + 3 + 2 * j] == sub[n + 3 + 2 * j]);
                }
            }
        }
        i = i + 1;
    }
    proof {
        assert(plan@.subrange(0, n as int) =~= base.subrange(0, n + 2).subrange(0, n as int));
        assert(plan@[n as int] == plan@.subrange(0, n + 2)[n as int]);
        assert(plan@[n + 1] == plan@.subrange(0, n + 2)[n + 1]);
    }
    Ok(cur)
}

/// Model-specific register that holds the FS segment base.
pub const MSR_FS_BASE: u64 = 0xC0000100;
/// System call number of `brk`.
pub const SYS_BRK: u64 = 12;
/// System call number of `writev`.
pub const SYS_WRITEV: u64 = 20;
/// System call number of `uname`.
pub const SYS_UNAME: u64 = 63;
/// System call number of `arch_prctl`.
pub const SYS_ARCH_PRCTL: u64 = 158;
/// `arch_prctl` code that sets the FS base.
pub const ARCH_SET_FS: u64 = 0x1002;
/// Size of one field of the `uname` record.
pub const UNAME_FIELD: usize = 64;

/// The injected code that sets the FS base from `edx:eax` (`wrmsr`), then
/// reloads `rax`, `rcx` and `rdx` with the given values and returns.
pub open spec fn fs_shellcode_spec(rax: u64, rcx: u64, rdx: u64) -> Seq<u8> {
    seq![0x0fu8, 0x30u8, 0x48u8, 0xb8u8] + spec_u64_to_le_bytes(rax) + seq![0x48u8, 0xb9u8]
        + spec_u64_to_le_bytes(rcx) + seq![0x48u8, 0xbau8] + spec_u64_to_le_bytes(rdx) + seq![0xc3u8]
}

fn append_bytes(out: &mut Vec<u8>, bytes: &[u8])
    ensures
        final(out)@ == old(out)@ + bytes@,
{
    let mut tail = vstd::slice::slice_to_vec(bytes);
    out.append(&mut tail);
}

/// The injected code that sets the FS base and restores `rax`, `rcx` and
/// `rdx` to the given values.
pub fn fs_shellcode(rax: u64, rcx: u64, rdx: u64) -> (r: Vec<u8>)
    ensures
        r@ == fs_shellcode_spec(rax, rcx, rdx),
{
    let mut code = vec![0x0fu8, 0x30u8, 0x48u8, 0xb8u8];
    append_bytes(&mut code, native_pack(rax).as_slice());
    append_bytes(&mut code, vec![0x48u8, 0xb9u8].as_slice());
    append_bytes(&mut code, native_pack(rcx).as_slice());
    append_bytes(&mut code, vec![0x48u8, 0xbau8].as_slice());
    append_bytes(&mut code, native_pack(rdx).as_slice());
    code.push(0xc3u8);
    assert(code@ =~= fs_shellcode_spec(rax, rcx, rdx));
    code
}

/// The actions that set the FS base to `fs` outside any system call: load
/// the operands, inject `wrmsr`, and run it.
pub open spec fn is_fs_base_plan(plan: Seq<EmuAction>, fs: u64) -> bool {
    &&& plan.len() == 5
    &&& plan[0] == (EmuAction::SetReg { reg: Reg::Rax, value: fs & 0xffffffff })
    &&& plan[1] == (EmuAction::SetReg { reg: Reg::Rdx, value: (fs >> 32) & 0xffffffff })
    &&& plan[2] == (EmuAction::SetReg { reg: Reg::Rcx, value: MSR_FS_BASE })
    &&& plan[3] is Write && plan[3]->Write_addr == SHELLCODE_ADDR && plan[3]->Write_bytes@ == seq![0x0fu8, 0x30u8]
    &&& plan[4] == (EmuAction::Run { start: SHELLCODE_ADDR, until: (SHELLCODE_ADDR + 2) as u64 })
}

/// Actions that run `code` from the start of the code-injection region:
/// write it there, then run it to its end.
pub fn run_shellcode(code: Vec<u8>) -> (r: Vec<EmuAction>)
    requires
        code@.len() <= SHELLCODE_SIZE,
    ensures
        r@.len() == 2,
        r@[0] is Write && r@[0]->Write_addr == SHELLCODE_ADDR && r@[0]->Write_bytes@ == code@,
        r@[1] == (EmuAction::Run { start: SHELLCODE_ADDR, until: (SHELLCODE_ADDR + code@.len()) as u64 }),
{
    let end = SHELLCODE_ADDR + code.len() as u64;
    vec![EmuAction::Write { addr: SHELLCODE_ADDR, bytes: code }, EmuAction::Run { start: SHELLCODE_ADDR, until: end }]
}

/// Actions that set the FS base to `fs` outside any system call.
pub fn fs_base_plan(fs: u64) -> (r: Vec<EmuAction>)
    ensures
        is_fs_base_plan(r@, fs),
{
    let code = vec![0x0fu8, 0x30u8];
    assert(code@ =~= seq![0x0fu8, 0x30u8]);
    let mut r = vec![
        EmuAction::SetReg { reg: Reg::Rax, value: fs & 0xffffffff },
        EmuAction::SetReg { reg: Reg::Rdx, value: (fs >> 32) & 0xffffffff },
        EmuAction::SetReg { reg: Reg::Rcx, value: MSR_FS_BASE },
    ];
    let mut run = run_shellcode(code);
    r.append(&mut run);
    r
}

/// The registers a system call is dispatched on.
#[derive(Debug, Clone, Copy)]
pub struct SyscallRegs {
    /// Address of the trapping instruction.
    pub rip: u64,
    /// System call number.
    pub rax: u64,
    pub rdi: u64,
    pub rsi: u64,
    pub rdx: u64,
    pub r10: u64,
    pub r8: u64,
    pub r9: u64,
    pub rcx: u64,
    pub rsp: u64,
}

/// The actions that set the FS base to `fs` from inside a system call whose
/// trap is at `rip`: return value zero, push the address after the trap,
/// load the `wrmsr` operands, inject code that restores `rax`, `rcx` and
/// `rdx` and returns, and resume at it (the emulator resumes two bytes past
/// the instruction pointer set from a system-call hook).
pub open spec fn is_set_fs_plan(plan: Seq<EmuAction>, fs: u64, regs: SyscallRegs) -> bool {
    &&& plan.len() == 8
    &&& plan[0] == (EmuAction::SetReg { reg: Reg::Rax, value: 0 })
    &&& plan[1] == (EmuAction::SetReg { reg: Reg::Rsp, value: (regs.rsp - 8) as u64 })
    &&& plan[2] is Write && plan[2]->Write_addr == regs.rsp - 8
        && plan[2]->Write_bytes@ == spec_u64_to_le_bytes((regs.rip + 2) as u64)
    &&& plan[3] == (EmuAction::SetReg { reg: Reg::Rax, value: fs & 0xffffffff })
    &&& plan[4] == (EmuAction::SetReg { reg: Reg::Rdx, value: (fs >> 32) & 0xffffffff })
    &&& plan[5] == (EmuAction::SetReg { reg: Reg::Rcx, value: MSR_FS_BASE })
    &&& plan[6] is Write && plan[6]->Write_addr == SHELLCODE_ADDR
        && plan[6]->Write_bytes@ == fs_shellcode_spec(0, regs.rcx, regs.rdx)
    &&& plan[7] == (EmuAction::SetReg { reg: Reg::Rip, value: (SHELLCODE_ADDR - 2) as u64 })
}

/// Actions that set the FS base to `fs` from inside a system call.
pub fn set_fs(fs: u64, regs: &SyscallRegs) -> (r: Vec<EmuAction>)
    requires
        regs.rsp >= 8,
        regs.rip + 2 <= u64::MAX,
    ensures
        is_set_fs_plan(r@, fs, *regs),
{
    let plan = vec![
        EmuAction::SetReg { reg: Reg::Rax, value: 0 },
        EmuAction::SetReg { reg: Reg::Rsp, value: regs.rsp - 8 },
        EmuAction::Write { addr: regs.rsp - 8, bytes: native_pack(regs.rip + 2) },
        EmuAction::SetReg { reg: Reg::Rax, value: fs & 0xffffffff },
        EmuAction::SetReg { reg: Reg::Rdx, value: (fs >> 32) & 0xffffffff },
        EmuAction::SetReg { reg: Reg::Rcx, value: MSR_FS_BASE },
        EmuAction::Write { addr: SHELLCODE_ADDR, bytes: fs_shellcode(0, regs.rcx, regs.rdx) },
        EmuAction::SetReg { reg: Reg::Rip, value: SHELLCODE_ADDR - 2 },
    ];
    plan
}

/// `s` cut or zero-padded to one `uname` field.
pub open spec fn pad_field(s: Seq<u8>) -> Seq<u8> {
    Seq::new(UNAME_FIELD as nat, |i: int| if i < s.len() { s[i] } else { 0u8 })
}

/// The `uname` record: system, node, release, version, machine, domain.
pub open spec fn uname_spec() -> Seq<u8> {
    pad_field("Linux".spec_bytes()) + pad_field("dirt".spec_bytes()) + pad_field("4.6.2-1-ARCH".spec_bytes())
        + pad_field("#1 SMP PREEMPT Wed Jun 8 08:40:59 CEST 2016".spec_bytes()) + pad_field("x86_64".spec_bytes())
        + pad_field("GNU/Linux".spec_bytes())
}

fn append_field(out: &mut Vec<u8>, s: &str)
    ensures
        final(out)@ == old(out)@ + pad_field(s.spec_bytes()),
{
    let b = s.as_bytes();
    let ghost start = out@;
    let mut i: usize = 0;
    while i < UNAME_FIELD
        invariant
            i <= UNAME_FIELD,
            b@ == s.spec_bytes(),
            out@ == start + pad_field(b@).subrange(0, i as int),
        decreases UNAME_FIELD - i,
    {
        let c = if i < b.len() {
            b[i]
        } else {
            0u8
        };
        out.push(c);
        i = i + 1;
        assert(out@ =~= start + pad_field(b@).subrange(0, i as int));
    }
    assert(pad_field(b@).subrange(0, UNAME_FIELD as int) =~= pad_field(b@));
}

/// The `uname` record.
pub fn uname_bytes() -> (r: Vec<u8>)
    ensures
        r@ == uname_spec(),
{
    let mut out: Vec<u8> = Vec::new();
    append_field(&mut out, "Linux");
    append_field(&mut out, "dirt");
    append_field(&mut out, "4.6.2-1-ARCH");
    append_field(&mut out, "#1 SMP PREEMPT Wed Jun 8 08:40:59 CEST 2016");
    append_field(&mut out, "x86_64");
    append_field(&mut out, "GNU/Linux");
    assert(out@ =~= uname_spec());
    out
}

/// Sum of the lengths in the first `count` descriptors of a `writev`
/// descriptor table (pointer, then length, eight bytes each), or `None`
/// when the table holds fewer descriptors.
pub open spec fn iov_total(table: Seq<u8>, count: int) -> Option<int>
    decreases count,
{
    if count <= 0 {
        Some(0)
    } else if table.len() < 16 * count {
        None
    } else {
        match iov_total(table, count - 1) {
            Some(t) => Some(t + vstd::bytes::spec_u64_from_le_bytes(
                table.subrange(16 * (count - 1) + 8, 16 * (count - 1) + 16),
            ) as int),
            None => None,
        }
    }
}

/// The value `writev` returns: the total length, or all ones (an error)
/// when the table is incomplete or the total does not fit a word.
pub open spec fn writev_result(table: Seq<u8>, count: int) -> u64 {
    match iov_total(table, count) {
        Some(t) => if t <= u64::MAX {
            t as u64
        } else {
            u64::MAX
        },
        None => u64::MAX,
    }
}

fn writev_total(table: &[u8], count: u64) -> (r: u64)
    ensures
        r == writev_result(table@, count as int),
{
    let mut total: u64 = 0;
    let mut over = false;
    let mut i: u64 = 0;
    while i < count
        invariant
            i <= count,
            iov_total(table@, i as int) is Some,
            !over ==> iov_total(table@, i as int) == Some(total as int),
            over ==> iov_total(table@, i as int)->Some_0 > u64::MAX,
        decreases count - i,
    {
        if (table.len() as u64) / 16 <= i {
            proof {
                assert(table@.len() < 16 * (i + 1));
                assert(iov_total(table@, i + 1) is None);
                lemma_iov_none_after(table@, i + 1, count as int);
            }
            return u64::MAX;
        }
        proof {
            assert(table@.len() >= 16 * (i + 1)) by (nonlinear_arith)
                requires
                    (table@.len() as u64) / 16 > i,
                    table@.len() <= usize::MAX,
            ;
        }
        let start = (16 * i + 8) as usize;
        let field = &table[start..start + 8];
        assert(field@.subrange(0, 8) =~= table@.subrange(16 * i + 8, 16 * i + 16));
        let len = native_unpack(field);
        assert(table@.subrange(start as int, start + 8) =~= table@.subrange(16 * i + 8, 16 * i + 16));
        proof {
            lemma_iov_nonneg(table@, i as int);
            assert(iov_total(table@, i + 1) == Some(iov_total(table@, i as int)->Some_0 + len as int));
        }
        if !over {
            if len > u64::MAX - total {
                over = true;
            } else {
                total = total + len;
            }
        }
        i = i + 1;
    }
    if over {
        u64::MAX
    } else {
        total
    }
}

proof fn lemma_iov_nonneg(table: Seq<u8>, count: int)
    ensures
        iov_total(table, count) matches Some(t) ==> t >= 0,
    decreases count,
{
    if count > 0 {
        lemma_iov_nonneg(table, count - 1);
    }
}

proof fn lemma_iov_none_after(table: Seq<u8>, i: int, count: int)
    requires
        iov_total(table, i) is None,
        i <= count,
    ensures
        iov_total(table, count) is None,
    decreases count - i,
{
    if i < count {
        lemma_iov_none_after(table, i, count - 1);
    }
}

/// Whether a system call sets the FS base in a way the shim can carry out.
pub open spec fn is_set_fs_call(regs: SyscallRegs) -> bool {
    regs.rax == SYS_ARCH_PRCTL && regs.rdi == ARCH_SET_FS && regs.rsp >= 8 && regs.rip + 2 <= u64::MAX
}

/// The value a system call returns in `rax`, with the program break at
/// `brk` and `table` the memory the shim asked to read. `brk` with a null
/// argument reports the break, otherwise moves it; `writev` reports the
/// total length; a FS-base change that cannot be carried out fails; every
/// other call succeeds with no effect.
pub open spec fn syscall_return(brk: u64, regs: SyscallRegs, table: Seq<u8>) -> u64 {
    if regs.rax == SYS_BRK {
        if regs.rdi == 0 {
            brk
        } else {
            regs.rdi
        }
    } else if regs.rax == SYS_WRITEV {
        writev_result(table, regs.rdx as int)
    } else if regs.rax == SYS_ARCH_PRCTL && regs.rdi == ARCH_SET_FS && !is_set_fs_call(regs) {
        u64::MAX
    } else {
        0
    }
}

/// The program break after a system call.
pub open spec fn next_brk(brk: u64, regs: SyscallRegs) -> u64 {
    if regs.rax == SYS_BRK && regs.rdi != 0 {
        regs.rdi
    } else {
        brk
    }
}

/// The emulated kernel: the scalar state of the system-call shim.
pub struct LinuxKernel {
    brk_ptr: u64,
}

impl LinuxKernel {
    /// The current program break.
    pub closed spec fn brk(self) -> u64 {
        self.brk_ptr
    }

    /// A kernel whose program break is at the start of the heap.
    pub fn new() -> (r: LinuxKernel)
        ensures
            r.brk() == BRK_ADDR,
    {
        LinuxKernel { brk_ptr: BRK_ADDR }
    }

    /// The current program break.
    pub fn brk_ptr(&self) -> (r: u64)
        ensures
            r == self.brk(),
    {
        self.brk_ptr
    }

    /// Puts the program break back at the start of the heap, as before any
    /// probe.
    pub fn reset(&mut self)
        ensures
            final(self).brk() == BRK_ADDR,
    {
        self.brk_ptr = BRK_ADDR;
    }

    /// The memory the shim needs to see to handle a system call, as
    /// (address, length): the descriptor table of `writev`.
    pub fn syscall_reads(&self, regs: &SyscallRegs) -> (r: Option<(u64, u64)>)
        ensures
            regs.rax == SYS_WRITEV && regs.rdx <= u64::MAX / 16 ==> r == Some((regs.rsi, (16 * regs.rdx) as u64)),
            !(regs.rax == SYS_WRITEV && regs.rdx <= u64::MAX / 16) ==> r is None,
    {
        if regs.rax == SYS_WRITEV && regs.rdx <= u64::MAX / 16 {
            Some((regs.rsi, 16 * regs.rdx))
        } else {
            None
        }
    }

    /// Handles a trapped system call and returns the actions that complete
    /// it; `table` is the memory asked for by `syscall_reads`, or empty.
    /// `uname` fills the caller's buffer; setting the FS base runs injected
    /// code and resumes after the trap; the others set the return value.
    pub fn on_syscall(&mut self, regs: &SyscallRegs, table: &[u8]) -> (r: Vec<EmuAction>)
        ensures
            final(self).brk() == next_brk(old(self).brk(), *regs),
            is_set_fs_call(*regs) ==> is_set_fs_plan(r@, regs.rsi, *regs),
            regs.rax == SYS_UNAME ==> r@.len() == 2 && r@[0] is Write && r@[0]->Write_addr == regs.rdi
                && r@[0]->Write_bytes@ == uname_spec() && r@[1] == (EmuAction::SetReg { reg: Reg::Rax, value: 0 }),
            regs.rax != SYS_UNAME && !is_set_fs_call(*regs) ==> r@ == seq![
                EmuAction::SetReg { reg: Reg::Rax, value: syscall_return(old(self).brk(), *regs, table@) },
            ],
    {
        if regs.rax == SYS_ARCH_PRCTL && regs.rdi == ARCH_SET_FS && regs.rsp >= 8 && regs.rip <= u64::MAX - 2 {
            return set_fs(regs.rsi, regs);
        }
        if regs.rax == SYS_UNAME {
            return vec![
                EmuAction::Write { addr: regs.rdi, bytes: uname_bytes() },
                EmuAction::SetReg { reg: Reg::Rax, value: 0 },
            ];
        }
        let result = if regs.rax == SYS_BRK {
            if regs.rdi == 0 {
                self.brk_ptr
            } else {
                self.brk_ptr = regs.rdi;
                regs.rdi
            }
        } else if regs.rax == SYS_WRITEV {
            writev_total(table, regs.rdx)
        } else if regs.rax == SYS_ARCH_PRCTL && regs.rdi == ARCH_SET_FS {
            u64::MAX
        } else {
            0
        };
        let r = vec![EmuAction::SetReg { reg: Reg::Rax, value: result }];
        assert(r@ =~= seq![EmuAction::SetReg { reg: Reg::Rax, value: result }]);
        r
    }
}

/// Sets up the Linux process environment.
pub struct LinuxEnv {}

impl LinuxEnv {
    /// Registers the heap region and returns the kernel state with the
    /// action that maps the heap. Fails when the heap region cannot be
    /// registered.
    pub fn attach(&self, vmstate: &mut VmState) -> (r: Result<(LinuxKernel, EmuAction), Error>)
        requires
            old(vmstate).wf(),
        ensures
            final(vmstate).wf(),
            final(vmstate).stack_view() == old(vmstate).stack_view(),
            final(vmstate).emudata_view() == old(vmstate).emudata_view(),
            final(vmstate).shellcode_view() == old(vmstate).shellcode_view(),
            final(vmstate).snapshot_view() == old(vmstate).snapshot_view(),
            !has_name(old(vmstate).regions_view(), "[heap]"@) && range_free(old(vmstate).regions_view(), BRK_ADDR, BRK_SIZE)
                ==> r is Ok,
            r is Ok ==> final(vmstate).regions_view().len() == old(vmstate).regions_view().len() + 1
                && final(vmstate).regions_view().drop_last() == old(vmstate).regions_view()
                && final(vmstate).regions_view().last().addr == BRK_ADDR
                && final(vmstate).regions_view().last().size == BRK_SIZE
                && final(vmstate).regions_view().last().name@ == "[heap]"@
                && final(vmstate).regions_view().last().flags == (PROT_READ | PROT_WRITE),
            r matches Ok((k, a)) ==> k.brk() == BRK_ADDR && a == (EmuAction::MapRegion {
                addr: BRK_ADDR,
                size: BRK_SIZE,
                perms: PROT_READ | PROT_WRITE,
            }),
    {
        proof {
            reveal_strlit("[heap]");
        }
        let kernel = LinuxKernel::new();
        let ghost rs = vmstate.regions_view();
        let a = vmstate.mem_map(MemMap {
            addr: BRK_ADDR,
            size: BRK_SIZE,
            name: "[heap]".to_owned(),
            flags: PROT_READ | PROT_WRITE,
        })?;
        assert(vmstate.regions_view().drop_last() =~= rs);
        Ok((kernel, a))
    }
}

/// Whether `plan` builds the process image with the stack pointer starting
/// at `sp`: map the environment and thread-local storage regions, point the
/// FS base at the latter, lay out the initial stack (sixteen random bytes,
/// then the words of `initial_stack_words`, the program name sitting at the
/// start of the environment region), store the name, then run from
/// `start_fva` to `main_fva`.
pub open spec fn is_init_state_plan(plan: Seq<EmuAction>, sp: u64, start_fva: u64, main_fva: u64) -> bool {
    let words = initial_stack_words((sp - 16) as u64, KERNEL_ADDR);
    &&& plan.len() == 51
    &&& plan[0] == (EmuAction::MapRegion { addr: KERNEL_ADDR, size: KERNEL_SIZE, perms: PROT_READ | PROT_WRITE })
    &&& plan[1] == (EmuAction::MapRegion { addr: TLS_ADDR, size: TLS_SIZE, perms: PROT_READ | PROT_WRITE })
    &&& is_fs_base_plan(plan.subrange(2, 7), TLS_ADDR)
    &&& plan[7] == (EmuAction::SetReg { reg: Reg::Rsp, value: (sp - 16) as u64 })
    &&& plan[8] is Write && plan[8]->Write_addr == sp - 16 && plan[8]->Write_bytes@.len() == 16
    &&& forall|i: int| 0 <= i < 20 ==> {
        &&& #[trigger] plan[9 + 2 * i] == (EmuAction::SetReg { reg: Reg::Rsp, value: (sp - 16 - 8 * (i + 1)) as u64 })
        &&& plan[10 + 2 * i] is Write
        &&& plan[10 + 2 * i]->Write_addr == sp - 16 - 8 * (i + 1)
        &&& plan[10 + 2 * i]->Write_bytes@ == spec_u64_to_le_bytes(words[i])
    }
    &&& plan[49] is Write && plan[49]->Write_addr == KERNEL_ADDR
    &&& plan[49]->Write_bytes@ == seq![0x2fu8, 0x65u8, 0x6du8, 0x75u8, 0u8]
    &&& plan[50] == (EmuAction::Run { start: start_fva, until: main_fva })
}

/// Registers the environment and thread-local storage regions and returns
/// the actions that build the process image: map both regions, point the
/// FS base at the thread-local storage, lay out the initial stack from the
/// top of the stack (with sixteen random bytes), store the program name in
/// the environment region, and run the program from `start_fva` up to
/// `main_fva` so that its static initialisers run.
pub fn init_state(vmstate: &mut VmState, start_fva: u64, main_fva: u64) -> (r: Result<Vec<EmuAction>, Error>)
    requires
        old(vmstate).wf(),
    ensures
        final(vmstate).wf(),
        final(vmstate).stack_view() == old(vmstate).stack_view(),
        final(vmstate).emudata_view() == old(vmstate).emudata_view(),
        final(vmstate).shellcode_view() == old(vmstate).shellcode_view(),
        final(vmstate).snapshot_view() == old(vmstate).snapshot_view(),
        old(vmstate).stack_view() is None ==> r == Err::<Vec<EmuAction>, Error>(Error::StackUninitialized),
        ({
            let rs = old(vmstate).regions_view();
            &&& old(vmstate).stack_view() is Some
            &&& old(vmstate).spec_base_sp()->Some_0 >= INIT_STACK_NEED
            &&& !has_name(rs, "[kernel]"@) && range_free(rs, KERNEL_ADDR, KERNEL_SIZE)
            &&& !has_name(rs, "[tls]"@) && range_free(rs, TLS_ADDR, TLS_SIZE)
        }) ==> r is Ok,
        r is Ok ==> ({
            let rs = old(vmstate).regions_view();
            let fs = final(vmstate).regions_view();
            &&& fs.len() == rs.len() + 2
            &&& fs.subrange(0, rs.len() as int) == rs
            &&& fs[rs.len() as int].addr == KERNEL_ADDR && fs[rs.len() as int].size == KERNEL_SIZE
            &&& fs[rs.len() as int].flags == (PROT_READ | PROT_WRITE) && fs[rs.len() as int].name@ == "[kernel]"@
            &&& fs[rs.len() + 1int].addr == TLS_ADDR && fs[rs.len() + 1int].size == TLS_SIZE
            &&& fs[rs.len() + 1int].flags == (PROT_READ | PROT_WRITE) && fs[rs.len() + 1int].name@ == "[tls]"@
        }),
        r matches Ok(plan) ==> is_init_state_plan(plan@, old(vmstate).spec_base_sp()->Some_0, start_fva, main_fva),
{
    let sp = match vmstate.base_sp() {
        Some(sp) => sp,
        None => return Err(Error::StackUninitialized),
    };
    if sp < INIT_STACK_NEED {
        return Err(Error::OutOfRegion);
    }
    proof {
        reveal_strlit("[kernel]");
        reveal_strlit("[tls]");
    }
    let ghost rs = vmstate.regions_view();
    let mut plan: Vec<EmuAction> = Vec::new();
    let a = vmstate.mem_map(MemMap {
        addr: KERNEL_ADDR,
        size: KERNEL_SIZE,
        name: "[kernel]".to_owned(),
        flags: PROT_READ | PROT_WRITE,
    })?;
    plan.push(a);
    proof {
        let r1 = vmstate.regions_view();
        if !has_name(rs, "[tls]"@) && range_free(rs, TLS_ADDR, TLS_SIZE) {
            assert(r1.len() == rs.len() + 1);
            assert forall|i: int| 0 <= i < r1.len() implies (#[trigger] r1[i]).name@ != "[tls]"@ by {
                if i < rs.len() {
                    assert(r1[i] == rs[i]);
                }
            }
            assert forall|i: int| 0 <= i < r1.len() implies (#[trigger] r1[i]).addr + r1[i].size <= TLS_ADDR || TLS_ADDR
                + TLS_SIZE <= r1[i].addr by {
                if i < rs.len() {
                    assert(r1[i] == rs[i]);
                }
            }
        }
    }
    let a = vmstate.mem_map(MemMap {
        addr: TLS_ADDR,
        size: TLS_SIZE,
        name: "[tls]".to_owned(),
        flags: PROT_READ | PROT_WRITE,
    })?;
    plan.push(a);
    let ghost p2 = plan@;
    let mut tls = fs_base_plan(TLS_ADDR);
    let ghost tv = tls@;
    plan.append(&mut tls);
    let ghost p7 = plan@;
    assert(p7.subrange(2, 7) =~= tv);
    let mut names = DataWriter::new(KERNEL_ADDR, KERNEL_ADDR + KERNEL_SIZE);
    let rand = random_bytes();
    init_stack(&mut plan, sp, &rand, &mut names)?;
    let ghost p49 = plan@;
    plan.push(names.into_action());
    plan.push(EmuAction::Run { start: start_fva, until: main_fva });
    proof {
        assert(p7.len() == 7);
        assert(p49.len() == 49);
        assert(plan@.subrange(0, 49) =~= p49);
        assert(p49.subrange(0, 7) == p7);
        assert(p2.len() == 2);
        assert(p7[0] == p2[0] && p7[1] == p2[1]);
        assert(p49[0] == p7[0] && p49[1] == p7[1]);
        assert(plan@[0] == p49[0] && plan@[1] == p49[1]);
        assert(plan@.subrange(2, 7) =~= p7.subrange(2, 7));
        assert(plan@[7] == p49[7]);
        assert(plan@[8] == p49[8]);
        assert forall|i: int| 0 <= i < 20 implies {
            &&& #[trigger] plan@[9 + 2 * i] == (EmuAction::SetReg { reg: Reg::Rsp, value: (sp - 16 - 8 * (i + 1)) as u64 })
            &&& plan@[10 + 2 * i] is Write
            &&& plan@[10 + 2 * i]->Write_addr == sp - 16 - 8 * (i + 1)
            &&& plan@[10 + 2 * i]->Write_bytes@ == spec_u64_to_le_bytes(initial_stack_words((sp - 16) as u64, KERNEL_ADDR)[i])
        } by {
            assert(plan@[9 + 2 * i] == p49[7 + 2 + 2 * i]);
            assert(plan@[10 + 2 * i] == p49[7 + 3 + 2 * i]);
        }
    }
    Ok(plan)
}

} // verus!
