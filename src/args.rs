//! Argument lists of probed calls and their placement in scratch memory.
use vstd::prelude::*;
use vstd::slice::slice_to_vec;
use crate::datatypes::{DataType, pushable, pushable_bytes};
use crate::emu::Error;
use crate::machine::EmuAction;
use crate::vmstate::VmState;

verus! {

/// The arguments of one probed call, in declaration order.
pub struct EmuArgs {
    argv: Vec<DataType>,
}

/// Bytes laid out when the arguments `vs` are placed in order from `at`.
pub open spec fn args_bytes(vs: Seq<DataType>, at: int) -> Seq<u8>
    decreases vs.len(),
{
    if vs.len() == 0 {
        Seq::empty()
    } else {
        let p = args_bytes(vs.drop_last(), at);
        p + pushable_bytes(vs.last(), at + p.len())
    }
}

/// Values passed for the arguments `vs` placed in order from `at`.
pub open spec fn args_values(vs: Seq<DataType>, at: int) -> Seq<u64>
    decreases vs.len(),
{
    if vs.len() == 0 {
        Seq::empty()
    } else {
        let p = args_bytes(vs.drop_last(), at);
        args_values(vs.drop_last(), at).push(pushable(vs.last(), at + p.len()))
    }
}

/// The layout of a prefix of the arguments is no longer than that of all.
pub proof fn lemma_args_prefix_len(vs: Seq<DataType>, at: int, i: int)
    requires
        0 <= i <= vs.len(),
    ensures
        args_bytes(vs.subrange(0, i), at).len() <= args_bytes(vs, at).len(),
    decreases vs.len(),
{
    if i < vs.len() {
        let p = vs.drop_last();
        lemma_args_prefix_len(p, at, i);
        assert(p.subrange(0, i) =~= vs.subrange(0, i));
    } else {
        assert(vs.subrange(0, i) =~= vs);
    }
}

/// One value per argument has been produced.
pub proof fn lemma_args_values_len(vs: Seq<DataType>, at: int)
    ensures
        args_values(vs, at).len() == vs.len(),
    decreases vs.len(),
{
    if vs.len() > 0 {
        lemma_args_values_len(vs.drop_last(), at);
    }
}

impl EmuArgs {
    /// The arguments, in declaration order.
    pub closed spec fn values(self) -> Seq<DataType> {
        self.argv@
    }

    /// An argument list.
    pub fn new(argv: Vec<DataType>) -> (r: EmuArgs)
        ensures
            r.values() == argv@,
    {
        EmuArgs { argv }
    }

    /// Number of arguments.
    pub fn len(&self) -> (r: usize)
        ensures
            r == self.values().len(),
    {
        self.argv.len()
    }

    /// Places the arguments in the scratch-data region, in declaration
    /// order from its start, and returns the values passed for them with
    /// the write that lays them out. Fails when the region is missing or the
    /// layout does not fit in it.
    pub fn as_pushable(&self, vmstate: &VmState) -> (r: Result<(PushableArgs, EmuAction), Error>)
        requires
            vmstate.wf(),
        ensures
            vmstate.emudata_view() is None ==> r == Err::<(PushableArgs, EmuAction), Error>(
                Error::EmuDataUninitialized,
            ),
            vmstate.emudata_view() matches Some(e) ==> {
                let bytes = args_bytes(self.values(), e.addr as int);
                &&& e.addr + bytes.len() <= e.addr + e.size ==> (r matches Ok((p, a)) && p.values()
                    == args_values(self.values(), e.addr as int) && p.values().len() == self.values().len()
                    && a is Write && a->Write_addr == e.addr && a->Write_bytes@ == bytes)
                &&& e.addr + bytes.len() > e.addr + e.size ==> r == Err::<(PushableArgs, EmuAction), Error>(
                    Error::OutOfRegion,
                )
            },
    {
        let mut w = vmstate.emudata_writer()?;
        let at = w.current_ptr();
        let ghost vs = self.argv@;
        let ghost w0 = w;
        let mut values: Vec<u64> = Vec::new();
        let mut i: usize = 0;
        while i < self.argv.len()
            invariant
                i <= vs.len(),
                vs == self.argv@,
                w.wf(),
                w.base() == w0.base(),
                w.limit() == w0.limit(),
                at == w0.ptr(),
                w0.written() == Seq::<u8>::empty(),
                vmstate.emudata_view() is Some,
                w0.base() == vmstate.emudata_view()->Some_0.addr,
                w0.limit() == vmstate.emudata_view()->Some_0.addr + vmstate.emudata_view()->Some_0.size,
                w.written() == args_bytes(vs.subrange(0, i as int), at as int),
                values@ == args_values(vs.subrange(0, i as int), at as int),
            decreases vs.len() - i,
        {
            proof {
                assert(vs.subrange(0, i + 1).drop_last() =~= vs.subrange(0, i as int));
                assert(vs.subrange(0, i + 1).last() == vs[i as int]);
                lemma_args_prefix_len(vs, at as int, i + 1);
            }
            let v = self.argv[i].pushable_value(&mut w)?;
            values.push(v);
            i = i + 1;
            proof {
                assert(w.written() =~= args_bytes(vs.subrange(0, i as int), at as int));
            }
        }
        assert(vs.subrange(0, vs.len() as int) =~= vs);
        proof {
            lemma_args_values_len(vs, at as int);
        }
        Ok((PushableArgs { argv: values }, w.into_action()))
    }
}

/// The values passed for the arguments of one probed call.
pub struct PushableArgs {
    argv: Vec<u64>,
}

impl PushableArgs {
    /// The passed values, in declaration order.
    pub closed spec fn values(self) -> Seq<u64> {
        self.argv@
    }

    /// A list of passed values.
    pub fn new(argv: Vec<u64>) -> (r: PushableArgs)
        ensures
            r.values() == argv@,
    {
        PushableArgs { argv }
    }

    /// The passed values, in declaration order.
    pub fn pushed_args(&self) -> (r: Vec<u64>)
        ensures
            r@ == self.values(),
    {
        slice_to_vec(self.argv.as_slice())
    }

    /// Number of passed values.
    pub fn len(&self) -> (r: usize)
        ensures
            r == self.values().len(),
    {
        self.argv.len()
    }

    /// The value passed for argument `n`.
    pub fn nth(&self, n: usize) -> (r: u64)
        requires
            n < self.values().len(),
        ensures
            r == self.values()[n as int],
    {
        self.argv[n]
    }
}

} // verus!
