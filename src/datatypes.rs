//! Abstract argument values and how they are laid out in emulated memory.
use vstd::prelude::*;
use vstd::slice::slice_to_vec;
use vstd::bytes::spec_u64_to_le_bytes;
use vstd::string::StringSliceAdditionalSpecFns;
use crate::emu::Error;
use crate::vmstate::DataWriter;

verus! {

/// A NUL-terminated text argument.
#[derive(Debug)]
pub struct StringData {
    value: Vec<u8>,
}

impl StringData {
    /// The bytes of the text, without terminator.
    pub closed spec fn bytes(self) -> Seq<u8> {
        self.value@
    }

    /// A text argument holding the UTF-8 bytes of `value`.
    pub fn new(value: &str) -> (r: StringData)
        ensures
            r.bytes() == value.spec_bytes(),
    {
        StringData { value: slice_to_vec(value.as_bytes()) }
    }
}

/// A buffer argument of `size` bytes, holding `data` (cut or zero-padded
/// to `size`) or zeros.
#[derive(Debug)]
pub struct BufData {
    size: u64,
    data: Option<Vec<u8>>,
}

/// The bytes of a buffer of `size` bytes that starts with `data`.
pub open spec fn buf_bytes(size: u64, data: Option<Seq<u8>>) -> Seq<u8> {
    Seq::new(
        size as nat,
        |i: int|
            match data {
                Some(d) => if i < d.len() {
                    d[i]
                } else {
                    0u8
                },
                None => 0u8,
            },
    )
}

impl BufData {
    /// Size of the buffer.
    pub closed spec fn size(self) -> u64 {
        self.size
    }

    /// Initial content of the buffer, if given.
    pub closed spec fn content(self) -> Option<Seq<u8>> {
        match self.data {
            Some(d) => Some(d@),
            None => None,
        }
    }

    /// A buffer argument of `size` bytes with optional initial content.
    pub fn new(size: u64, data: Option<Vec<u8>>) -> (r: BufData)
        ensures
            r.size() == size,
            r.content() == (match data {
                Some(d) => Some(d@),
                None => None::<Seq<u8>>,
            }),
    {
        BufData { size, data }
    }

    /// The bytes the buffer is laid out as. Fails when they would not fit
    /// in `room` bytes.
    fn materialize(&self, room: u64) -> (r: Result<Vec<u8>, Error>)
        ensures
            self.size() <= room ==> (r matches Ok(v) && v@ == buf_bytes(self.size(), self.content())),
            self.size() > room ==> r == Err::<Vec<u8>, Error>(Error::OutOfRegion),
    {
        if self.size > room {
            return Err(Error::OutOfRegion);
        }
        let mut out: Vec<u8> = Vec::new();
        let mut i: u64 = 0;
        while i < self.size
            invariant
                i <= self.size,
                out@ == buf_bytes(self.size, self.content()).subrange(0, i as int),
            decreases self.size - i,
        {
            let b: u8 = match &self.data {
                Some(d) => if (i as usize) < d.len() && i < d.len() as u64 {
                    d[i as usize]
                } else {
                    0u8
                },
                None => 0u8,
            };
            out.push(b);
            i = i + 1;
            assert(out@ =~= buf_bytes(self.size, self.content()).subrange(0, i as int));
        }
        assert(out@ =~= buf_bytes(self.size, self.content()));
        Ok(out)
    }
}

/// An integer argument, passed by value; as a field, a machine word.
#[derive(Debug)]
pub struct IntegerData(pub u64);

/// A structure laid out field after field; passed as its address.
#[derive(Debug)]
pub struct CompositeData {
    fields: Vec<DataType>,
}

impl CompositeData {
    /// The fields, in layout order.
    pub closed spec fn fields(self) -> Seq<DataType> {
        self.fields@
    }

    /// A structure with the given fields.
    pub fn new(fields: Vec<DataType>) -> (r: CompositeData)
        ensures
            r.fields() == fields@,
    {
        CompositeData { fields }
    }
}

/// A pointer `offset` bytes past the cursor, before anything further is
/// laid out; as a field, that pointer stored as a machine word.
#[derive(Debug)]
pub struct ThisOffsetData(pub u64);

/// A byte argument, passed by value; as a field, one byte.
#[derive(Debug)]
pub struct ByteData(pub u8);

/// One argument of a probed call, before it is placed in memory.
#[derive(Debug)]
pub enum DataType {
    Integer(IntegerData),
    Byte(ByteData),
    Buffer(BufData),
    Text(StringData),
    ThisOffset(ThisOffsetData),
    Composite(CompositeData),
}

/// Bytes laid out for `v` as a field of a structure placed at `at`.
pub open spec fn field_bytes(v: DataType, at: int) -> Seq<u8>
    decreases v, 1int,
{
    match v {
        DataType::Integer(i) => spec_u64_to_le_bytes(i.0),
        DataType::Byte(b) => seq![b.0],
        DataType::Buffer(b) => buf_bytes(b.size(), b.content()),
        DataType::Text(s) => s.bytes().push(0u8),
        DataType::ThisOffset(o) => spec_u64_to_le_bytes(offset_ptr(at, o.0)),
        DataType::Composite(c) => fields_bytes(c.fields(), at),
    }
}

/// Bytes laid out for a sequence of fields starting at `at`.
pub open spec fn fields_bytes(fs: Seq<DataType>, at: int) -> Seq<u8>
    decreases fs, 0int,
{
    if fs.len() == 0 {
        Seq::empty()
    } else {
        let p = fields_bytes(fs.drop_last(), at);
        p + field_bytes(fs.last(), at + p.len())
    }
}

/// The pointer `offset` bytes past `at`, wrapping around the address space.
pub open spec fn offset_ptr(at: int, offset: u64) -> u64 {
    if at + offset <= u64::MAX {
        (at + offset) as u64
    } else {
        (at + offset - 0x1_0000_0000_0000_0000) as u64
    }
}

/// The value `v` is passed as when the cursor is at `at`: the literal for
/// integers and bytes, the cursor plus the offset for self-relative
/// pointers, and the cursor (where `v` is laid out) for the rest.
pub open spec fn pushable(v: DataType, at: int) -> u64 {
    match v {
        DataType::Integer(i) => i.0,
        DataType::Byte(b) => b.0 as u64,
        DataType::ThisOffset(o) => offset_ptr(at, o.0),
        _ => at as u64,
    }
}

/// Bytes laid out when `v` is passed with the cursor at `at`: nothing for
/// values passed literally, the field layout for the rest.
pub open spec fn pushable_bytes(v: DataType, at: int) -> Seq<u8> {
    match v {
        DataType::Integer(_) => Seq::empty(),
        DataType::Byte(_) => Seq::empty(),
        DataType::ThisOffset(_) => Seq::empty(),
        _ => field_bytes(v, at),
    }
}

/// The layout of a prefix of fields is no longer than that of all fields.
pub proof fn lemma_fields_prefix_len(fs: Seq<DataType>, at: int, i: int)
    requires
        0 <= i <= fs.len(),
    ensures
        fields_bytes(fs.subrange(0, i), at).len() <= fields_bytes(fs, at).len(),
    decreases fs.len(),
{
    if i < fs.len() {
        let p = fs.drop_last();
        lemma_fields_prefix_len(p, at, i);
        assert(p.subrange(0, i) =~= fs.subrange(0, i));
    } else {
        assert(fs.subrange(0, i) =~= fs);
    }
}

fn offset_ptr_exec(at: u64, offset: u64) -> (r: u64)
    ensures
        r == offset_ptr(at as int, offset),
{
    if offset <= u64::MAX - at {
        at + offset
    } else {
        offset - (u64::MAX - at) - 1
    }
}

impl DataType {
    /// Lays `self` out as a field at the cursor. Fails when the layout does
    /// not fit before the end of the area.
    pub fn write_value(&self, w: &mut DataWriter) -> (r: Result<(), Error>)
        requires
            old(w).wf(),
        ensures
            final(w).wf(),
            final(w).base() == old(w).base(),
            final(w).limit() == old(w).limit(),
            old(w).ptr() + field_bytes(*self, old(w).ptr()).len() <= old(w).limit() ==> r is Ok
                && final(w).written() == old(w).written() + field_bytes(*self, old(w).ptr()),
            old(w).ptr() + field_bytes(*self, old(w).ptr()).len() > old(w).limit() ==> r == Err::<(), Error>(
                Error::OutOfRegion,
            ),
        decreases self,
    {
        let at = w.current_ptr();
        match self {
            DataType::Integer(i) => {
                proof {
                    crate::codec::lemma_unpack_pack(i.0);
                }
                w.write_usize(i.0)?;
            },
            DataType::Byte(b) => {
                let one = vec![b.0];
                assert(one@ =~= seq![b.0]);
                w.write_data(one.as_slice())?;
            },
            DataType::Buffer(b) => {
                let bytes = b.materialize(w.room())?;
                w.write_data(bytes.as_slice())?;
            },
            DataType::Text(t) => {
                let mut bytes = slice_to_vec(t.value.as_slice());
                bytes.push(0u8);
                w.write_data(bytes.as_slice())?;
            },
            DataType::ThisOffset(o) => {
                let value = offset_ptr_exec(at, o.0);
                proof {
                    crate::codec::lemma_unpack_pack(value);
                }
                w.write_usize(value)?;
            },
            DataType::Composite(c) => {
                let ghost fs = c.fields@;
                let ghost w0 = *w;
                let mut i: usize = 0;
                while i < c.fields.len()
                    invariant
                        i <= fs.len(),
                        fs == c.fields@,
                        *self == DataType::Composite(*c),
                        w0 == *old(w),
                        w.wf(),
                        w.base() == w0.base(),
                        w.limit() == w0.limit(),
                        at == w0.ptr(),
                        w.written() == w0.written() + fields_bytes(fs.subrange(0, i as int), at as int),
                    decreases fs.len() - i,
                {
                    let ghost before = *w;
                    proof {
                        assert(fs.subrange(0, i + 1).drop_last() =~= fs.subrange(0, i as int));
                        assert(fs.subrange(0, i + 1).last() == fs[i as int]);
                        lemma_fields_prefix_len(fs, at as int, i + 1);
                        vstd::std_specs::vec::axiom_vec_index_decreases(c.fields, i as int);
                        assert(decreases_to!(*self => self->Composite_0));
                        assert(decreases_to!(self->Composite_0 => c.fields));
                    }
                    let res = c.fields[i].write_value(w);
                    if res.is_err() {
                        return Err(Error::OutOfRegion);
                    }
                    i = i + 1;
                    proof {
                        assert(w.written() =~= w0.written() + fields_bytes(fs.subrange(0, i as int), at as int));
                    }
                }
                assert(fs.subrange(0, fs.len() as int) =~= fs);
            },
        }
        Ok(())
    }

    /// Places `self` for a call and returns the value passed for it: the
    /// literal for integers and bytes, the cursor plus the offset for
    /// self-relative pointers (nothing is written), and for the rest the
    /// address where it is laid out. Fails when the layout does not fit.
    pub fn pushable_value(&self, w: &mut DataWriter) -> (r: Result<u64, Error>)
        requires
            old(w).wf(),
        ensures
            final(w).wf(),
            final(w).base() == old(w).base(),
            final(w).limit() == old(w).limit(),
            old(w).ptr() + pushable_bytes(*self, old(w).ptr()).len() <= old(w).limit() ==> r == Ok::<u64, Error>(
                pushable(*self, old(w).ptr()),
            ) && final(w).written() == old(w).written() + pushable_bytes(*self, old(w).ptr()),
            old(w).ptr() + pushable_bytes(*self, old(w).ptr()).len() > old(w).limit() ==> r == Err::<u64, Error>(
                Error::OutOfRegion,
            ),
    {
        let at = w.current_ptr();
        match self {
            DataType::Integer(i) => {
                assert(w.written() =~= w.written() + Seq::<u8>::empty());
                Ok(i.0)
            },
            DataType::Byte(b) => {
                assert(w.written() =~= w.written() + Seq::<u8>::empty());
                Ok(b.0 as u64)
            },
            DataType::ThisOffset(o) => {
                assert(w.written() =~= w.written() + Seq::<u8>::empty());
                Ok(offset_ptr_exec(at, o.0))
            },
            _ => {
                self.write_value(w)?;
                Ok(at)
            },
        }
    }
}

} // verus!
