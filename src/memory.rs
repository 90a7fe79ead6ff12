//! The capability of reading the memory of another process.
use vstd::prelude::*;

verus! {

/// A read from the target failed: the address is not mapped, the process
/// has gone, or fewer bytes came back than were asked for.
#[derive(Clone, Copy, Debug, PartialEq, Eq, Structural)]
pub struct ReadError;

/// The width of a pointer stored in the target's memory.
#[derive(Clone, Copy, Debug, PartialEq, Eq, Structural)]
pub enum PointerSize {
    Bit32,
    Bit64,
}

impl PointerSize {
    /// The number of bytes a pointer of this width occupies.
    pub open spec fn width(self) -> nat {
        match self {
            PointerSize::Bit32 => 4,
            PointerSize::Bit64 => 8,
        }
    }

    /// Number of bytes a pointer of this width occupies.
    pub fn bytes(self) -> (r: usize)
        ensures
            r as nat == self.width(),
    {
        match self {
            PointerSize::Bit32 => 4,
            PointerSize::Bit64 => 8,
        }
    }
}

/// The address range a loaded module occupies in the target.
#[derive(Clone, Copy, Debug, PartialEq, Eq, Structural)]
pub struct ModuleRange {
    pub base: u64,
    pub len: u64,
}

/// A source of the target's memory: a live process, an emulator's RAM, or a
/// recorded image of either.
///
/// Nothing is promised about the bytes that come back: the target runs on
/// while it is read, so two reads of one address may differ. What is built
/// on top of this states what holds whatever was read.
pub trait Readable {
    /// Reads `len` bytes starting at `address`.
    fn read_bytes(&self, address: u64, len: usize) -> Result<Vec<u8>, ReadError>;

    /// Finds where the module called `name` is loaded.
    fn module_range(&self, name: &str) -> Result<ModuleRange, ReadError>;
}

} // verus!

verus! {

/// `base` advanced by `offset`, wrapping around the address space as the
/// target's own address arithmetic does.
pub open spec fn offset_address(base: u64, offset: u64) -> u64 {
    base.wrapping_add(offset)
}

/// The value that a pointer path's walk starts the `i`-th step from: the
/// base address for the first step, else the pointer read in the step before.
pub open spec fn step_base(base: u64, ptrs: Seq<u64>, i: int) -> u64 {
    if i == 0 {
        base
    } else {
        ptrs[i - 1]
    }
}

/// The address visited at step `i` of a walk along `path` from `base`, when
/// the pointers read on the way are `ptrs`. The first offset is added to the
/// base without reading through it; each later one is added to the pointer
/// that the step before read.
pub open spec fn step_address(base: u64, path: Seq<u64>, ptrs: Seq<u64>, i: int) -> u64 {
    offset_address(step_base(base, ptrs, i), path[i])
}

/// The address at which the value at the end of `path` is read, when the
/// pointers read on the way are `ptrs` (one for each offset but the last).
pub open spec fn path_target(base: u64, path: Seq<u64>, ptrs: Seq<u64>) -> u64 {
    step_address(base, path, ptrs, path.len() - 1)
}

/// The largest value a pointer of width `size` can hold, plus one.
pub open spec fn pointer_bound(size: PointerSize) -> nat {
    match size {
        PointerSize::Bit32 => 0x1_0000_0000,
        PointerSize::Bit64 => 0x1_0000_0000_0000_0000,
    }
}

/// Reads exactly `len` bytes at `address`; a short read is an error.
pub fn read_exact<R: Readable>(r: &R, address: u64, len: usize) -> (res: Result<Vec<u8>, ReadError>)
    ensures
        res is Ok ==> res->Ok_0@.len() == len,
{
    match r.read_bytes(address, len) {
        Ok(v) => {
            if v.len() == len {
                Ok(v)
            } else {
                Err(ReadError)
            }
        },
        Err(e) => Err(e),
    }
}

/// Reads an unsigned little-endian integer of `n` bytes at `address`.
pub fn read_uint<R: Readable>(r: &R, address: u64, n: usize) -> (res: Result<u64, ReadError>)
    requires
        n <= 8,
    ensures
        res is Ok ==> res->Ok_0 < crate::bytes::pow256(n as nat),
{
    let b = read_exact(r, address, n)?;
    let v = crate::bytes::read_le(b.as_slice(), n);
    proof {
        crate::bytes::lemma_le_value_bound(b@.subrange(0, n as int));
    }
    Ok(v)
}

/// Reads a pointer of width `size` at `address`.
pub fn read_pointer<R: Readable>(r: &R, address: u64, size: PointerSize) -> (res: Result<u64, ReadError>)
    ensures
        res is Ok ==> res->Ok_0 < pointer_bound(size),
{
    let v = read_uint(r, address, size.bytes())?;
    proof {
        crate::bytes::lemma_pow256_4_8();
    }
    Ok(v)
}

/// The address a walk along `path` from `base` ends at, when the pointers
/// read on the way are `ptrs`: the last offset added to the last pointer
/// read, or to the base itself when there is no pointer to read.
pub fn path_target_of(base: u64, path: &[u64], ptrs: &[u64]) -> (r: u64)
    requires
        path@.len() >= 1,
        ptrs@.len() + 1 == path@.len(),
    ensures
        r == path_target(base, path@, ptrs@),
{
    let n = path.len();
    let from = if n == 1 { base } else { ptrs[n - 2] };
    from.wrapping_add(path[n - 1])
}

/// Follows `path` from `base` and returns the address of the value at its
/// end: the first offset is added to `base` without a read, and each later
/// offset is added to the pointer read at the address reached before it.
/// An empty path has no end.
pub fn resolve_path<R: Readable>(r: &R, base: u64, size: PointerSize, path: &[u64]) -> (res: Result<u64, ReadError>)
    ensures
        path@.len() == 0 ==> res is Err,
        res is Ok ==> exists|ptrs: Seq<u64>|
            {
                &&& ptrs.len() + 1 == path@.len()
                &&& forall|i: int| 0 <= i < ptrs.len() ==> ptrs[i] < pointer_bound(size)
                &&& res->Ok_0 == path_target(base, path@, ptrs)
            },
{
    if path.len() == 0 {
        return Err(ReadError);
    }
    let mut address: u64 = base.wrapping_add(path[0]);
    let mut i: usize = 1;
    let mut ptrs: Vec<u64> = Vec::new();
    while i < path.len()
        invariant
            1 <= i <= path@.len(),
            ptrs@.len() + 1 == i,
            forall|k: int| 0 <= k < ptrs@.len() ==> ptrs@[k] < pointer_bound(size),
            address == step_address(base, path@, ptrs@, i - 1),
        decreases path@.len() - i,
    {
        let p = read_pointer(r, address, size)?;
        ptrs.push(p);
        address = p.wrapping_add(path[i]);
        i = i + 1;
    }
    Ok(path_target_of(base, path, ptrs.as_slice()))
}

/// Follows `path` from `base` and reads `len` bytes at its end.
pub fn read_pointer_path<R: Readable>(r: &R, base: u64, size: PointerSize, path: &[u64], len: usize) -> (res: Result<Vec<u8>, ReadError>)
    ensures
        path@.len() == 0 ==> res is Err,
        res is Ok ==> res->Ok_0@.len() == len,
{
    let address = resolve_path(r, base, size, path)?;
    read_exact(r, address, len)
}

} // verus!

verus! {

/// The address of entry `i` of a table of entries `stride` bytes apart that
/// starts at `base`.
pub open spec fn slot_address(base: u64, i: u64, stride: u64) -> u64 {
    base.wrapping_add(i.wrapping_mul(stride))
}

/// The bytes of `b` before its first zero byte; all of `b` if it has none.
pub open spec fn c_string(b: Seq<u8>) -> Seq<u8>
    decreases b.len(),
{
    if b.len() == 0 {
        b
    } else if b[0] == 0 {
        Seq::empty()
    } else {
        seq![b[0]] + c_string(b.drop_first())
    }
}

/// The bytes of `b` before its first zero byte.
pub fn c_string_of(b: &[u8]) -> (r: Vec<u8>)
    ensures
        r@ == c_string(b@),
{
    let mut out: Vec<u8> = Vec::new();
    let mut i: usize = 0;
    assert(b@.subrange(0, b@.len() as int) =~= b@);
    assert(out@ + c_string(b@) =~= c_string(b@));
    while i < b.len()
        invariant
            i <= b@.len(),
            c_string(b@) == out@ + c_string(b@.subrange(i as int, b@.len() as int)),
            forall|k: int| 0 <= k < i ==> b@[k] != 0,
        decreases b@.len() - i,
    {
        let ghost rest = b@.subrange(i as int, b@.len() as int);
        if b[i] == 0 {
            assert(c_string(rest) == Seq::<u8>::empty());
            assert(out@ + Seq::<u8>::empty() =~= out@);
            return out;
        }
        assert(rest.drop_first() =~= b@.subrange(i + 1, b@.len() as int));
        assert(out@ + (seq![b@[i as int]] + c_string(rest.drop_first())) =~= out@.push(b@[i as int])
            + c_string(rest.drop_first()));
        out.push(b[i]);
        i = i + 1;
    }
    assert(b@.subrange(i as int, b@.len() as int) =~= Seq::<u8>::empty());
    assert(out@ + Seq::<u8>::empty() =~= out@);
    out
}

/// Reads a value of type `T` at `address`.
pub fn read_value<R: Readable, T: crate::value::Decode>(r: &R, address: u64) -> (res: Result<T, ReadError>)
    ensures
        res is Ok ==> exists|b: Seq<u8>| b.len() == T::spec_size() && T::spec_decode(b) == Some(res->Ok_0),
{
    let b = read_exact(r, address, T::size())?;
    match T::decode(b.as_slice()) {
        Some(v) => Ok(v),
        None => Err(ReadError),
    }
}

/// Follows the 64-bit pointer path `path` from `base` and reads a value of
/// type `T` at its end.
pub fn read_path_value<R: Readable, T: crate::value::Decode>(r: &R, base: u64, path: &[u64]) -> (res: Result<T, ReadError>)
    ensures
        path@.len() == 0 ==> res is Err,
        res is Ok ==> exists|b: Seq<u8>| b.len() == T::spec_size() && T::spec_decode(b) == Some(res->Ok_0),
{
    let b = read_pointer_path(r, base, PointerSize::Bit64, path, T::size())?;
    match T::decode(b.as_slice()) {
        Some(v) => Ok(v),
        None => Err(ReadError),
    }
}

/// Follows the 64-bit pointer path `path` from `base` and reads the
/// zero-terminated string of at most `max` bytes at its end.
pub fn read_path_c_string<R: Readable>(r: &R, base: u64, path: &[u64], max: usize) -> (res: Result<Vec<u8>, ReadError>)
    ensures
        path@.len() == 0 ==> res is Err,
        res is Ok ==> exists|b: Seq<u8>| b.len() == max && res->Ok_0@ == c_string(b),
{
    let b = read_pointer_path(r, base, PointerSize::Bit64, path, max)?;
    Ok(c_string_of(b.as_slice()))
}

/// Whether two byte strings are equal.
pub fn bytes_eq(a: &[u8], b: &[u8]) -> (r: bool)
    ensures
        r == (a@ == b@),
{
    if a.len() != b.len() {
        return false;
    }
    let mut i: usize = 0;
    while i < a.len()
        invariant
            a@.len() == b@.len(),
            i <= a@.len(),
            forall|k: int| 0 <= k < i ==> a@[k] == b@[k],
        decreases a@.len() - i,
    {
        if a[i] != b[i] {
            return false;
        }
        i = i + 1;
    }
    assert(a@ =~= b@);
    true
}

} // verus!

verus! {

/// A copy of the offsets `o`.
pub fn copy_offsets(o: &[u64]) -> (r: Vec<u64>)
    ensures
        r@ == o@,
{
    let mut out: Vec<u64> = Vec::new();
    let mut i: usize = 0;
    while i < o.len()
        invariant
            i <= o@.len(),
            out@ == o@.subrange(0, i as int),
        decreases o@.len() - i,
    {
        out.push(o[i]);
        i = i + 1;
        assert(out@ =~= o@.subrange(0, i as int));
    }
    assert(o@.subrange(0, o@.len() as int) =~= o@);
    out
}

/// A copy of the bytes `b`.
pub fn copy_bytes(b: &[u8]) -> (r: Vec<u8>)
    ensures
        r@ == b@,
{
    let mut out: Vec<u8> = Vec::new();
    let mut i: usize = 0;
    while i < b.len()
        invariant
            i <= b@.len(),
            out@ == b@.subrange(0, i as int),
        decreases b@.len() - i,
    {
        out.push(b[i]);
        i = i + 1;
        assert(out@ =~= b@.subrange(0, i as int));
    }
    assert(b@.subrange(0, b@.len() as int) =~= b@);
    out
}

} // verus!
