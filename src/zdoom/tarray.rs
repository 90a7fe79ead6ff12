//! The engine's dynamic arrays: a pointer to the items and a count.
use vstd::prelude::*;
use crate::memory::{read_path_value, read_value, ReadError, Readable};
use crate::value::Decode;

verus! {

/// Whether `addrs` are the addresses of `count` items of `item_size` bytes
/// laid out one after another from `array`.
pub open spec fn item_addresses(addrs: Seq<u64>, array: u64, count: u64, item_size: u64) -> bool {
    &&& addrs.len() == count
    &&& forall|i: int| 0 <= i < addrs.len() ==> #[trigger] addrs[i] == array.wrapping_add(item_size.wrapping_mul(i as u64))
}

/// Whether `v` is the value of some bytes that were read.
pub open spec fn decoded<T: Decode>(v: T) -> bool {
    exists|b: Seq<u8>| b.len() == T::spec_size() && #[trigger] T::spec_decode(b) == Some(v)
}

/// A `TArray` in the target: the pointer to its items at offset zero and
/// its item count at offset eight.
pub struct TArray<'a, R: Readable> {
    readable: &'a R,
    address: u64,
}

impl<'a, R: Readable> TArray<'a, R> {
    /// The address of the array header.
    pub closed spec fn spec_address(&self) -> u64 {
        self.address
    }

    /// The array whose header lies at `address`.
    pub fn new(readable: &'a R, address: u64) -> (r: Self)
        ensures
            r.spec_address() == address,
    {
        TArray { readable, address }
    }

    /// Reads the items of the array, each as a value of type `T`, in order.
    /// The first item that cannot be read ends the list.
    pub fn iter<T: Decode>(&self) -> (r: Result<Vec<T>, ReadError>)
        requires
            T::spec_size() <= 8,
        ensures
            r is Ok ==> r->Ok_0@.len() <= u32::MAX,
            r matches Ok(v) ==> forall|k: int| 0 <= k < v@.len() ==> #[trigger] decoded::<T>(v@[k]),
    {
        let count_path: [u64; 1] = [0x8];
        let count: u32 = read_path_value::<R, u32>(self.readable, self.address, count_path.as_slice())?;
        let size = T::size() as u64;
        let mut items: Vec<T> = Vec::new();
        let mut i: u32 = 0;
        while i < count
            invariant
                i <= count,
                items@.len() == i,
                size <= 8,
                forall|k: int| 0 <= k < items@.len() ==> #[trigger] decoded::<T>(items@[k]),
            decreases count - i,
        {
            assert(size * (i as u64) <= 8 * 0xffff_ffff) by (nonlinear_arith)
                requires
                    size <= 8,
                    i <= 0xffff_ffff,
            ;
            let item_path: [u64; 2] = [0x0, size * i as u64];
            match read_path_value::<R, T>(self.readable, self.address, item_path.as_slice()) {
                Ok(v) => {
                    assert(decoded::<T>(v));
                    items.push(v);
                },
                Err(_) => {
                    return Ok(items);
                },
            }
            i = i + 1;
        }
        Ok(items)
    }

    /// The addresses of the items of the array, each `item_size` bytes long,
    /// in order.
    pub fn iter_addr(&self, item_size: u64) -> (r: Result<Vec<u64>, ReadError>)
        ensures
            r is Ok ==> exists|array: u64, count: u64|
                count <= u32::MAX && #[trigger] item_addresses(r->Ok_0@, array, count, item_size),
    {
        let array: u64 = read_value::<R, u64>(self.readable, self.address)?;
        let count: u32 = read_value::<R, u32>(self.readable, self.address.wrapping_add(0x8))?;
        let mut out: Vec<u64> = Vec::new();
        let mut i: u32 = 0;
        while i < count
            invariant
                i <= count,
                out@.len() == i,
                forall|k: int| 0 <= k < out@.len() ==> #[trigger] out@[k] == array.wrapping_add(item_size.wrapping_mul(k as u64)),
            decreases count - i,
        {
            out.push(array.wrapping_add(item_size.wrapping_mul(i as u64)));
            i = i + 1;
        }
        assert(item_addresses(out@, array, count as u64, item_size));
        let r: Result<Vec<u64>, ReadError> = Ok(out);
        assert(item_addresses(r->Ok_0@, array, count as u64, item_size));
        r
    }
}

} // verus!
