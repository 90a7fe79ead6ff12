//! The engine's table of interned names.
use vstd::prelude::*;
use crate::memory::{c_string, read_path_c_string, ReadError, Readable};

verus! {

/// The size of one entry of the name table.
pub const NAME_ENTRY_SIZE: u64 = 0x10;
/// The longest name read, terminator included.
pub const NAME_MAX: usize = 128;

/// The name table: a pointer at offset eight to entries of
/// `NAME_ENTRY_SIZE` bytes, each starting with a pointer to the characters.
pub struct NameManager<'a, R: Readable> {
    readable: &'a R,
    address: u64,
}

impl<'a, R: Readable> NameManager<'a, R> {
    /// The address of the table.
    pub closed spec fn spec_address(&self) -> u64 {
        self.address
    }

    /// The source the table is read from.
    pub closed spec fn source(&self) -> &'a R {
        self.readable
    }

    /// The name table at `address`.
    pub fn new(readable: &'a R, address: u64) -> (r: Self)
        ensures
            r.spec_address() == address,
            r.source() == readable,
    {
        NameManager { readable, address }
    }

    /// The address of the table.
    pub fn address(&self) -> (r: u64)
        ensures
            r == self.spec_address(),
    {
        self.address
    }

    /// The characters of the name with index `index`.
    pub fn get_chars(&self, index: u32) -> (r: Result<Vec<u8>, ReadError>)
        ensures
            r is Ok ==> exists|b: Seq<u8>| b.len() == NAME_MAX && r->Ok_0@ == c_string(b),
    {
        let path: [u64; 3] = [0x8, index as u64 * NAME_ENTRY_SIZE, 0x0];
        read_path_c_string(self.readable, self.address, path.as_slice(), NAME_MAX)
    }
}

} // verus!
