//! Plain values that can be read out of the target's memory.
use vstd::prelude::*;
use crate::bytes::{le_i32_value, le_value, read_le, lemma_le_value_bound, lemma_pow256_4_8, pow256};

verus! {

/// A value with a fixed size in the target's memory, decoded from its bytes.
/// Bit patterns that are no value of the type decode to `None`.
pub trait Decode: Sized + Copy {
    /// The number of bytes the value occupies.
    spec fn spec_size() -> nat;

    /// The value that `b` holds, if it is one.
    spec fn spec_decode(b: Seq<u8>) -> Option<Self>;

    /// The value that stands in when nothing could be read.
    spec fn spec_default() -> Self;

    fn size() -> (r: usize)
        ensures
            r as nat == Self::spec_size(),
    ;

    fn decode(b: &[u8]) -> (r: Option<Self>)
        requires
            b@.len() == Self::spec_size(),
        ensures
            r == Self::spec_decode(b@),
    ;

    fn default_value() -> (r: Self)
        ensures
            r == Self::spec_default(),
    ;

    fn same(&self, other: &Self) -> (r: bool)
        ensures
            r == (*self == *other),
    ;
}

impl Decode for u8 {
    open spec fn spec_size() -> nat {
        1
    }

    open spec fn spec_decode(b: Seq<u8>) -> Option<u8> {
        Some(le_value(b) as u8)
    }

    open spec fn spec_default() -> u8 {
        0
    }

    fn size() -> (r: usize) {
        1
    }

    fn decode(b: &[u8]) -> (r: Option<u8>) {
        proof {
            assert(b@.subrange(0, 1) =~= b@);
            lemma_le_value_bound(b@);
            lemma_pow256_4_8();
            reveal_with_fuel(pow256, 2);
        }
        Some(read_le(b, 1) as u8)
    }

    fn default_value() -> (r: u8) {
        0
    }

    fn same(&self, other: &u8) -> (r: bool) {
        *self == *other
    }
}

impl Decode for u16 {
    open spec fn spec_size() -> nat {
        2
    }

    open spec fn spec_decode(b: Seq<u8>) -> Option<u16> {
        Some(le_value(b) as u16)
    }

    open spec fn spec_default() -> u16 {
        0
    }

    fn size() -> (r: usize) {
        2
    }

    fn decode(b: &[u8]) -> (r: Option<u16>) {
        proof {
            assert(b@.subrange(0, 2) =~= b@);
        }
        Some(read_le(b, 2) as u16)
    }

    fn default_value() -> (r: u16) {
        0
    }

    fn same(&self, other: &u16) -> (r: bool) {
        *self == *other
    }
}

impl Decode for u32 {
    open spec fn spec_size() -> nat {
        4
    }

    open spec fn spec_decode(b: Seq<u8>) -> Option<u32> {
        Some(le_value(b) as u32)
    }

    open spec fn spec_default() -> u32 {
        0
    }

    fn size() -> (r: usize) {
        4
    }

    fn decode(b: &[u8]) -> (r: Option<u32>) {
        proof {
            assert(b@.subrange(0, 4) =~= b@);
        }
        Some(read_le(b, 4) as u32)
    }

    fn default_value() -> (r: u32) {
        0
    }

    fn same(&self, other: &u32) -> (r: bool) {
        *self == *other
    }
}

impl Decode for u64 {
    open spec fn spec_size() -> nat {
        8
    }

    open spec fn spec_decode(b: Seq<u8>) -> Option<u64> {
        Some(le_value(b) as u64)
    }

    open spec fn spec_default() -> u64 {
        0
    }

    fn size() -> (r: usize) {
        8
    }

    fn decode(b: &[u8]) -> (r: Option<u64>) {
        proof {
            assert(b@.subrange(0, 8) =~= b@);
        }
        Some(read_le(b, 8))
    }

    fn default_value() -> (r: u64) {
        0
    }

    fn same(&self, other: &u64) -> (r: bool) {
        *self == *other
    }
}

impl Decode for i32 {
    open spec fn spec_size() -> nat {
        4
    }

    open spec fn spec_decode(b: Seq<u8>) -> Option<i32> {
        Some(le_i32_value(b) as i32)
    }

    open spec fn spec_default() -> i32 {
        0
    }

    fn size() -> (r: usize) {
        4
    }

    fn decode(b: &[u8]) -> (r: Option<i32>) {
        let v = crate::bytes::read_i32_le(b, 0);
        assert(b@.subrange(0, 4) =~= b@);
        Some(v)
    }

    fn default_value() -> (r: i32) {
        0
    }

    fn same(&self, other: &i32) -> (r: bool) {
        *self == *other
    }
}

} // verus!
