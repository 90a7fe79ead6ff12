//! The C-like spelling of the engine's descriptive type names, such as
//! `DynArray<Pointer<Actor>>` or `Struct<Vector3>[4]`.
use vstd::prelude::*;
use vstd::string::StringSliceAdditionalSpecFns;
use crate::memory::bytes_eq;

verus! {

/// Whether `c` is an ASCII decimal digit.
pub open spec fn is_digit(c: u8) -> bool {
    0x30 <= c <= 0x39
}

/// The length of the element-count suffix `>[digits]` that ends `s`, or of
/// the bare `>` that ends it; `None` if `s` ends in neither.
pub open spec fn closing_len(s: Seq<u8>) -> Option<int> {
    if s.len() >= 1 && s.last() == 0x3e {
        Some(1)
    } else if s.len() >= 4 && s.last() == 0x5d {
        let d = digits_before(s, s.len() - 1);
        if d >= 1 && s.len() - 1 - d >= 2 && s[s.len() - 2 - d] == 0x5b && s[s.len() - 3 - d] == 0x3e {
            Some(d + 3)
        } else {
            None
        }
    } else {
        None
    }
}

/// The number of ASCII digits that directly precede position `end` of `s`.
pub open spec fn digits_before(s: Seq<u8>, end: int) -> int
    decreases end,
{
    if end <= 0 || end > s.len() || !is_digit(s[end - 1]) {
        0
    } else {
        1 + digits_before(s, end - 1)
    }
}

/// The first position at or after `i` and before `end` that holds `<`.
pub open spec fn first_open_from(s: Seq<u8>, i: int, end: int) -> Option<int>
    decreases end - i,
{
    if i < 0 || i >= end || end > s.len() {
        None
    } else if s[i] == 0x3c {
        Some(i)
    } else {
        first_open_from(s, i + 1, end)
    }
}

/// A generic type name `outer<inner>` with an optional element count
/// `[n]` after it, as `(outer, inner, count)`: the outer name is as short as
/// it can be, and neither it nor the inner name is empty.
pub open spec fn split_generic(s: Seq<u8>) -> Option<(Seq<u8>, Seq<u8>, Seq<u8>)> {
    match closing_len(s) {
        None => None,
        Some(c) => {
            let core_end = s.len() - c;
            match first_open_from(s, 1, core_end) {
                Some(k) => if k + 1 < core_end {
                    Some((s.subrange(0, k), s.subrange(k + 1, core_end), s.subrange(core_end + 1, s.len() as int)))
                } else {
                    None
                },
                None => None,
            }
        },
    }
}

/// The C-like name of the engine's scalar type name `s`; other names stand
/// as they are.
pub open spec fn scalar_name(s: Seq<u8>) -> Seq<u8> {
    if s == "Bool".spec_bytes() {
        "bool".spec_bytes()
    } else if s == "Float4".spec_bytes() {
        "float".spec_bytes()
    } else if s == "Float8".spec_bytes() {
        "double".spec_bytes()
    } else if s == "String".spec_bytes() {
        "char*".spec_bytes()
    } else if s == "SInt1".spec_bytes() {
        "int8_t".spec_bytes()
    } else if s == "SInt2".spec_bytes() {
        "int16_t".spec_bytes()
    } else if s == "SInt4".spec_bytes() {
        "int32_t".spec_bytes()
    } else if s == "UInt1".spec_bytes() {
        "uint8_t".spec_bytes()
    } else if s == "UInt2".spec_bytes() {
        "uint16_t".spec_bytes()
    } else if s == "UInt4".spec_bytes() {
        "uint32_t".spec_bytes()
    } else {
        s
    }
}

/// Whether the outer name `o` only wraps its inner type.
pub open spec fn is_transparent(o: Seq<u8>) -> bool {
    o == "Struct".spec_bytes() || o == "NativeStruct".spec_bytes() || o == "Class".spec_bytes()
        || o == "Pointer".spec_bytes() || o == "ClassPointer".spec_bytes()
}

/// The C-like spelling of the descriptive type name `s`: a dynamic array
/// becomes a `TArray`, structs, classes and pointers stand for their inner
/// type, other generic names keep their outer name, an element count stays
/// after the inner type, and scalar names become their C names.
pub open spec fn field_type_name(s: Seq<u8>) -> Seq<u8>
    decreases s.len(),
{
    match split_generic(s) {
        Some((o, i, n)) => {
            let inner = if s.len() > i.len() {
                field_type_name(i) + n
            } else {
                n
            };
            if o == "DynArray".spec_bytes() {
                "TArray<".spec_bytes() + inner + ">".spec_bytes()
            } else if is_transparent(o) {
                inner
            } else {
                o + "<".spec_bytes() + inner + ">".spec_bytes()
            }
        },
        None => scalar_name(s),
    }
}

fn append(out: &mut Vec<u8>, b: &[u8])
    ensures
        final(out)@ == old(out)@ + b@,
{
    let mut i: usize = 0;
    let ghost start = out@;
    while i < b.len()
        invariant
            i <= b@.len(),
            out@ == start + b@.subrange(0, i as int),
        decreases b@.len() - i,
    {
        out.push(b[i]);
        i = i + 1;
        assert(out@ =~= start + b@.subrange(0, i as int));
    }
    assert(b@.subrange(0, b@.len() as int) =~= b@);
}

fn copy_range(s: &[u8], from: usize, to: usize) -> (r: Vec<u8>)
    requires
        from <= to <= s@.len(),
    ensures
        r@ == s@.subrange(from as int, to as int),
{
    let mut out: Vec<u8> = Vec::new();
    let mut i: usize = from;
    while i < to
        invariant
            from <= i <= to,
            to <= s@.len(),
            out@ == s@.subrange(from as int, i as int),
        decreases to - i,
    {
        out.push(s[i]);
        i = i + 1;
        assert(out@ =~= s@.subrange(from as int, i as int));
    }
    out
}

fn count_digits_before(s: &[u8], end: usize) -> (r: usize)
    requires
        end <= s@.len(),
    ensures
        r == digits_before(s@, end as int),
        r <= end,
{
    let mut k: usize = end;
    while k > 0 && 0x30 <= s[k - 1] && s[k - 1] <= 0x39
        invariant
            k <= end,
            end <= s@.len(),
            digits_before(s@, end as int) == (end - k) + digits_before(s@, k as int),
        decreases k,
    {
        k = k - 1;
    }
    (end - k) as usize
}

fn closing_length(s: &[u8]) -> (r: Option<usize>)
    ensures
        r == match closing_len(s@) {
            Some(c) => Some(c as usize),
            None => None::<usize>,
        },
        r matches Some(c) ==> c <= s@.len(),
{
    let n = s.len();
    if n >= 1 && s[n - 1] == 0x3e {
        return Some(1);
    }
    if n >= 4 && s[n - 1] == 0x5d {
        let d = count_digits_before(s, n - 1);
        if d >= 1 && n - 1 - d >= 2 && s[n - 2 - d] == 0x5b && s[n - 3 - d] == 0x3e {
            return Some(d + 3);
        }
    }
    None
}

fn find_open(s: &[u8], end: usize) -> (r: Option<usize>)
    requires
        end <= s@.len(),
    ensures
        r == match first_open_from(s@, 1, end as int) {
            Some(k) => Some(k as usize),
            None => None::<usize>,
        },
{
    let mut i: usize = 1;
    while i < end
        invariant
            1 <= i,
            end <= s@.len(),
            first_open_from(s@, 1, end as int) == first_open_from(s@, i as int, end as int),
        decreases end - i,
    {
        if s[i] == 0x3c {
            return Some(i);
        }
        i = i + 1;
    }
    None
}

fn scalar_name_of(s: &[u8]) -> (r: Vec<u8>)
    ensures
        r@ == scalar_name(s@),
{
    let mut out: Vec<u8> = Vec::new();
    if bytes_eq(s, "Bool".as_bytes()) {
        append(&mut out, "bool".as_bytes());
    } else if bytes_eq(s, "Float4".as_bytes()) {
        append(&mut out, "float".as_bytes());
    } else if bytes_eq(s, "Float8".as_bytes()) {
        append(&mut out, "double".as_bytes());
    } else if bytes_eq(s, "String".as_bytes()) {
        append(&mut out, "char*".as_bytes());
    } else if bytes_eq(s, "SInt1".as_bytes()) {
        append(&mut out, "int8_t".as_bytes());
    } else if bytes_eq(s, "SInt2".as_bytes()) {
        append(&mut out, "int16_t".as_bytes());
    } else if bytes_eq(s, "SInt4".as_bytes()) {
        append(&mut out, "int32_t".as_bytes());
    } else if bytes_eq(s, "UInt1".as_bytes()) {
        append(&mut out, "uint8_t".as_bytes());
    } else if bytes_eq(s, "UInt2".as_bytes()) {
        append(&mut out, "uint16_t".as_bytes());
    } else if bytes_eq(s, "UInt4".as_bytes()) {
        append(&mut out, "uint32_t".as_bytes());
    } else {
        append(&mut out, s);
    }
    out
}

/// The C-like spelling of the descriptive type name `name`, as a field of
/// that type would be declared.
pub fn name_as_field_type(name: &[u8]) -> (r: Vec<u8>)
    ensures
        r@ == field_type_name(name@),
    decreases name@.len(),
{
    let n = name.len();
    let c = match closing_length(name) {
        Some(c) => c,
        None => {
            return scalar_name_of(name);
        },
    };
    let core_end = n - c;
    let k = match find_open(name, core_end) {
        Some(k) => k,
        None => {
            return scalar_name_of(name);
        },
    };
    proof {
        lemma_first_open_bounds(name@, 1, core_end as int);
    }
    if k + 1 >= core_end {
        return scalar_name_of(name);
    }
    let outer = copy_range(name, 0, k);
    let inner_name = copy_range(name, k + 1, core_end);
    let count = copy_range(name, core_end + 1, n);
    let mut inner = name_as_field_type(inner_name.as_slice());
    append(&mut inner, count.as_slice());
    let mut out: Vec<u8> = Vec::new();
    if bytes_eq(outer.as_slice(), "DynArray".as_bytes()) {
        append(&mut out, "TArray<".as_bytes());
        append(&mut out, inner.as_slice());
        append(&mut out, ">".as_bytes());
    } else if bytes_eq(outer.as_slice(), "Struct".as_bytes()) || bytes_eq(outer.as_slice(), "NativeStruct".as_bytes())
        || bytes_eq(outer.as_slice(), "Class".as_bytes()) || bytes_eq(outer.as_slice(), "Pointer".as_bytes())
        || bytes_eq(outer.as_slice(), "ClassPointer".as_bytes()) {
        append(&mut out, inner.as_slice());
    } else {
        append(&mut out, outer.as_slice());
        append(&mut out, "<".as_bytes());
        append(&mut out, inner.as_slice());
        append(&mut out, ">".as_bytes());
    }
    out
}

proof fn lemma_first_open_bounds(s: Seq<u8>, i: int, end: int)
    ensures
        first_open_from(s, i, end) matches Some(k) ==> i <= k < end && s[k] == 0x3c,
    decreases end - i,
{
    if i >= 0 && i < end && end <= s.len() && s[i] != 0x3c {
        lemma_first_open_bounds(s, i + 1, end);
    }
}

} // verus!
