//! Byte signatures with wildcards, found in a module's bytes, and the
//! resolution of the RIP-relative operand that follows a match.
use vstd::prelude::*;
use vstd::string::StringSliceAdditionalSpecFns;
use crate::bytes::{le_i32_value, read_i32_le};
use crate::memory::{offset_address, read_exact, ModuleRange, ReadError, Readable};

verus! {

/// Whether `pat` matches `hay` starting at `i`: each byte of the pattern is
/// either a wildcard or equal to the byte of `hay` it lies over.
pub open spec fn matches_at(hay: Seq<u8>, pat: Seq<Option<u8>>, i: int) -> bool {
    &&& 0 <= i
    &&& i + pat.len() <= hay.len()
    &&& forall|j: int| 0 <= j < pat.len() ==> (pat[j] is None || pat[j] == Some(hay[i + j]))
}

/// The first position at or after `i` where `pat` matches `hay`.
pub open spec fn first_match_from(hay: Seq<u8>, pat: Seq<Option<u8>>, i: int) -> Option<int>
    decreases hay.len() - i,
{
    if i < 0 || i + pat.len() > hay.len() {
        None
    } else if matches_at(hay, pat, i) {
        Some(i)
    } else {
        first_match_from(hay, pat, i + 1)
    }
}

/// The first position where `pat` matches `hay`.
pub open spec fn first_match(hay: Seq<u8>, pat: Seq<Option<u8>>) -> Option<int> {
    first_match_from(hay, pat, 0)
}

/// The absolute address that a 32-bit RIP-relative displacement `disp`,
/// stored at `field_address`, designates: the address of the next
/// instruction, `next_instruction` bytes past the field, plus the
/// displacement.
pub open spec fn rip_target(field_address: u64, disp: int, next_instruction: u64) -> u64 {
    field_address.wrapping_add_signed(disp as i64).wrapping_add(next_instruction)
}

/// The address found by scanning the module bytes `hay`, loaded at `base`,
/// for `pat`: the displacement `offset` bytes past the first match, resolved
/// relative to the instruction that follows it. `None` when there is no
/// match or the displacement does not lie wholly in `hay`.
pub open spec fn scan_rel_spec(hay: Seq<u8>, base: u64, pat: Seq<Option<u8>>, offset: u64, next_instruction: u64) -> Option<u64> {
    match first_match(hay, pat) {
        None => None,
        Some(m) => if m + offset + 4 <= hay.len() {
            Some(rip_target(
                offset_address(base, (m + offset) as u64),
                le_i32_value(hay.subrange(m + offset, m + offset + 4)),
                next_instruction,
            ))
        } else {
            None
        },
    }
}

/// Whether `c` is an ASCII hexadecimal digit.
pub open spec fn is_hex_digit(c: u8) -> bool {
    (0x30 <= c <= 0x39) || (0x41 <= c <= 0x46) || (0x61 <= c <= 0x66)
}

/// The value of the hexadecimal digit `c`.
pub open spec fn hex_value(c: u8) -> u8 {
    if 0x30 <= c <= 0x39 {
        (c - 0x30) as u8
    } else if 0x41 <= c <= 0x46 {
        (c - 0x41 + 10) as u8
    } else {
        (c - 0x61 + 10) as u8
    }
}

/// The pattern that the text `t` writes: spaces are skipped, `??` is a
/// wildcard, and two hexadecimal digits are a fixed byte. `None` if anything
/// else occurs.
pub open spec fn parse_pattern(t: Seq<u8>) -> Option<Seq<Option<u8>>>
    decreases t.len(),
{
    if t.len() == 0 {
        Some(Seq::empty())
    } else if t[0] == 0x20 {
        parse_pattern(t.drop_first())
    } else if t.len() >= 2 && t[0] == 0x3f && t[1] == 0x3f {
        match parse_pattern(t.subrange(2, t.len() as int)) {
            Some(p) => Some(seq![None::<u8>] + p),
            None => None,
        }
    } else if t.len() >= 2 && is_hex_digit(t[0]) && is_hex_digit(t[1]) {
        match parse_pattern(t.subrange(2, t.len() as int)) {
            Some(p) => Some(seq![Some((hex_value(t[0]) * 16 + hex_value(t[1])) as u8)] + p),
            None => None,
        }
    } else {
        None
    }
}

/// An ordered sequence of byte matchers, each a fixed byte or a wildcard.
pub struct Signature {
    pattern: Vec<Option<u8>>,
}

impl View for Signature {
    type V = Seq<Option<u8>>;

    closed spec fn view(&self) -> Seq<Option<u8>> {
        self.pattern@
    }
}

fn hex_digit(c: u8) -> (r: Option<u8>)
    ensures
        r == (if is_hex_digit(c) { Some(hex_value(c)) } else { None::<u8> }),
{
    if 0x30 <= c && c <= 0x39 {
        Some(c - 0x30)
    } else if 0x41 <= c && c <= 0x46 {
        Some(c - 0x41 + 10)
    } else if 0x61 <= c && c <= 0x66 {
        Some(c - 0x61 + 10)
    } else {
        None
    }
}

impl Signature {
    /// A signature made of the given matchers; `None` is a wildcard.
    pub fn from_matchers(pattern: Vec<Option<u8>>) -> (r: Signature)
        ensures
            r@ == pattern@,
    {
        Signature { pattern }
    }

    /// Parses a signature written as in `"48 8B 0D ?? ?? ?? ??"`.
    pub fn new(text: &str) -> (r: Option<Signature>)
        ensures
            match r {
                Some(s) => parse_pattern(text.spec_bytes()) == Some(s@),
                None => parse_pattern(text.spec_bytes()) is None,
            },
    {
        let t = text.as_bytes();
        let n = t.len();
        let mut out: Vec<Option<u8>> = Vec::new();
        let mut i: usize = 0;
        assert(t@.subrange(0, n as int) =~= t@);
        assert(forall|p: Seq<Option<u8>>| out@ + p =~= p);
        while i < n
            invariant
                n == t@.len(),
                t@ == text.spec_bytes(),
                i <= n,
                parse_pattern(t@) == match parse_pattern(t@.subrange(i as int, n as int)) {
                    Some(p) => Some(out@ + p),
                    None => None::<Seq<Option<u8>>>,
                },
            decreases n - i,
        {
            let ghost rest = t@.subrange(i as int, n as int);
            if t[i] == 0x20 {
                assert(rest.drop_first() =~= t@.subrange(i + 1, n as int));
                i = i + 1;
            } else if i + 1 < n && t[i] == 0x3f && t[i + 1] == 0x3f {
                assert(rest.subrange(2, rest.len() as int) =~= t@.subrange(i + 2, n as int));
                proof {
                    match parse_pattern(t@.subrange(i + 2, n as int)) {
                        Some(p) => assert(out@ + (seq![None::<u8>] + p) =~= out@.push(None::<u8>) + p),
                        None => {},
                    }
                }
                out.push(None);
                i = i + 2;
            } else {
                if i + 1 >= n {
                    return None;
                }
                match (hex_digit(t[i]), hex_digit(t[i + 1])) {
                    (Some(h), Some(l)) => {
                        assert(rest.subrange(2, rest.len() as int) =~= t@.subrange(i + 2, n as int));
                        let b: u8 = h * 16 + l;
                        proof {
                            match parse_pattern(t@.subrange(i + 2, n as int)) {
                                Some(p) => assert(out@ + (seq![Some(b)] + p) =~= out@.push(Some(b)) + p),
                                None => {},
                            }
                        }
                        out.push(Some(b));
                        i = i + 2;
                    },
                    _ => {
                        return None;
                    },
                }
            }
        }
        assert(t@.subrange(n as int, n as int) =~= Seq::<u8>::empty());
        assert(out@ + Seq::<Option<u8>>::empty() =~= out@);
        Some(Signature { pattern: out })
    }

    /// The number of matchers.
    pub fn len(&self) -> (r: usize)
        ensures
            r == self@.len(),
    {
        self.pattern.len()
    }

    fn matches_at(&self, hay: &[u8], i: usize) -> (r: bool)
        requires
            i + self@.len() <= hay@.len(),
            hay@.len() <= usize::MAX,
        ensures
            r == matches_at(hay@, self@, i as int),
    {
        let n = self.pattern.len();
        let mut j: usize = 0;
        while j < n
            invariant
                n == self@.len(),
                i + n <= hay@.len(),
                hay@.len() <= usize::MAX,
                j <= n,
                forall|k: int| 0 <= k < j ==> (self@[k] is None || self@[k] == Some(hay@[i + k])),
            decreases n - j,
        {
            match self.pattern[j] {
                Some(b) => {
                    if hay[i + j] != b {
                        return false;
                    }
                },
                None => {},
            }
            j = j + 1;
        }
        true
    }

    /// The first position in `hay` where this signature matches.
    pub fn scan(&self, hay: &[u8]) -> (r: Option<usize>)
        ensures
            r == match first_match(hay@, self@) {
                Some(i) => Some(i as usize),
                None => None::<usize>,
            },
            match r {
                Some(i) => matches_at(hay@, self@, i as int) && forall|k: int| 0 <= k < i ==> !matches_at(hay@, self@, k),
                None => forall|k: int| !matches_at(hay@, self@, k),
            },
    {
        let n = hay.len();
        let p = self.pattern.len();
        if p > n {
            proof {
                lemma_first_match_from_none(hay@, self@, 0);
            }
            return None;
        }
        let mut i: usize = 0;
        while i <= n - p
            invariant
                n == hay@.len(),
                p == self@.len(),
                p <= n,
                i <= n - p + 1,
                first_match(hay@, self@) == first_match_from(hay@, self@, i as int),
                forall|k: int| 0 <= k < i ==> !matches_at(hay@, self@, k),
            decreases n - i,
        {
            if self.matches_at(hay, i) {
                return Some(i);
            }
            i = i + 1;
        }
        proof {
            lemma_first_match_from_none(hay@, self@, i as int);
        }
        None
    }
}

proof fn lemma_first_match_from_none(hay: Seq<u8>, pat: Seq<Option<u8>>, i: int)
    requires
        i >= 0,
        i + pat.len() > hay.len(),
    ensures
        first_match_from(hay, pat, i) is None,
        forall|k: int| k >= i ==> !matches_at(hay, pat, k),
{
}

} // verus!

verus! {

/// Scans the module bytes `hay`, loaded at `base`, for `signature` and
/// resolves the 32-bit RIP-relative displacement `offset` bytes past the
/// match, for an instruction that ends `next_instruction` bytes past the
/// displacement.
pub fn scan_rel_in(hay: &[u8], base: u64, signature: &Signature, offset: u64, next_instruction: u64) -> (r: Option<u64>)
    ensures
        r == scan_rel_spec(hay@, base, signature@, offset, next_instruction),
{
    let n = hay.len();
    let m = match signature.scan(hay) {
        Some(m) => m,
        None => {
            return None;
        },
    };
    proof {
        let fm = first_match(hay@, signature@)->Some_0;
        lemma_first_match_from_found(hay@, signature@, 0, fm);
        assert(fm == m as int);
    }
    if offset > n as u64 || m as u64 > n as u64 - offset || n - m - (offset as usize) < 4 {
        assert(m + offset + 4 > n);
        return None;
    }
    let at: usize = m + offset as usize;
    assert(at == m + offset);
    let disp = read_i32_le(hay, at);
    let field = base.wrapping_add(at as u64);
    Some(field.wrapping_add_signed(disp as i64).wrapping_add(next_instruction))
}

/// Where a signature leads: the signature, the offset from its match to the
/// displacement, and the distance from the displacement to the end of the
/// instruction.
pub struct ScanTarget {
    pub signature: Signature,
    pub offset: u64,
    pub next_instruction: u64,
}

/// A scan target as plain values: its pattern, the offset of the
/// displacement from the match, and the distance to the instruction's end.
pub struct TargetView {
    pub pattern: Seq<Option<u8>>,
    pub offset: u64,
    pub next_instruction: u64,
}

/// The plain values of a sequence of scan targets.
pub open spec fn target_views(ts: Seq<ScanTarget>) -> Seq<TargetView> {
    ts.map_values(|t: ScanTarget| TargetView { pattern: t.signature@, offset: t.offset, next_instruction: t.next_instruction })
}

/// The first of `targets`, in order, that resolves in `hay`, with its address.
pub open spec fn first_resolved_from(hay: Seq<u8>, base: u64, targets: Seq<TargetView>, i: int) -> Option<(int, u64)>
    decreases targets.len() - i,
{
    if i < 0 || i >= targets.len() {
        None
    } else {
        match scan_rel_spec(hay, base, targets[i].pattern, targets[i].offset, targets[i].next_instruction) {
            Some(a) => Some((i, a)),
            None => first_resolved_from(hay, base, targets, i + 1),
        }
    }
}

/// Tries the targets in order of priority, as known builds of a binary are
/// listed, and returns the index of the first that resolves in the module
/// bytes `hay` together with the address it resolves to.
pub fn find_address(hay: &[u8], base: u64, targets: &[ScanTarget]) -> (r: Option<(usize, u64)>)
    ensures
        r is None <==> first_resolved_from(hay@, base, target_views(targets@), 0) is None,
        r matches Some((i, a)) ==> first_resolved_from(hay@, base, target_views(targets@), 0) == Some((i as int, a)),
{
    let mut i: usize = 0;
    while i < targets.len()
        invariant
            i <= targets@.len(),
            first_resolved_from(hay@, base, target_views(targets@), 0) == first_resolved_from(hay@, base, target_views(targets@), i as int),
        decreases targets@.len() - i,
    {
        let t = &targets[i];
        assert(target_views(targets@)[i as int] == TargetView { pattern: t.signature@, offset: t.offset, next_instruction: t.next_instruction });
        match scan_rel_in(hay, base, &t.signature, t.offset, t.next_instruction) {
            Some(a) => {
                return Some((i, a));
            },
            None => {},
        }
        i = i + 1;
    }
    None
}

/// Reads the whole module `module` and resolves `signature` in it as
/// `scan_rel_in` does. The address returned is the one the bytes that were
/// read lead to.
pub fn scan_rel<R: Readable>(r: &R, module: ModuleRange, signature: &Signature, offset: u64, next_instruction: u64) -> (res: Result<Option<u64>, ReadError>)
    requires
        module.len <= usize::MAX,
    ensures
        res is Ok ==> exists|hay: Seq<u8>|
            hay.len() == module.len && res->Ok_0 == scan_rel_spec(hay, module.base, signature@, offset, next_instruction),
{
    let hay = read_exact(r, module.base, module.len as usize)?;
    let a = scan_rel_in(hay.as_slice(), module.base, signature, offset, next_instruction);
    Ok(a)
}

proof fn lemma_first_match_from_found(hay: Seq<u8>, pat: Seq<Option<u8>>, i: int, m: int)
    requires
        first_match_from(hay, pat, i) == Some(m),
    ensures
        i <= m,
        matches_at(hay, pat, m),
    decreases hay.len() - i,
{
    if i >= 0 && i + pat.len() <= hay.len() && !matches_at(hay, pat, i) {
        lemma_first_match_from_found(hay, pat, i + 1, m);
    }
}

proof fn lemma_wrap(v: int)
    requires
        -0x1_0000_0000_0000_0000 <= v < 2 * 0x1_0000_0000_0000_0000,
    ensures
        v % 0x1_0000_0000_0000_0000 == if v >= 0x1_0000_0000_0000_0000 {
            v - 0x1_0000_0000_0000_0000
        } else if v < 0 {
            v + 0x1_0000_0000_0000_0000
        } else {
            v
        },
{
    let k: int = 0x1_0000_0000_0000_0000;
    if v >= k {
        vstd::arithmetic::div_mod::lemma_mod_add_multiples_vanish(v - k, k);
        vstd::arithmetic::div_mod::lemma_small_mod((v - k) as nat, k as nat);
    } else if v < 0 {
        vstd::arithmetic::div_mod::lemma_mod_sub_multiples_vanish(v + k, k);
        vstd::arithmetic::div_mod::lemma_small_mod((v + k) as nat, k as nat);
    } else {
        vstd::arithmetic::div_mod::lemma_small_mod(v as nat, k as nat);
    }
}

/// The address a signature resolves to is the match address plus the offset
/// of the displacement, plus four for the displacement itself, plus the
/// signed displacement, in the 64-bit address space.
pub proof fn lemma_rip_fixup(hay: Seq<u8>, base: u64, pat: Seq<Option<u8>>, offset: u64, m: int)
    requires
        first_match(hay, pat) == Some(m),
        m + offset + 4 <= hay.len(),
        hay.len() <= u64::MAX,
    ensures
        scan_rel_spec(hay, base, pat, offset, 4) == Some(
            ((base + m + offset + 4 + le_i32_value(hay.subrange(m + offset, m + offset + 4)))
                % 0x1_0000_0000_0000_0000) as u64,
        ),
{
    lemma_first_match_from_found(hay, pat, 0, m);
    let d = le_i32_value(hay.subrange(m + offset, m + offset + 4));
    crate::bytes::lemma_i32_range(hay.subrange(m + offset, m + offset + 4));
    let k: int = 0x1_0000_0000_0000_0000;
    let x: u64 = (m + offset) as u64;
    let field = offset_address(base, x);
    lemma_wrap(base + x);
    let s = field.wrapping_add_signed(d as i64);
    lemma_wrap(field + d);
    let t = s.wrapping_add(4);
    lemma_wrap(s + 4);
    lemma_wrap_sum(base + x, d, 4);
}

proof fn lemma_wrap_sum(a: int, b: int, c: int)
    ensures
        (((a % 0x1_0000_0000_0000_0000) + b) % 0x1_0000_0000_0000_0000 + c) % 0x1_0000_0000_0000_0000
            == (a + b + c) % 0x1_0000_0000_0000_0000,
{
    let k: int = 0x1_0000_0000_0000_0000;
    vstd::arithmetic::div_mod::lemma_add_mod_noop(a, b, k);
    vstd::arithmetic::div_mod::lemma_mod_twice(b, k);
    vstd::arithmetic::div_mod::lemma_add_mod_noop(a % k, b, k);
    vstd::arithmetic::div_mod::lemma_mod_twice(a, k);
    vstd::arithmetic::div_mod::lemma_add_mod_noop(a + b, c, k);
    vstd::arithmetic::div_mod::lemma_add_mod_noop((a + b) % k, c, k);
    vstd::arithmetic::div_mod::lemma_mod_twice(a + b, k);
    vstd::arithmetic::div_mod::lemma_mod_twice(c, k);
}

} // verus!
