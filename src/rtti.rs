//! What the walkers over the engines' type-information tables share: their
//! errors, and the rule that the later of two entries of one name wins.
use vstd::prelude::*;
use crate::memory::ReadError;

verus! {

/// Why a lookup in the type-information tables failed.
#[derive(Clone, Copy, Debug, PartialEq, Eq, Structural)]
pub enum RttiError {
    /// Reading the target failed.
    Read,
    /// No signature of the catalog was found in the module.
    SignatureNotFound,
    /// The type-information instance pointer is null.
    NullInstance,
    /// No project of that name is registered.
    UnknownProject,
    /// No class of that name is registered in the project.
    UnknownClass,
    /// The class has no variable of that name.
    UnknownVariable,
}

/// The error a failed read of the target becomes.
pub fn read_failed(e: ReadError) -> (r: RttiError)
    ensures
        r == RttiError::Read,
{
    RttiError::Read
}

/// The last index in `names` that holds `name`: where a table names a thing
/// twice, the later entry wins.
pub open spec fn last_index_of(names: Seq<Seq<u8>>, name: Seq<u8>) -> Option<int>
    decreases names.len(),
{
    if names.len() == 0 {
        None
    } else if names.last() == name {
        Some(names.len() - 1)
    } else {
        last_index_of(names.drop_last(), name)
    }
}

/// Where `last_index_of` points, and that nothing after it holds the name.
pub proof fn lemma_last_index_of(names: Seq<Seq<u8>>, name: Seq<u8>)
    ensures
        match last_index_of(names, name) {
            Some(i) => 0 <= i < names.len() && names[i] == name && forall|k: int| i < k < names.len() ==> names[k] != name,
            None => forall|k: int| 0 <= k < names.len() ==> names[k] != name,
        },
    decreases names.len(),
{
    if names.len() > 0 && names.last() != name {
        let d = names.drop_last();
        lemma_last_index_of(d, name);
        assert forall|k: int| 0 <= k < d.len() implies d[k] == names[k] by {}
        match last_index_of(d, name) {
            Some(i) => {
                assert forall|k: int| i < k < names.len() implies names[k] != name by {
                    if k < d.len() {
                        assert(d[k] == names[k]);
                    }
                }
            },
            None => {
                assert forall|k: int| 0 <= k < names.len() implies names[k] != name by {
                    if k < d.len() {
                        assert(d[k] == names[k]);
                    }
                }
            },
        }
    }
}

/// How many entries a table walk keeps, when the leading pointers it read
/// are `heads`: every entry before the first null one, and at most `bound`.
pub open spec fn kept_entries(heads: Seq<u64>, bound: nat) -> nat
    decreases heads.len(),
{
    if heads.len() == 0 {
        0
    } else {
        let k = kept_entries(heads.drop_last(), bound);
        if k + 1 == heads.len() && heads.last() != 0 && k < bound {
            k + 1
        } else {
            k
        }
    }
}

/// Whether `heads` are the leading pointers that a walk bounded by `bound`
/// reads in full: it goes on while the pointers are not null and stops at
/// the first null one or after `bound` entries.
pub open spec fn complete_walk(heads: Seq<u64>, bound: nat) -> bool {
    &&& heads.len() <= bound
    &&& forall|i: int| 0 <= i < heads.len() - 1 ==> heads[i] != 0
    &&& (heads.len() == bound || (heads.len() > 0 && heads.last() == 0))
}

/// Entries before the first null one, within the bound, are all kept.
pub proof fn lemma_kept_all(heads: Seq<u64>, bound: nat)
    requires
        heads.len() <= bound,
        forall|i: int| 0 <= i < heads.len() ==> heads[i] != 0,
    ensures
        kept_entries(heads, bound) == heads.len(),
    decreases heads.len(),
{
    if heads.len() > 0 {
        lemma_kept_all(heads.drop_last(), bound);
    }
}

/// A null entry, or the bound reached, ends what is kept.
pub proof fn lemma_kept_stop(heads: Seq<u64>, bound: nat, x: u64)
    requires
        kept_entries(heads, bound) == heads.len(),
        x == 0 || heads.len() == bound,
    ensures
        kept_entries(heads.push(x), bound) == heads.len(),
{
    assert(heads.push(x).drop_last() =~= heads);
}

proof fn lemma_kept_rest(h: Seq<u64>, b: nat, i: int, j: int)
    requires
        0 <= i <= j <= h.len(),
        kept_entries(h.subrange(0, j), b) == i,
        i == j ==> (j == h.len() || i == b || h[i] == 0),
    ensures
        kept_entries(h, b) == i,
    decreases h.len() - j,
{
    if j < h.len() {
        assert(h.subrange(0, j + 1).drop_last() =~= h.subrange(0, j));
        lemma_kept_rest(h, b, i, j + 1);
    } else {
        assert(h.subrange(0, j) =~= h);
    }
}

/// A table walk keeps exactly the entries before the first null one, when
/// that null entry lies within the bound: with a null entry at slot 3 and
/// non-null entries before it, three entries are kept whatever the bound
/// beyond it allows.
pub proof fn lemma_walk_stops_at_first_null(heads: Seq<u64>, bound: nat, i: int)
    requires
        0 <= i < heads.len(),
        i < bound,
        heads[i] == 0,
        forall|j: int| 0 <= j < i ==> heads[j] != 0,
    ensures
        kept_entries(heads, bound) == i,
{
    lemma_kept_all(heads.subrange(0, i), bound);
    lemma_kept_rest(heads, bound, i, i);
}

/// The number of entries a table walk keeps, given the leading pointers it
/// read: those before the first null one, at most `bound` of them.
pub fn entries_kept(heads: &[u64], bound: u64) -> (r: u64)
    ensures
        r == kept_entries(heads@, bound as nat),
        r <= heads@.len(),
{
    let mut i: usize = 0;
    while i < heads.len() && (i as u64) < bound && heads[i] != 0
        invariant
            i <= heads@.len(),
            i <= bound,
            kept_entries(heads@.subrange(0, i as int), bound as nat) == i,
        decreases heads@.len() - i,
    {
        proof {
            assert(heads@.subrange(0, i + 1).drop_last() =~= heads@.subrange(0, i as int));
        }
        i = i + 1;
    }
    proof {
        lemma_kept_rest(heads@, bound as nat, i as int, i as int);
        assert(heads@.subrange(0, heads@.len() as int) =~= heads@);
    }
    i as u64
}

/// What both engines' walkers answer: the byte offset of a field of a
/// class, by name. Engines with a single namespace of classes ignore the
/// project.
pub trait TypeDirectory {
    fn field_offset(&mut self, project: &str, class: &str, field: &str) -> Result<u64, RttiError>;
}

} // verus!
