//! Pointer paths into the target's memory, and watchers that sample them
//! once per tick.
use vstd::prelude::*;
use crate::memory::{offset_address, path_target, pointer_bound, read_value, resolve_path, step_address, step_base, PointerSize, Readable};
use crate::value::Decode;

verus! {

/// What a pointer path describes: where its walk starts, the offsets along
/// it, the width of the pointers read on the way, and a label for messages.
pub struct PathView {
    pub name: Option<Seq<char>>,
    pub base: u64,
    pub offsets: Seq<u64>,
    pub size: PointerSize,
}

/// The offsets of `parent` extended by `child`: the parent's last offset and
/// the child's first one add up to one offset, because the child's first
/// offset addresses into the value the parent points at without another
/// read. A parent with no offsets counts as one whose last offset is zero.
pub open spec fn merged_offsets(parent: Seq<u64>, child: Seq<u64>) -> Seq<u64> {
    if parent.len() == 0 {
        seq![offset_address(0, child[0])] + child.drop_first()
    } else {
        parent.drop_last().push(offset_address(parent.last(), child[0])) + child.drop_first()
    }
}

/// The offsets a path's read walks: those of the path, or a single zero
/// offset when the path has none, so that the base address itself is read.
pub open spec fn effective_offsets(offsets: Seq<u64>) -> Seq<u64> {
    if offsets.len() == 0 {
        seq![0u64]
    } else {
        offsets
    }
}

/// Whether `a` is an address that a walk along `offsets` from `base`, with
/// pointers of width `size`, can end at.
pub open spec fn walk_ends_at(base: u64, offsets: Seq<u64>, size: PointerSize, a: u64) -> bool {
    exists|ptrs: Seq<u64>|
        {
            &&& ptrs.len() + 1 == offsets.len()
            &&& forall|i: int| 0 <= i < ptrs.len() ==> ptrs[i] < pointer_bound(size)
            &&& a == path_target(base, offsets, ptrs)
        }
}

/// A read through a pointer path failed; the error names the path, by its
/// label where it has one, else by its base address and offsets.
#[derive(Debug, PartialEq)]
pub struct PathReadError {
    pub name: Option<String>,
    pub base: u64,
    pub offsets: Vec<u64>,
    pub size: PointerSize,
}

impl View for PathReadError {
    type V = PathView;

    open spec fn view(&self) -> PathView {
        PathView {
            name: match self.name {
                Some(n) => Some(n@),
                None => None,
            },
            base: self.base,
            offsets: self.offsets@,
            size: self.size,
        }
    }
}

/// A description of how to reach a value in the target: a base address and
/// a chain of offsets, each but the first applied after reading a pointer.
/// Nothing is read until `read` is called.
pub struct PointerPath<'a, R: Readable> {
    name: Option<String>,
    readable: &'a R,
    base_address: u64,
    path: Vec<u64>,
    pointer_size: PointerSize,
}

impl<'a, R: Readable> View for PointerPath<'a, R> {
    type V = PathView;

    closed spec fn view(&self) -> PathView {
        PathView {
            name: match self.name {
                Some(n) => Some(n@),
                None => None,
            },
            base: self.base_address,
            offsets: self.path@,
            size: self.pointer_size,
        }
    }
}

impl<'a, R: Readable> PointerPath<'a, R> {
    /// The source that this path reads from.
    pub closed spec fn source(&self) -> &'a R {
        self.readable
    }

    /// A path through 64-bit pointers.
    pub fn new(readable: &'a R, base_address: u64, path: Vec<u64>) -> (r: Self)
        ensures
            r@ == (PathView { name: None, base: base_address, offsets: path@, size: PointerSize::Bit64 }),
            r.source() == readable,
    {
        PointerPath { name: None, readable, base_address, path, pointer_size: PointerSize::Bit64 }
    }

    /// A path through 32-bit pointers.
    pub fn new32(readable: &'a R, base_address: u64, path: Vec<u64>) -> (r: Self)
        ensures
            r@ == (PathView { name: None, base: base_address, offsets: path@, size: PointerSize::Bit32 }),
            r.source() == readable,
    {
        PointerPath { name: None, readable, base_address, path, pointer_size: PointerSize::Bit32 }
    }

    /// The same path under a label used in messages.
    pub fn named(self, name: &str) -> (r: Self)
        ensures
            r@ == (PathView { name: Some(name@), ..self@ }),
            r.source() == self.source(),
    {
        PointerPath {
            name: Some(name.to_string()),
            readable: self.readable,
            base_address: self.base_address,
            path: self.path,
            pointer_size: self.pointer_size,
        }
    }

    /// The path that continues this one by `path`, whose first offset
    /// addresses into the value this path ends at.
    pub fn child(&self, path: &[u64]) -> (r: Self)
        requires
            path@.len() > 0,
        ensures
            r@ == (PathView { name: None, base: self@.base, offsets: merged_offsets(self@.offsets, path@), size: self@.size }),
            r.source() == self.source(),
    {
        let mut offsets: Vec<u64> = Vec::new();
        let n = self.path.len();
        let last: u64 = if n == 0 { 0 } else { self.path[n - 1] };
        let keep: usize = if n == 0 { 0 } else { n - 1 };
        let mut i: usize = 0;
        while i < keep
            invariant
                keep <= n,
                n == self.path@.len(),
                keep == if n == 0 { 0 } else { n - 1 },
                offsets@ =~= self.path@.subrange(0, i as int),
                i <= keep,
            decreases keep - i,
        {
            offsets.push(self.path[i]);
            i = i + 1;
        }
        offsets.push(last.wrapping_add(path[0]));
        let mut j: usize = 1;
        while j < path.len()
            invariant
                1 <= j <= path@.len(),
                offsets@ =~= self.path@.subrange(0, keep as int).push(offset_address(last, path@[0]))
                    + path@.subrange(1, j as int),
            decreases path@.len() - j,
        {
            offsets.push(path[j]);
            j = j + 1;
        }
        proof {
            assert(path@.subrange(1, path@.len() as int) =~= path@.drop_first());
            if n > 0 {
                assert(self.path@.subrange(0, keep as int) =~= self.path@.drop_last());
            } else {
                assert(self.path@.subrange(0, keep as int).push(offset_address(last, path@[0]))
                    =~= seq![offset_address(0, path@[0])]);
            }
        }
        PointerPath {
            name: None,
            readable: self.readable,
            base_address: self.base_address,
            path: offsets,
            pointer_size: self.pointer_size,
        }
    }

    /// The offsets of the path.
    pub fn offsets(&self) -> (r: Vec<u64>)
        ensures
            r@ == self@.offsets,
    {
        crate::memory::copy_offsets(self.path.as_slice())
    }

    /// The address the walk of the path starts from.
    pub fn base_address(&self) -> (r: u64)
        ensures
            r == self@.base,
    {
        self.base_address
    }

    /// The label of the path, if it has one.
    pub fn name(&self) -> (r: Option<String>)
        ensures
            r matches Some(n) ==> self@.name == Some(n@),
            r is None ==> self@.name is None,
    {
        match &self.name {
            Some(n) => Some(n.clone()),
            None => None,
        }
    }

    /// The error that names this path.
    pub fn error(&self) -> (r: PathReadError)
        ensures
            r@ == self@,
    {
        let name = match &self.name {
            Some(n) => Some(n.clone()),
            None => None,
        };
        PathReadError {
            name,
            base: self.base_address,
            offsets: crate::memory::copy_offsets(self.path.as_slice()),
            size: self.pointer_size,
        }
    }

    /// The address of the value at the end of the path: the walk along its
    /// offsets, or along the single offset zero when it has none.
    pub fn target_address(&self) -> (r: Result<u64, PathReadError>)
        ensures
            r matches Ok(a) ==> walk_ends_at(self@.base, effective_offsets(self@.offsets), self@.size, a),
            r matches Err(e) ==> e@ == self@,
    {
        let zero: [u64; 1] = [0];
        let walked: &[u64] = if self.path.len() > 0 { self.path.as_slice() } else { zero.as_slice() };
        assert(walked@ == effective_offsets(self@.offsets));
        match resolve_path(self.readable, self.base_address, self.pointer_size, walked) {
            Ok(a) => Ok(a),
            Err(_) => Err(self.error()),
        }
    }

    /// Reads the value at the end of the path, once, with no retry. A path
    /// with no offsets reads its base address. A failed read names the path.
    pub fn read<T: Decode>(&self) -> (res: Result<T, PathReadError>)
        ensures
            res matches Ok(v) ==> exists|a: u64, b: Seq<u8>|
                walk_ends_at(self@.base, effective_offsets(self@.offsets), self@.size, a) && b.len() == T::spec_size()
                    && T::spec_decode(b) == Some(v),
            res matches Err(e) ==> e@ == self@,
    {
        let a = self.target_address()?;
        match read_value::<R, T>(self.readable, a) {
            Ok(v) => Ok(v),
            Err(_) => Err(self.error()),
        }
    }
}

} // verus!

verus! {

/// This tick's sample of a watched value: not read yet, read and failed,
/// or read.
pub enum Sample<T> {
    Unread,
    Failed,
    Read(T),
}

/// The state of a watcher between two reads: this tick's sample, the value
/// of the tick before, if any, and the value that stands in when a read
/// fails.
pub struct WatchState<T> {
    pub path: PathView,
    pub current: Sample<T>,
    pub old: Option<T>,
    pub default: Option<T>,
}

/// The state a watcher starts in: nothing read yet and no previous tick.
pub open spec fn fresh_state<T>(path: PathView) -> WatchState<T> {
    WatchState { path, current: Sample::Unread, old: None, default: None }
}

/// The value a read of the current tick yields, when the read of the
/// target (if one is made) yields `fetched`: the value already read this
/// tick; nothing if this tick's read failed; else what was fetched, else the
/// default.
pub open spec fn current_value<T>(s: WatchState<T>, fetched: Option<T>) -> Option<T> {
    match s.current {
        Sample::Read(v) => Some(v),
        Sample::Failed => None,
        Sample::Unread => match fetched {
            Some(v) => Some(v),
            None => s.default,
        },
    }
}

/// The state after the current tick's value was asked for, when the read
/// of the target yields `fetched`. Only an unread tick is read; a failed
/// read with no default is recorded as such for the rest of the tick.
pub open spec fn observed<T>(s: WatchState<T>, fetched: Option<T>) -> WatchState<T> {
    match s.current {
        Sample::Unread => WatchState {
            current: match current_value(s, fetched) {
                Some(v) => Sample::Read(v),
                None => Sample::Failed,
            },
            ..s
        },
        _ => s,
    }
}

/// Whether the value changed since the previous tick: always so when there
/// was no previous tick.
pub open spec fn reports_change<T>(old: Option<T>, current: T) -> bool {
    match old {
        None => true,
        Some(o) => o != current,
    }
}

/// What asking whether the value changed yields, when the read of the target
/// yields `fetched`: `None` where the current value could not be had.
pub open spec fn change_outcome<T>(s: WatchState<T>, fetched: Option<T>) -> Option<bool> {
    match s.old {
        None => Some(true),
        Some(o) => match current_value(s, fetched) {
            Some(c) => Some(reports_change(s.old, c)),
            None => None,
        },
    }
}

/// The state after asking whether the value changed: with no previous tick
/// the target is not read at all.
pub open spec fn after_change<T>(s: WatchState<T>, fetched: Option<T>) -> WatchState<T> {
    match s.old {
        None => s,
        Some(_) => observed(s, fetched),
    }
}

/// The value a sample holds, if it holds one.
pub open spec fn sample_value<T>(c: Sample<T>) -> Option<T> {
    match c {
        Sample::Read(v) => Some(v),
        _ => None,
    }
}

/// The state at the start of the next tick: this tick's value, or nothing if
/// none was read, becomes the previous one, and the next read goes to the
/// target again.
pub open spec fn advanced<T>(s: WatchState<T>) -> WatchState<T> {
    WatchState { current: Sample::Unread, old: sample_value(s.current), ..s }
}

/// The value of a result, if it is one.
pub open spec fn ok_value<T, E>(r: Result<T, E>) -> Option<T> {
    match r {
        Ok(v) => Some(v),
        Err(_) => None,
    }
}

/// Something that is sampled once per tick and must be told when a tick ends.
pub trait Invalidatable {
    fn invalidate(&mut self);
}

/// A value in the target watched across ticks: the value of this tick is
/// read at most once, on first demand, and kept beside the value of the
/// tick before, so that transitions can be told.
pub struct MemoryWatcher<'a, R: Readable, T: Decode> {
    path: PointerPath<'a, R>,
    current: Sample<T>,
    old: Option<T>,
    default: Option<T>,
}

impl<'a, R: Readable, T: Decode> View for MemoryWatcher<'a, R, T> {
    type V = WatchState<T>;

    closed spec fn view(&self) -> WatchState<T> {
        WatchState { path: self.path@, current: self.current, old: self.old, default: self.default }
    }
}

impl<'a, R: Readable, T: Decode> MemoryWatcher<'a, R, T> {
    /// The source that this watcher reads from.
    pub closed spec fn source(&self) -> &'a R {
        self.path.source()
    }

    /// A watcher over the 64-bit pointer path `path` from `base_address`.
    pub fn new(readable: &'a R, base_address: u64, path: Vec<u64>) -> (r: Self)
        ensures
            r@ == fresh_state::<T>(
                PathView { name: None, base: base_address, offsets: path@, size: PointerSize::Bit64 },
            ),
            r.source() == readable,
    {
        MemoryWatcher { path: PointerPath::new(readable, base_address, path), current: Sample::Unread, old: None, default: None }
    }

    /// A watcher over `path`, which starts with nothing read.
    pub fn from_path(path: PointerPath<'a, R>) -> (r: Self)
        ensures
            r@ == fresh_state::<T>(path@),
            r.source() == path.source(),
    {
        MemoryWatcher { path, current: Sample::Unread, old: None, default: None }
    }

    /// The same watcher, with `default` standing in for failed reads.
    pub fn default_given(self, default: T) -> (r: Self)
        ensures
            r@ == (WatchState { default: Some(default), ..self@ }),
            r.source() == self.source(),
    {
        MemoryWatcher { path: self.path, current: self.current, old: self.old, default: Some(default) }
    }

    /// The same watcher, with the type's default value standing in for
    /// failed reads.
    pub fn default(self) -> (r: Self)
        ensures
            r@ == (WatchState { default: Some(T::spec_default()), ..self@ }),
            r.source() == self.source(),
    {
        let d = T::default_value();
        MemoryWatcher { path: self.path, current: self.current, old: self.old, default: Some(d) }
    }

    /// The value of this tick. The target is read only if this tick's value
    /// has not been asked for yet; a failed read yields the default if there
    /// is one, else an error naming the path, and then every further call
    /// this tick yields that error without reading again.
    pub fn current(&mut self) -> (r: Result<T, PathReadError>)
        ensures
            final(self).source() == old(self).source(),
            old(self)@.current matches Sample::Read(v) ==> r == Ok::<T, PathReadError>(v) && final(self)@ == old(self)@,
            old(self)@.current is Failed ==> r is Err && final(self)@ == old(self)@,
            r matches Err(e) ==> e@ == old(self)@.path,
            exists|fetched: Option<T>|
                final(self)@ == observed(old(self)@, fetched) && ok_value(r) == current_value(old(self)@, fetched),
    {
        match self.current {
            Sample::Read(v) => {
                assert(final(self)@ == observed(old(self)@, None));
                Ok(v)
            },
            Sample::Failed => {
                assert(final(self)@ == observed(old(self)@, None));
                Err(self.path.error())
            },
            Sample::Unread => {
                let fetched = self.path.read::<T>();
                match fetched {
                    Ok(v) => {
                        self.current = Sample::Read(v);
                        assert(self@ == observed(old(self)@, Some(v)));
                        Ok(v)
                    },
                    Err(e) => {
                        match self.default {
                            Some(d) => {
                                self.current = Sample::Read(d);
                                assert(self@ == observed(old(self)@, None));
                                Ok(d)
                            },
                            None => {
                                self.current = Sample::Failed;
                                assert(self@ == observed(old(self)@, None));
                                Err(e)
                            },
                        }
                    },
                }
            },
        }
    }

    /// The value of the tick before, or `None` on the first tick.
    pub fn read_old(&self) -> (r: Option<T>)
        ensures
            r == self@.old,
    {
        self.old
    }

    /// A watcher over the child path `path` of this watcher's path.
    pub fn child(&self, path: &[u64]) -> (r: Self)
        requires
            path@.len() > 0,
        ensures
            r@ == fresh_state::<T>(
                PathView { name: None, base: self@.path.base, offsets: merged_offsets(self@.path.offsets, path@), size: self@.path.size },
            ),
            r.source() == self.source(),
    {
        MemoryWatcher::from_path(self.path.child(path))
    }

    /// Whether the value of this tick differs from that of the tick before.
    /// On the first tick it has, and the target is not read.
    pub fn changed(&mut self) -> (r: Result<bool, PathReadError>)
        ensures
            final(self).source() == old(self).source(),
            old(self)@.old is None ==> r == Ok::<bool, PathReadError>(true) && final(self)@ == old(self)@,
            r matches Err(e) ==> e@ == old(self)@.path,
            exists|fetched: Option<T>|
                final(self)@ == after_change(old(self)@, fetched) && ok_value(r) == change_outcome(old(self)@, fetched),
    {
        match self.old {
            None => {
                assert(final(self)@ == after_change(old(self)@, None));
                Ok(true)
            },
            Some(o) => {
                let ghost before = self@;
                let c = self.current();
                let ghost f = choose|f: Option<T>| self@ == observed(before, f) && ok_value(c) == current_value(before, f);
                assert(self@ == after_change(before, f));
                match c {
                    Ok(v) => {
                        let same = o.same(&v);
                        assert(change_outcome(before, f) == Some(!same));
                        Ok(!same)
                    },
                    Err(e) => Err(e),
                }
            },
        }
    }
}

impl<'a, R: Readable, T: Decode> Invalidatable for MemoryWatcher<'a, R, T> {
    /// Ends the tick: this tick's value becomes the previous one (nothing,
    /// if it was never read) and the next read goes to the target again.
    fn invalidate(&mut self)
        ensures
            final(self)@ == advanced(old(self)@),
            final(self).source() == old(self).source(),
    {
        self.old = match self.current {
            Sample::Read(v) => Some(v),
            _ => None,
        };
        self.current = Sample::Unread;
    }
}

} // verus!

verus! {

/// Deriving a child path keeps every offset of the parent but the last,
/// replaces the last by its sum with the child's first offset, and appends
/// the child's remaining offsets.
pub proof fn lemma_child_offsets(parent: Seq<u64>, child: Seq<u64>)
    requires
        parent.len() > 0,
        child.len() > 0,
    ensures
        merged_offsets(parent, child) == parent.subrange(0, parent.len() - 1)
            + seq![parent[parent.len() - 1].wrapping_add(child[0])]
            + child.subrange(1, child.len() as int),
{
    assert(merged_offsets(parent, child) =~= parent.subrange(0, parent.len() - 1)
        + seq![parent[parent.len() - 1].wrapping_add(child[0])]
        + child.subrange(1, child.len() as int));
}

proof fn lemma_offset_assoc(x: u64, a: u64, b: u64)
    ensures
        offset_address(offset_address(x, a), b) == offset_address(x, offset_address(a, b)),
{
    let m: int = 0x1_0000_0000_0000_0000;
    assert(offset_address(x, a) as int == (x as int + a as int) % m);
    assert(offset_address(a, b) as int == (a as int + b as int) % m);
    assert(offset_address(offset_address(x, a), b) as int == (offset_address(x, a) as int + b as int) % m);
    assert(offset_address(x, offset_address(a, b)) as int == (x as int + offset_address(a, b) as int) % m);
    vstd::arithmetic::div_mod::lemma_add_mod_noop(x as int + a as int, b as int, m);
    vstd::arithmetic::div_mod::lemma_add_mod_noop(x as int, a as int + b as int, m);
    vstd::arithmetic::div_mod::lemma_mod_twice(b as int, m);
    vstd::arithmetic::div_mod::lemma_mod_twice(x as int, m);
    vstd::arithmetic::div_mod::lemma_small_mod(b as nat, m as nat);
    vstd::arithmetic::div_mod::lemma_small_mod(x as nat, m as nat);
}

/// Reading through a child path goes where the parent path ends, then on by
/// the child's offsets: the walk of the derived path reaches, at the merged
/// offset, the parent's end address plus the child's first offset, with no
/// read in between; from there on its steps are those of the child.
pub proof fn lemma_child_walk(base: u64, parent: Seq<u64>, child: Seq<u64>, ptrs: Seq<u64>)
    requires
        parent.len() > 0,
        child.len() > 0,
        ptrs.len() + 1 == parent.len() + child.len() - 1,
    ensures
        step_address(base, merged_offsets(parent, child), ptrs, parent.len() - 1)
            == offset_address(path_target(base, parent, ptrs.subrange(0, parent.len() - 1)), child[0]),
        forall|j: int|
            1 <= j < child.len() ==> step_address(base, merged_offsets(parent, child), ptrs, parent.len() - 1 + j)
                == offset_address(ptrs[parent.len() - 2 + j], child[j]),
{
    let k = parent.len() - 1;
    let m = merged_offsets(parent, child);
    lemma_child_offsets(parent, child);
    assert(m[k] == parent[k].wrapping_add(child[0]));
    assert(step_base(base, ptrs, k) == step_base(base, ptrs.subrange(0, k), k));
    lemma_offset_assoc(step_base(base, ptrs, k), parent[k], child[0]);
    assert forall|j: int| 1 <= j < child.len() implies m[k + j] == child[j] by {
        assert(m[k + j] == child.subrange(1, child.len() as int)[j - 1]);
    }
}

/// A freshly made watcher knows no previous value, and asking it whether the
/// value changed yields `true` whatever the target holds.
pub proof fn lemma_fresh_watcher_reports_change<T>(path: PathView, fetched: Option<T>)
    ensures
        fresh_state::<T>(path).old is None,
        change_outcome(fresh_state::<T>(path), fetched) == Some(true),
{
}

/// Ending a tick twice with no read in between loses a transition: where a
/// single end of tick keeps the value read and lets an unchanged value read
/// as unchanged, the second end of tick forgets it, and the next question
/// whether the value changed yields `true` even though it did not.
pub proof fn lemma_double_advance_loses_transition<T>(s: WatchState<T>, v: T)
    requires
        s.current == Sample::Read(v),
    ensures
        advanced(s).old == Some(v),
        change_outcome(advanced(s), Some(v)) == Some(false),
        advanced(advanced(s)).old is None,
        change_outcome(advanced(advanced(s)), Some(v)) == Some(true),
{
}

} // verus!
