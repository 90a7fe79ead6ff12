//! The objective tree of a ZDoom game's mission log, and the status of each
//! objective by its tag.
use vstd::prelude::*;
use vstd::string::StringSliceAdditionalSpecFns;
use crate::memory::{bytes_eq, read_path_c_string, read_value, ReadError, Readable};
use crate::rtti::{read_failed, RttiError};
use super::pclass::{known_field_offset, PClass};
use super::player::Player;
use super::tarray::TArray;

verus! {

broadcast use vstd::std_specs::vec::axiom_vec_decreases_to_view;

/// An objective with its sub-objectives.
pub struct Objective {
    pub title: Vec<u8>,
    pub tag: u32,
    pub status: u32,
    pub children: Vec<Objective>,
}

/// The tag and status of each objective of `objs` and of all their
/// sub-objectives, each objective before its sub-objectives, in order.
pub open spec fn status_entries(objs: Seq<Objective>) -> Seq<(u32, u32)>
    decreases objs,
{
    if objs.len() == 0 {
        Seq::empty()
    } else {
        seq![(objs[0].tag, objs[0].status)] + status_entries(objs[0].children@) + status_entries(
            objs.subrange(1, objs.len() as int),
        )
    }
}

/// Appends the tag and status of every objective of `objectives`, and of
/// all their sub-objectives, to `map`; where a tag repeats, the later entry
/// is the one that counts.
pub fn get_objective_status_map(objectives: &Vec<Objective>, map: &mut Vec<(u32, u32)>)
    ensures
        final(map)@ == old(map)@ + status_entries(objectives@),
    decreases objectives@,
{
    assert(objectives@.subrange(0, objectives@.len() as int) =~= objectives@);
    append_from(objectives, 0, map);
}

fn append_from(objectives: &Vec<Objective>, from: usize, map: &mut Vec<(u32, u32)>)
    requires
        from <= objectives@.len(),
    ensures
        final(map)@ == old(map)@ + status_entries(objectives@.subrange(from as int, objectives@.len() as int)),
    decreases objectives@, objectives@.len() - from,
{
    if from == objectives.len() {
        assert(objectives@.subrange(from as int, objectives@.len() as int) =~= Seq::<Objective>::empty());
        assert(old(map)@ + Seq::<(u32, u32)>::empty() =~= old(map)@);
        return;
    }
    let o = &objectives[from];
    let ghost rest = objectives@.subrange(from as int, objectives@.len() as int);
    assert(rest[0] == *o);
    assert(rest.subrange(1, rest.len() as int) =~= objectives@.subrange(from + 1, objectives@.len() as int));
    let ghost start = map@;
    map.push((o.tag, o.status));
    assert(decreases_to!(objectives@ => objectives@[from as int]));
    get_objective_status_map(&o.children, map);
    append_from(objectives, from + 1, map);
    assert(map@ =~= start + status_entries(rest));
}

/// The status recorded last for `tag` in `entries`, if any.
pub open spec fn status_of(entries: Seq<(u32, u32)>, tag: u32) -> Option<u32>
    decreases entries.len(),
{
    if entries.len() == 0 {
        None
    } else if entries.last().0 == tag {
        Some(entries.last().1)
    } else {
        status_of(entries.drop_last(), tag)
    }
}

/// The status recorded last for `tag` in `entries`.
pub fn status_in(entries: &Vec<(u32, u32)>, tag: u32) -> (r: Option<u32>)
    ensures
        r == status_of(entries@, tag),
{
    let mut i: usize = entries.len();
    assert(entries@.subrange(0, i as int) =~= entries@);
    while i > 0
        invariant
            i <= entries@.len(),
            status_of(entries@, tag) == status_of(entries@.subrange(0, i as int), tag),
        decreases i,
    {
        let ghost pre = entries@.subrange(0, i as int);
        if entries[i - 1].0 == tag {
            return Some(entries[i - 1].1);
        }
        assert(pre.drop_last() =~= entries@.subrange(0, i - 1));
        i = i - 1;
    }
    None
}

/// Whether the objective `tag` was completed between two ticks: its status
/// was zero before and is known and non-zero now.
pub open spec fn completed_between(old: Seq<(u32, u32)>, current: Seq<(u32, u32)>, tag: u32) -> bool {
    status_of(old, tag) == Some(0u32) && (status_of(current, tag) matches Some(s) && s != 0)
}

/// Whether the objective `tag` was completed between the tick whose
/// statuses are `old` and the one whose statuses are `current`.
pub fn just_completed(old: &Vec<(u32, u32)>, current: &Vec<(u32, u32)>, tag: u32) -> (r: bool)
    ensures
        r == completed_between(old@, current@, tag),
{
    match (status_in(old, tag), status_in(current, tag)) {
        (Some(0), Some(s)) => s != 0,
        _ => false,
    }
}

/// Where the fields of an objective lie.
#[derive(Clone, Copy, Debug, PartialEq, Eq, Structural)]
pub struct ObjectiveOffsets {
    pub children: u64,
    pub title: u64,
    pub status: u64,
    pub tag: u64,
}

/// The offsets of the fields of the objective class.
pub fn objective_offsets<'a, R: Readable>(class: &mut PClass<'a, R>) -> (r: Result<ObjectiveOffsets, RttiError>)
    ensures
        r matches Ok(o) ==> (known_field_offset(final(class)@, "tag".spec_bytes()) matches Some(t) && o.tag == t as u64),
        r matches Ok(o) ==> (known_field_offset(final(class)@, "status".spec_bytes()) matches Some(t) && o.status == t as u64),
        r matches Ok(o) ==> (known_field_offset(final(class)@, "title".spec_bytes()) matches Some(t) && o.title == t as u64),
        r matches Ok(o) ==> (known_field_offset(final(class)@, "children".spec_bytes()) matches Some(t) && o.children
            == t as u64),
        r is Err ==> r == Err::<ObjectiveOffsets, RttiError>(RttiError::Read) || r == Err::<ObjectiveOffsets, RttiError>(
            RttiError::UnknownVariable,
        ),
{
    let children = class.get_field_offset("children")? as u64;
    let title = class.get_field_offset("title")? as u64;
    let status = class.get_field_offset("status")? as u64;
    let tag = class.get_field_offset("tag")? as u64;
    Ok(ObjectiveOffsets { children, title, status, tag })
}

/// Whether `s` is the zero-terminated string of some `max` bytes that were read.
pub open spec fn exists_c_string(s: Seq<u8>, max: nat) -> bool {
    exists|b: Seq<u8>| b.len() == max && #[trigger] crate::memory::c_string(b) == s
}

/// The deepest nesting of objectives that is read.
pub const OBJECTIVE_DEPTH_MAX: u32 = 16;

/// Reads the objective at `address`, with its sub-objectives down to
/// `depth` more levels.
pub fn read_objective<R: Readable>(r: &R, address: u64, offsets: ObjectiveOffsets, depth: u32) -> (res: Result<Objective, ReadError>)
    ensures
        res matches Ok(o) ==> (depth == 0 ==> o.children@.len() == 0),
        res matches Ok(o) ==> exists_c_string(o.title@, 128),
    decreases depth, 0u32,
{
    let title_path: [u64; 2] = [offsets.title, 0x0];
    let title = read_path_c_string(r, address, title_path.as_slice(), 128)?;
    assert(exists_c_string(title@, 128));
    let tag = read_value::<R, u32>(r, address.wrapping_add(offsets.tag))?;
    let status = read_value::<R, u32>(r, address.wrapping_add(offsets.status))?;
    let children = if depth == 0 {
        Vec::new()
    } else {
        read_objectives(r, address.wrapping_add(offsets.children), offsets, depth - 1)?
    };
    Ok(Objective { title, tag, status, children })
}

/// Reads the objectives of the array at `address`, skipping those that
/// cannot be read.
pub fn read_objectives<R: Readable>(r: &R, address: u64, offsets: ObjectiveOffsets, depth: u32) -> (res: Result<Vec<Objective>, ReadError>)
    ensures
        res is Ok ==> res->Ok_0@.len() <= u32::MAX,
    decreases depth, 1u32,
{
    let items = TArray::new(r, address).iter::<u64>()?;
    let mut out: Vec<Objective> = Vec::new();
    let mut i: usize = 0;
    while i < items.len()
        invariant
            i <= items@.len(),
            items@.len() <= u32::MAX,
            out@.len() <= i,
        decreases items@.len() - i,
    {
        match read_objective(r, items[i], offsets, depth) {
            Ok(o) => out.push(o),
            Err(_) => {},
        }
        i = i + 1;
    }
    Ok(out)
}

/// The name of the mission-log inventory item.
pub const OBJECTIVES_CLASS_NAME: &'static str = "Objectives";

/// The current objectives and the objective history of the mission log the
/// player carries; both empty where the player carries none.
pub fn get_completed_objectives<'a, R: Readable>(
    r: &'a R,
    zdoom: &super::ZDoom<'a, R>,
    player: &mut Player<'a, R>,
    actor_class: &mut PClass<'a, R>,
    objectives_class: &mut PClass<'a, R>,
    objective_class: &mut PClass<'a, R>,
) -> (res: Result<(Vec<Objective>, Vec<Objective>), RttiError>) {
    let objs = objectives_class.get_field_offset("objs")? as u64;
    let history = objectives_class.get_field_offset("history")? as u64;
    let offsets = objective_offsets(objective_class)?;
    let inventories = player.get_inventories(actor_class)?;
    let mut i: usize = 0;
    while i < inventories.len()
        invariant
            i <= inventories@.len(),
        decreases inventories@.len() - i,
    {
        let inv = inventories[i];
        let name = match zdoom.class_name_of(inv) {
            Ok(n) => n,
            Err(e) => {
                return Err(read_failed(e));
            },
        };
        if bytes_eq(name.as_slice(), OBJECTIVES_CLASS_NAME.as_bytes()) {
            let current = match read_objectives(r, inv.wrapping_add(objs), offsets, OBJECTIVE_DEPTH_MAX) {
                Ok(o) => o,
                Err(e) => {
                    return Err(read_failed(e));
                },
            };
            let past = match read_objectives(r, inv.wrapping_add(history), offsets, OBJECTIVE_DEPTH_MAX) {
                Ok(o) => o,
                Err(e) => {
                    return Err(read_failed(e));
                },
            };
            return Ok((current, past));
        }
        i = i + 1;
    }
    Ok((Vec::new(), Vec::new()))
}

} // verus!
