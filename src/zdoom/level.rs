//! The current level: its map name and the actors in its sectors.
use vstd::prelude::*;
use crate::memory::{bytes_eq, read_path_c_string, read_value, ReadError, Readable};
use crate::rtti::{read_failed, RttiError};
use super::name_manager::NameManager;
use super::pclass::PClass;
use super::tarray::TArray;
use super::Offsets;

verus! {

/// The size of a sector record.
pub const SECTOR_SIZE: u64 = 0x310;
/// Where an actor's class pointer lies.
pub const ACTOR_CLASS_OFFSET: u64 = 0x8;
/// Where an actor's link to the next actor of its sector lies.
pub const ACTOR_SNEXT_OFFSET: u64 = 0x40;
/// The longest chain of actors followed in one sector.
pub const SECTOR_ACTORS_MAX: u64 = 0x1_0000;

/// The level: the `FLevelLocals` record. The map name is read once per tick.
pub struct Level<'a, R: Readable> {
    readable: &'a R,
    offsets: Offsets,
    names: u64,
    address: u64,
    name: Option<Vec<u8>>,
}

impl<'a, R: Readable> Level<'a, R> {
    /// The map name read this tick, if any.
    pub closed spec fn name_memo(&self) -> Option<Seq<u8>> {
        match self.name {
            Some(n) => Some(n@),
            None => None,
        }
    }

    /// The level whose record lies at `address`.
    pub fn new(readable: &'a R, offsets: Offsets, name_manager: &NameManager<'a, R>, address: u64) -> (r: Self)
        ensures
            r.name_memo() is None,
    {
        Level { readable, offsets, names: name_manager.address(), address, name: None }
    }

    /// Forgets the map name, so that the next tick reads it again.
    pub fn invalidate_cache(&mut self)
        ensures
            final(self).name_memo() is None,
    {
        self.name = None;
    }

    /// The map name of the level.
    pub fn name(&mut self) -> (r: Result<Vec<u8>, ReadError>)
        ensures
            old(self).name_memo() is Some ==> r is Ok && r->Ok_0@ == old(self).name_memo()->Some_0,
            r is Ok ==> final(self).name_memo() == Some(r->Ok_0@),
            r is Err ==> final(self).name_memo() == old(self).name_memo(),
    {
        match &self.name {
            Some(n) => Ok(crate::memory::copy_bytes(n.as_slice())),
            None => {
                let path: [u64; 2] = [self.offsets.level_mapname, 0x0];
                let n = read_path_c_string(self.readable, self.address, path.as_slice(), 128)?;
                self.name = Some(crate::memory::copy_bytes(n.as_slice()));
                Ok(n)
            },
        }
    }

    /// The name of the class of the actor at `actor`.
    fn actor_class_name(&self, actor: u64) -> (r: Result<Vec<u8>, ReadError>)
        ensures
            r matches Ok(n) ==> super::objectives::exists_c_string(n@, 128),
    {
        let class = read_value::<R, u64>(self.readable, actor.wrapping_add(ACTOR_CLASS_OFFSET))?;
        let mut c = PClass::new(self.readable, self.offsets, &NameManager::new(self.readable, self.names), class);
        let n = c.name()?;
        Ok(n)
    }

    /// The first actor, sector by sector, whose class is called
    /// `actor_name`; `None` if there is none.
    pub fn find_actor(&self, actor_name: &str) -> (r: Result<Option<u64>, ReadError>)
        ensures
            r matches Ok(Some(a)) ==> a != 0,
    {
        let sectors = TArray::new(self.readable, self.address.wrapping_add(self.offsets.level_sectors));
        let addrs = sectors.iter_addr(SECTOR_SIZE)?;
        let wanted = actor_name.as_bytes();
        let mut s: usize = 0;
        while s < addrs.len()
            invariant
                s <= addrs@.len(),
            decreases addrs@.len() - s,
        {
            let mut next = addrs[s].wrapping_add(self.offsets.sector_thinglist);
            let mut n: u64 = 0;
            while n < SECTOR_ACTORS_MAX
                decreases SECTOR_ACTORS_MAX - n,
            {
                let actor = match read_value::<R, u64>(self.readable, next) {
                    Ok(a) => a,
                    Err(_) => {
                        break;
                    },
                };
                if actor == 0 {
                    break;
                }
                let name = self.actor_class_name(actor)?;
                if bytes_eq(name.as_slice(), wanted) {
                    return Ok(Some(actor));
                }
                next = actor.wrapping_add(ACTOR_SNEXT_OFFSET);
                n = n + 1;
            }
            s = s + 1;
        }
        Ok(None)
    }

    /// The class names of all actors, sector by sector, following each
    /// sector's chain through the `snext` field of the actor class.
    pub fn get_actor_names(&self, actor_class: &mut PClass<'a, R>) -> (r: Result<Vec<Vec<u8>>, RttiError>)
        ensures
            r is Err ==> r == Err::<Vec<Vec<u8>>, RttiError>(RttiError::Read) || r == Err::<Vec<Vec<u8>>, RttiError>(
                RttiError::UnknownVariable,
            ),
            r matches Ok(v) ==> forall|k: int| 0 <= k < v@.len() ==> #[trigger] super::objectives::exists_c_string(v@[k]@, 128),
    {
        let snext = actor_class.get_field_offset("snext")? as u64;
        let sectors = TArray::new(self.readable, self.address.wrapping_add(self.offsets.level_sectors));
        let addrs = match sectors.iter_addr(SECTOR_SIZE) {
            Ok(a) => a,
            Err(e) => {
                return Err(read_failed(e));
            },
        };
        let mut out: Vec<Vec<u8>> = Vec::new();
        let mut s: usize = 0;
        while s < addrs.len()
            invariant
                s <= addrs@.len(),
                forall|k: int| 0 <= k < out@.len() ==> #[trigger] super::objectives::exists_c_string(out@[k]@, 128),
            decreases addrs@.len() - s,
        {
            let mut next = addrs[s].wrapping_add(self.offsets.sector_thinglist);
            let mut n: u64 = 0;
            while n < SECTOR_ACTORS_MAX
                invariant
                    forall|k: int| 0 <= k < out@.len() ==> #[trigger] super::objectives::exists_c_string(out@[k]@, 128),
                decreases SECTOR_ACTORS_MAX - n,
            {
                let actor = match read_value::<R, u64>(self.readable, next) {
                    Ok(a) => a,
                    Err(_) => {
                        break;
                    },
                };
                if actor == 0 {
                    break;
                }
                let name = match self.actor_class_name(actor) {
                    Ok(n) => n,
                    Err(e) => {
                        return Err(read_failed(e));
                    },
                };
                out.push(name);
                next = actor.wrapping_add(snext);
                n = n + 1;
            }
            s = s + 1;
        }
        Ok(out)
    }
}

} // verus!
