//! The type information and game state of ZDoom-family engines.
use vstd::prelude::*;
use vstd::string::StringSliceAdditionalSpecFns;
use crate::memory::{bytes_eq, read_value};

pub mod catalog;
pub mod field_type;
pub mod level;
pub mod name_manager;
pub mod objectives;
pub mod pclass;
pub mod player;
pub mod tarray;
pub mod transition;

verus! {

/// The engine builds whose layouts this library knows.
#[derive(Clone, Copy, Debug, PartialEq, Eq, Structural)]
pub enum ZDoomVersion {
    /// LZDoom 3.82, as shipped with Dismantled: Director's Cut.
    Lzdoom3_82,
    /// A GZDoom 4.8 prerelease, as shipped with Selaco.
    Gzdoom4_8Pre,
    /// GZDoom 4.8.2, as shipped with Snap the Sentinel.
    Gzdoom4_8_2,
}

/// Byte offsets that differ between engine builds.
#[derive(Clone, Copy, Debug, PartialEq, Eq, Structural)]
pub struct Offsets {
    pub pclass_fields: u64,
    pub level_mapname: u64,
    pub level_sectors: u64,
    pub sector_thinglist: u64,
}

/// The offsets of each known build.
pub open spec fn offsets_of(version: ZDoomVersion) -> Offsets {
    match version {
        ZDoomVersion::Lzdoom3_82 => Offsets {
            pclass_fields: 0x78,
            level_mapname: 0x2C0,
            level_sectors: 0x10,
            sector_thinglist: 0x180,
        },
        ZDoomVersion::Gzdoom4_8Pre => Offsets {
            pclass_fields: 0x80,
            level_mapname: 0x9F8,
            level_sectors: 0x50,
            sector_thinglist: 0x268,
        },
        ZDoomVersion::Gzdoom4_8_2 => Offsets {
            pclass_fields: 0x78,
            level_mapname: 0x9D8,
            level_sectors: 0x50,
            sector_thinglist: 0x268,
        },
    }
}

impl Offsets {
    /// The offsets of the build `version`.
    pub fn new(version: ZDoomVersion) -> (r: Offsets)
        ensures
            r == offsets_of(version),
    {
        match version {
            ZDoomVersion::Lzdoom3_82 => Offsets {
                pclass_fields: 0x78,
                level_mapname: 0x2C0,
                level_sectors: 0x10,
                sector_thinglist: 0x180,
            },
            ZDoomVersion::Gzdoom4_8Pre => Offsets {
                pclass_fields: 0x80,
                level_mapname: 0x9F8,
                level_sectors: 0x50,
                sector_thinglist: 0x268,
            },
            ZDoomVersion::Gzdoom4_8_2 => Offsets {
                pclass_fields: 0x78,
                level_mapname: 0x9D8,
                level_sectors: 0x50,
                sector_thinglist: 0x268,
            },
        }
    }
}

} // verus!

verus! {

/// What the game is about to do, as the engine's `gameaction_t`.
#[derive(Clone, Copy, Debug, PartialEq, Eq, Structural)]
pub enum GameAction {
    Nothing,
    LoadLevel,
    NewGame,
    NewGame2,
    RecordGame,
    LoadGame,
    LoadGameHideCon,
    LoadGamePlayDemo,
    AutoLoadGame,
    SaveGame,
    AutoSave,
    PlayDemo,
    Completed,
    Slideshow,
    WorldDone,
    Screenshot,
    ToggleMap,
    FullConsole,
    ResumeConversation,
    Intro,
    Intermission,
    TitleLoop,
}

/// The game action the engine stores as `v`, in the order of its enum.
pub open spec fn game_action_of(v: nat) -> Option<GameAction> {
    if v == 0 { Some(GameAction::Nothing) }
    else if v == 1 { Some(GameAction::LoadLevel) }
    else if v == 2 { Some(GameAction::NewGame) }
    else if v == 3 { Some(GameAction::NewGame2) }
    else if v == 4 { Some(GameAction::RecordGame) }
    else if v == 5 { Some(GameAction::LoadGame) }
    else if v == 6 { Some(GameAction::LoadGameHideCon) }
    else if v == 7 { Some(GameAction::LoadGamePlayDemo) }
    else if v == 8 { Some(GameAction::AutoLoadGame) }
    else if v == 9 { Some(GameAction::SaveGame) }
    else if v == 10 { Some(GameAction::AutoSave) }
    else if v == 11 { Some(GameAction::PlayDemo) }
    else if v == 12 { Some(GameAction::Completed) }
    else if v == 13 { Some(GameAction::Slideshow) }
    else if v == 14 { Some(GameAction::WorldDone) }
    else if v == 15 { Some(GameAction::Screenshot) }
    else if v == 16 { Some(GameAction::ToggleMap) }
    else if v == 17 { Some(GameAction::FullConsole) }
    else if v == 18 { Some(GameAction::ResumeConversation) }
    else if v == 19 { Some(GameAction::Intro) }
    else if v == 20 { Some(GameAction::Intermission) }
    else if v == 21 { Some(GameAction::TitleLoop) }
    else { None }
}

impl GameAction {
    /// The game action stored as `v`, if `v` is one.
    pub fn from_u32(v: u32) -> (r: Option<GameAction>)
        ensures
            r == game_action_of(v as nat),
    {
        match v {
            0 => Some(GameAction::Nothing),
            1 => Some(GameAction::LoadLevel),
            2 => Some(GameAction::NewGame),
            3 => Some(GameAction::NewGame2),
            4 => Some(GameAction::RecordGame),
            5 => Some(GameAction::LoadGame),
            6 => Some(GameAction::LoadGameHideCon),
            7 => Some(GameAction::LoadGamePlayDemo),
            8 => Some(GameAction::AutoLoadGame),
            9 => Some(GameAction::SaveGame),
            10 => Some(GameAction::AutoSave),
            11 => Some(GameAction::PlayDemo),
            12 => Some(GameAction::Completed),
            13 => Some(GameAction::Slideshow),
            14 => Some(GameAction::WorldDone),
            15 => Some(GameAction::Screenshot),
            16 => Some(GameAction::ToggleMap),
            17 => Some(GameAction::FullConsole),
            18 => Some(GameAction::ResumeConversation),
            19 => Some(GameAction::Intro),
            20 => Some(GameAction::Intermission),
            21 => Some(GameAction::TitleLoop),
            _ => None,
        }
    }
}

impl crate::value::Decode for GameAction {
    open spec fn spec_size() -> nat {
        4
    }

    open spec fn spec_decode(b: Seq<u8>) -> Option<GameAction> {
        game_action_of(crate::bytes::le_value(b))
    }

    open spec fn spec_default() -> GameAction {
        GameAction::Nothing
    }

    fn size() -> (r: usize) {
        4
    }

    fn decode(b: &[u8]) -> (r: Option<GameAction>) {
        proof {
            assert(b@.subrange(0, 4) =~= b@);
        }
        let v = crate::bytes::read_le(b, 4);
        if v > 21 {
            return None;
        }
        GameAction::from_u32(v as u32)
    }

    fn default_value() -> (r: GameAction) {
        GameAction::Nothing
    }

    fn same(&self, other: &GameAction) -> (r: bool) {
        *self == *other
    }
}

} // verus!

verus! {

/// Where the engine's global tables lie in one attached process, and the
/// layout of its build.
#[derive(Clone, Copy, Debug, PartialEq, Eq, Structural)]
pub struct Memory {
    pub namedata_addr: u64,
    pub players_addr: u64,
    pub all_classes_addr: u64,
    pub level_addr: u64,
    pub gameaction_addr: u64,
    pub offsets: Offsets,
}

/// The address the first of `targets` that resolves in the module bytes
/// `hay`, loaded at `base`, leads to; `None` if none resolves.
pub open spec fn resolved_address(hay: Seq<u8>, base: u64, targets: Seq<crate::signature::TargetView>) -> Option<u64> {
    match crate::signature::first_resolved_from(hay, base, targets, 0) {
        Some((_, a)) => Some(a),
        None => None,
    }
}

/// Whether `m` holds the addresses that the signature lists lead to in the
/// module bytes `hay` loaded at `base`; the level record is found directly,
/// or else through a pointer, read as `level_ptr`, at the address the
/// indirect list leads to.
pub open spec fn found_in(m: Memory, hay: Seq<u8>, base: u64, level_ptr: u64) -> bool {
    &&& resolved_address(hay, base, catalog::namedata_target_views()) == Some(m.namedata_addr)
    &&& resolved_address(hay, base, catalog::players_target_views()) == Some(m.players_addr)
    &&& resolved_address(hay, base, catalog::all_classes_target_views()) == Some(m.all_classes_addr)
    &&& resolved_address(hay, base, catalog::gameaction_target_views()) == Some(m.gameaction_addr)
    &&& match resolved_address(hay, base, catalog::level_direct_target_views()) {
        Some(a) => m.level_addr == a,
        None => resolved_address(hay, base, catalog::level_indirect_target_views()) is Some && m.level_addr
            == level_ptr,
    }
}

/// Whether `m` holds the addresses the signature lists lead to in some
/// module bytes that were read.
pub open spec fn found_by_scan(m: Memory) -> bool {
    exists|hay: Seq<u8>, base: u64, level_ptr: u64| #[trigger] found_in(m, hay, base, level_ptr)
}

/// Whether some list of signatures resolves nowhere in `hay`.
pub open spec fn some_list_missing(hay: Seq<u8>, base: u64) -> bool {
    ||| resolved_address(hay, base, catalog::namedata_target_views()) is None
    ||| resolved_address(hay, base, catalog::players_target_views()) is None
    ||| resolved_address(hay, base, catalog::all_classes_target_views()) is None
    ||| resolved_address(hay, base, catalog::gameaction_target_views()) is None
    ||| (resolved_address(hay, base, catalog::level_direct_target_views()) is None && resolved_address(
        hay,
        base,
        catalog::level_indirect_target_views(),
    ) is None)
}

fn find_in(hay: &[u8], base: u64, targets: &Vec<crate::signature::ScanTarget>) -> (r: Option<u64>)
    ensures
        r == resolved_address(hay@, base, crate::signature::target_views(targets@)),
{
    match crate::signature::find_address(hay, base, targets.as_slice()) {
        Some((_, a)) => Some(a),
        None => None,
    }
}

impl Memory {
    /// Finds the engine's globals by scanning the module `main_module_name`
    /// with the signatures of each list, tried in order; the address of
    /// each global is the one the first resolving signature of its list
    /// leads to.
    pub fn new<R: crate::memory::Readable>(readable: &R, version: ZDoomVersion, main_module_name: &str) -> (r: Result<Memory, crate::rtti::RttiError>)
        ensures
            r matches Ok(m) ==> m.offsets == offsets_of(version),
            r matches Ok(m) ==> found_by_scan(m),
            r == Err::<Memory, crate::rtti::RttiError>(crate::rtti::RttiError::SignatureNotFound) ==> exists|
                hay: Seq<u8>,
                base: u64,
            | #[trigger] some_list_missing(hay, base),
            r is Err ==> r == Err::<Memory, crate::rtti::RttiError>(crate::rtti::RttiError::Read) || r == Err::<
                Memory,
                crate::rtti::RttiError,
            >(crate::rtti::RttiError::SignatureNotFound),
    {
        let module = match readable.module_range(main_module_name) {
            Ok(m) => m,
            Err(e) => {
                return Err(crate::rtti::read_failed(e));
            },
        };
        if module.len > usize::MAX as u64 {
            return Err(crate::rtti::RttiError::Read);
        }
        let bytes = match crate::memory::read_exact(readable, module.base, module.len as usize) {
            Ok(h) => h,
            Err(e) => {
                return Err(crate::rtti::read_failed(e));
            },
        };
        let hay = bytes.as_slice();
        let base = module.base;
        let namedata = find_in(hay, base, &catalog::namedata_targets());
        let players = find_in(hay, base, &catalog::players_targets());
        let all_classes = find_in(hay, base, &catalog::all_classes_targets());
        let gameaction = find_in(hay, base, &catalog::gameaction_targets());
        let level_direct = find_in(hay, base, &catalog::level_direct_targets());
        let level_indirect = find_in(hay, base, &catalog::level_indirect_targets());
        let (namedata_addr, players_addr, all_classes_addr, gameaction_addr) = match (namedata, players, all_classes, gameaction) {
            (Some(a), Some(b), Some(c), Some(d)) => (a, b, c, d),
            _ => {
                assert(some_list_missing(hay@, base));
                return Err(crate::rtti::RttiError::SignatureNotFound);
            },
        };
        let mut level_ptr: u64 = 0;
        let level_addr = match level_direct {
            Some(a) => a,
            None => match level_indirect {
                Some(p) => {
                    level_ptr = match read_value::<R, u64>(readable, p) {
                        Ok(a) => a,
                        Err(e) => {
                            return Err(crate::rtti::read_failed(e));
                        },
                    };
                    level_ptr
                },
                None => {
                    assert(some_list_missing(hay@, base));
                    return Err(crate::rtti::RttiError::SignatureNotFound);
                },
            },
        };
        let m = Memory {
            namedata_addr,
            players_addr,
            all_classes_addr,
            level_addr,
            gameaction_addr,
            offsets: Offsets::new(version),
        };
        assert(found_in(m, hay@, base, level_ptr));
        assert(found_by_scan(m));
        Ok(m)
    }
}

/// Whether a class array's walk kept `n` entries by the rule that keeps
/// every entry before the first null one: for some entries read, `n` is
/// what that rule keeps of them.
pub open spec fn class_array_walked(n: nat) -> bool {
    exists|heads: Seq<u64>| #[trigger] crate::rtti::kept_entries(heads, heads.len()) == n
}

/// Whether one of `names` is `name`.
pub fn has_name(names: &Vec<Vec<u8>>, name: &str) -> (r: bool)
    ensures
        r == names@.map_values(|n: Vec<u8>| n@).contains(name.spec_bytes()),
{
    let ghost ns = names@.map_values(|n: Vec<u8>| n@);
    let mut i: usize = 0;
    while i < names.len()
        invariant
            i <= names@.len(),
            ns == names@.map_values(|n: Vec<u8>| n@),
            forall|j: int| 0 <= j < i ==> ns[j] != name.spec_bytes(),
        decreases names@.len() - i,
    {
        if bytes_eq(names[i].as_slice(), name.as_bytes()) {
            assert(ns[i as int] == name.spec_bytes());
            return true;
        }
        i = i + 1;
    }
    false
}

/// The name of the class every actor derives from.
pub const ACTOR_CLASS_NAME: &'static str = "Actor";

/// An attached ZDoom engine: where its globals lie, its classes, its level
/// and the per-tick values read from it.
pub struct ZDoom<'a, R: crate::memory::Readable> {
    readable: &'a R,
    pub memory: Memory,
    classes: Vec<pclass::PClass<'a, R>>,
    class_names: Vec<Vec<u8>>,
    pub level: level::Level<'a, R>,
    gameaction: Option<GameAction>,
}

impl<'a, R: crate::memory::Readable> ZDoom<'a, R> {
    /// The names of the classes, in the order of the class array.
    pub closed spec fn spec_class_names(&self) -> Seq<Seq<u8>> {
        self.class_names@.map_values(|n: Vec<u8>| n@)
    }

    /// What is known of each class, in the order of the class array.
    pub closed spec fn spec_classes(&self) -> Seq<pclass::ClassView> {
        self.classes@.map_values(|c: pclass::PClass<'a, R>| c@)
    }

    /// Where the engine's globals lie.
    pub closed spec fn spec_memory(&self) -> Memory {
        self.memory
    }

    /// The map name of the level read this tick, if any.
    pub closed spec fn level_name_memo(&self) -> Option<Seq<u8>> {
        self.level.name_memo()
    }

    /// The game action read this tick, if any.
    pub closed spec fn gameaction_memo(&self) -> Option<GameAction> {
        self.gameaction
    }

    /// One attempt at attaching: finds the globals, reads the name of every
    /// class of the class array up to its first null entry, and checks that
    /// the actor class is among them.
    pub fn load(readable: &'a R, version: ZDoomVersion, main_module_name: &str) -> (r: Result<Self, crate::rtti::RttiError>)
        ensures
            r is Ok ==> r->Ok_0.spec_memory().offsets == offsets_of(version) && found_by_scan(r->Ok_0.spec_memory())
                && r->Ok_0.spec_class_names().contains(ACTOR_CLASS_NAME.spec_bytes()) && r->Ok_0.gameaction_memo()
                is None,
            r is Ok ==> class_array_walked(r->Ok_0.spec_class_names().len()),
    {
        let memory = Memory::new(readable, version, main_module_name)?;
        let names = name_manager::NameManager::new(readable, memory.namedata_addr);
        let all = tarray::TArray::new(readable, memory.all_classes_addr);
        let addrs = match all.iter::<u64>() {
            Ok(a) => a,
            Err(e) => {
                return Err(crate::rtti::read_failed(e));
            },
        };
        let n = crate::rtti::entries_kept(addrs.as_slice(), addrs.len() as u64) as usize;
        let mut classes: Vec<pclass::PClass<'a, R>> = Vec::new();
        let mut class_names: Vec<Vec<u8>> = Vec::new();
        let mut i: usize = 0;
        while i < n
            invariant
                i <= n,
                n <= addrs@.len(),
                classes@.len() == i,
                class_names@.len() == i,
            decreases n - i,
        {
            let mut c = pclass::PClass::new(readable, memory.offsets, &names, addrs[i]);
            let name = match c.name() {
                Ok(name) => name,
                Err(e) => {
                    return Err(crate::rtti::read_failed(e));
                },
            };
            classes.push(c);
            class_names.push(name);
            i = i + 1;
        }
        assert(class_array_walked(n as nat)) by {
            assert(crate::rtti::kept_entries(addrs@, addrs@.len()) == n);
        }
        ZDoom::from_classes(readable, memory, classes, class_names)
    }

    /// The engine attached with the globals `memory` and the classes read,
    /// `classes` under the names `class_names`; refused when no class is the
    /// actor class.
    pub fn from_classes(
        readable: &'a R,
        memory: Memory,
        classes: Vec<pclass::PClass<'a, R>>,
        class_names: Vec<Vec<u8>>,
    ) -> (r: Result<Self, crate::rtti::RttiError>)
        ensures
            r == Err::<Self, crate::rtti::RttiError>(crate::rtti::RttiError::UnknownClass) <==> !class_names@.map_values(
                |n: Vec<u8>| n@,
            ).contains(ACTOR_CLASS_NAME.spec_bytes()),
            r is Err ==> r == Err::<Self, crate::rtti::RttiError>(crate::rtti::RttiError::UnknownClass),
            r matches Ok(z) ==> z.spec_memory() == memory && z.spec_class_names() == class_names@.map_values(
                |n: Vec<u8>| n@,
            ) && z.spec_classes() == classes@.map_values(|c: pclass::PClass<'a, R>| c@) && z.gameaction_memo() is None,
    {
        if !has_name(&class_names, ACTOR_CLASS_NAME) {
            return Err(crate::rtti::RttiError::UnknownClass);
        }
        let names = name_manager::NameManager::new(readable, memory.namedata_addr);
        let level = level::Level::new(readable, memory.offsets, &names, memory.level_addr);
        Ok(ZDoom { readable, memory, classes, class_names, level, gameaction: None })
    }

    /// Forgets the values read this tick, so that the next tick reads again.
    pub fn invalidate_cache(&mut self)
        ensures
            final(self).gameaction_memo() is None,
            final(self).level_name_memo() is None,
            final(self).spec_class_names() == old(self).spec_class_names(),
            final(self).spec_classes() == old(self).spec_classes(),
            final(self).spec_memory() == old(self).spec_memory(),
    {
        self.level.invalidate_cache();
        self.gameaction = None;
    }

    /// The names of the classes, in the order of the class array.
    pub fn class_names(&self) -> (r: Vec<Vec<u8>>)
        ensures
            r@.len() == self.spec_class_names().len(),
            forall|k: int| 0 <= k < r@.len() ==> #[trigger] r@[k]@ == self.spec_class_names()[k],
    {
        let mut out: Vec<Vec<u8>> = Vec::new();
        let mut i: usize = 0;
        while i < self.class_names.len()
            invariant
                i <= self.class_names@.len(),
                out@.len() == i,
                forall|k: int| 0 <= k < i ==> #[trigger] out@[k]@ == self.class_names@[k]@,
            decreases self.class_names@.len() - i,
        {
            out.push(crate::memory::copy_bytes(self.class_names[i].as_slice()));
            i = i + 1;
        }
        out
    }

    /// The class called `name`, with nothing of it read beyond its name;
    /// where two share the name, the later. `None` if there is none.
    pub fn find_class(&self, name: &str) -> (r: Option<pclass::PClass<'a, R>>)
        ensures
            r is None <==> crate::rtti::last_index_of(self.spec_class_names(), name.spec_bytes()) is None,
            r matches Some(c) ==> c@.name is None && c@.fields is None,
    {
        let ghost ns = self.spec_class_names();
        proof {
            crate::rtti::lemma_last_index_of(ns, name.spec_bytes());
        }
        let wanted = name.as_bytes();
        let n = if self.class_names.len() < self.classes.len() { self.class_names.len() } else { self.classes.len() };
        let mut i: usize = self.class_names.len();
        let mut found = false;
        assert(ns.subrange(0, i as int) =~= ns);
        while i > 0 && !found
            invariant
                i <= self.class_names@.len(),
                ns == self.spec_class_names(),
                crate::rtti::last_index_of(ns, wanted@) == crate::rtti::last_index_of(ns.subrange(0, i as int), wanted@),
                found ==> i > 0 && ns[i - 1] == wanted@,
            decreases i + (if found { 0int } else { 1int }),
        {
            if bytes_eq(self.class_names[i - 1].as_slice(), wanted) {
                found = true;
            } else {
                assert(ns.subrange(0, i as int).drop_last() =~= ns.subrange(0, i - 1));
                i = i - 1;
            }
        }
        if !found {
            assert(ns.subrange(0, 0) =~= Seq::<Seq<u8>>::empty());
            return None;
        }
        let names = name_manager::NameManager::new(self.readable, self.memory.namedata_addr);
        let address = if i - 1 < self.classes.len() { self.classes[i - 1].address() } else { 0 };
        Some(pclass::PClass::new(self.readable, self.memory.offsets, &names, address))
    }

    /// The byte offset of the field `field` declared by the class
    /// `class_name`. The class's fields and each offset are read once;
    /// asking again reads nothing.
    pub fn get_offset(&mut self, class_name: &str, field: &str) -> (r: Result<u32, crate::rtti::RttiError>)
        ensures
            final(self).spec_class_names() == old(self).spec_class_names(),
            r == Err::<u32, crate::rtti::RttiError>(crate::rtti::RttiError::UnknownClass) <==> crate::rtti::last_index_of(
                old(self).spec_class_names(),
                class_name.spec_bytes(),
            ) is None,
            r is Err ==> r == Err::<u32, crate::rtti::RttiError>(crate::rtti::RttiError::Read) || r == Err::<
                u32,
                crate::rtti::RttiError,
            >(crate::rtti::RttiError::UnknownClass) || r == Err::<u32, crate::rtti::RttiError>(
                crate::rtti::RttiError::UnknownVariable,
            ),
            final(self).spec_classes().len() == old(self).spec_classes().len(),
            crate::rtti::last_index_of(old(self).spec_class_names(), class_name.spec_bytes()) matches Some(i) ==> (i
                < old(self).spec_classes().len() ==> {
                &&& r is Ok ==> pclass::known_field_offset(final(self).spec_classes()[i], field.spec_bytes()) == Some(
                    r->Ok_0,
                )
                &&& pclass::known_field_offset(old(self).spec_classes()[i], field.spec_bytes()) is Some ==> r == Ok::<
                    u32,
                    crate::rtti::RttiError,
                >(pclass::known_field_offset(old(self).spec_classes()[i], field.spec_bytes())->Some_0)
                    && final(self).spec_classes() == old(self).spec_classes()
            }),
    {
        let ghost ns = self.spec_class_names();
        proof {
            crate::rtti::lemma_last_index_of(ns, class_name.spec_bytes());
        }
        let wanted = class_name.as_bytes();
        let mut i: usize = self.class_names.len();
        let mut found = false;
        assert(ns.subrange(0, i as int) =~= ns);
        while i > 0 && !found
            invariant
                i <= self.class_names@.len(),
                ns == self.spec_class_names(),
                crate::rtti::last_index_of(ns, wanted@) == crate::rtti::last_index_of(ns.subrange(0, i as int), wanted@),
                found ==> i > 0 && ns[i - 1] == wanted@,
            decreases i + (if found { 0int } else { 1int }),
        {
            if bytes_eq(self.class_names[i - 1].as_slice(), wanted) {
                found = true;
            } else {
                assert(ns.subrange(0, i as int).drop_last() =~= ns.subrange(0, i - 1));
                i = i - 1;
            }
        }
        if !found {
            assert(ns.subrange(0, 0) =~= Seq::<Seq<u8>>::empty());
            return Err(crate::rtti::RttiError::UnknownClass);
        }
        if i - 1 >= self.classes.len() {
            return Err(crate::rtti::RttiError::Read);
        }
        let ghost old_classes = self.classes@;
        let mut c = self.classes.remove(i - 1);
        assert(c == old_classes[i - 1]);
        let r = c.get_field_offset(field);
        self.classes.insert(i - 1, c);
        proof {
            let f = |x: pclass::PClass<'a, R>| x@;
            assert(self.classes@ =~= old_classes.update(i - 1, c));
            assert(self.classes@.map_values(f) =~= old_classes.map_values(f).update(i - 1, c@));
            assert(old_classes.map_values(f)[i - 1] == old_classes[i - 1]@);
            if pclass::known_field_offset(old_classes[i - 1]@, field.spec_bytes()) is Some {
                assert(self.classes@.map_values(f) =~= old_classes.map_values(f));
            }
        }
        match r {
            Ok(o) => Ok(o),
            Err(crate::rtti::RttiError::UnknownVariable) => Err(crate::rtti::RttiError::UnknownVariable),
            Err(_) => Err(crate::rtti::RttiError::Read),
        }
    }

    /// The name of the class of the object at `object`, whose class pointer
    /// lies right after its vtable pointer.
    pub fn class_name_of(&self, object: u64) -> (r: Result<Vec<u8>, crate::memory::ReadError>) {
        let class = read_value::<R, u64>(self.readable, object.wrapping_add(0x8))?;
        let names = name_manager::NameManager::new(self.readable, self.memory.namedata_addr);
        let mut c = pclass::PClass::new(self.readable, self.memory.offsets, &names, class);
        c.name()
    }

    /// The first player.
    pub fn player(&self) -> (r: player::Player<'a, R>)
        ensures
            r.actor_memo() is None && r.state_memo() is None,
    {
        player::Player::new(self.readable, self.memory.players_addr)
    }

    /// The game action of this tick, read once per tick.
    pub fn gameaction(&mut self) -> (r: Result<GameAction, crate::memory::ReadError>)
        ensures
            old(self).gameaction_memo() is Some ==> r == Ok::<GameAction, crate::memory::ReadError>(
                old(self).gameaction_memo()->Some_0,
            ),
            r is Ok ==> final(self).gameaction_memo() == Some(r->Ok_0),
            final(self).spec_class_names() == old(self).spec_class_names(),
    {
        match self.gameaction {
            Some(g) => Ok(g),
            None => {
                let g = read_value::<R, GameAction>(self.readable, self.memory.gameaction_addr)?;
                self.gameaction = Some(g);
                Ok(g)
            },
        }
    }
}

impl<'a, R: crate::memory::Readable> crate::rtti::TypeDirectory for ZDoom<'a, R> {
    fn field_offset(&mut self, project: &str, class: &str, field: &str) -> (r: Result<u64, crate::rtti::RttiError>)
        ensures
            r == Err::<u64, crate::rtti::RttiError>(crate::rtti::RttiError::UnknownClass) <==> crate::rtti::last_index_of(
                old(self).spec_class_names(),
                class.spec_bytes(),
            ) is None,
    {
        match self.get_offset(class, field) {
            Ok(o) => Ok(o as u64),
            Err(e) => Err(e),
        }
    }
}

} // verus!
