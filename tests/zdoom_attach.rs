use autosplit_core::kururin::{flag_just_enabled, FLAG_HAS_FINISHED};
use autosplit_core::memory::{ModuleRange, ReadError, Readable};
use autosplit_core::pointer::{Invalidatable, MemoryWatcher};
use autosplit_core::rtti::{RttiError, TypeDirectory};
use autosplit_core::splits::SplitRecord;
use autosplit_core::zdoom::player::PlayerState;
use autosplit_core::zdoom::transition::LevelTransitionLoadState;
use autosplit_core::zdoom::{GameAction, ZDoom, ZDoomVersion};
use std::cell::{Cell, RefCell};
use std::collections::BTreeMap;

struct Mem {
    bytes: RefCell<BTreeMap<u64, u8>>,
    module: ModuleRange,
    reads: Cell<usize>,
}

impl Mem {
    fn put(&self, address: u64, data: &[u8]) {
        let mut b = self.bytes.borrow_mut();
        for (i, v) in data.iter().enumerate() {
            b.insert(address + i as u64, *v);
        }
    }

    fn put_u64(&self, address: u64, v: u64) {
        self.put(address, &v.to_le_bytes());
    }

    fn put_u32(&self, address: u64, v: u32) {
        self.put(address, &v.to_le_bytes());
    }

    fn put_str(&self, address: u64, s: &str) {
        let mut b = s.as_bytes().to_vec();
        b.resize(128, 0);
        self.put(address, &b);
    }
}

impl Readable for Mem {
    fn read_bytes(&self, address: u64, len: usize) -> Result<Vec<u8>, ReadError> {
        self.reads.set(self.reads.get() + 1);
        let b = self.bytes.borrow();
        let mut out = Vec::new();
        for i in 0..len as u64 {
            match b.get(&(address + i)) {
                Some(v) => out.push(*v),
                None => return Err(ReadError),
            }
        }
        Ok(out)
    }

    fn module_range(&self, name: &str) -> Result<ModuleRange, ReadError> {
        if name == "lzdoom.exe" {
            Ok(self.module)
        } else {
            Err(ReadError)
        }
    }
}

const BASE: u64 = 0x14000_0000;

fn pattern_bytes(text: &str) -> Vec<u8> {
    text.split_whitespace()
        .map(|t| if t == "??" { 0 } else { u8::from_str_radix(t, 16).unwrap() })
        .collect()
}

/// Places `text` at `at` in the module, with the displacement `offset`
/// bytes past it leading to `target`.
fn place(module: &mut [u8], text: &str, at: usize, offset: usize, next: u64, target: u64) {
    let p = pattern_bytes(text);
    module[at..at + p.len()].copy_from_slice(&p);
    let field = at + offset;
    let disp = target as i64 - (field as i64 + next as i64);
    module[field..field + 4].copy_from_slice(&(disp as i32).to_le_bytes());
}

fn build(class_names: &[&str]) -> Mem {
    build_with_nulls(class_names, 0)
}

/// As `build`, with `nulls` null entries after the classes in the class
/// array, all counted.
fn build_with_nulls(class_names: &[&str], nulls: u32) -> Mem {
    let mut module = vec![0u8; 0x2000];
    place(&mut module, "0F 84 ?? ?? ?? ?? 48 8B D1 41 B0 01 48 8D 0D ?? ?? ?? ??", 0x100, 0xF, 4, 0x1000);
    place(&mut module, "48 8D 05 ?? ?? ?? ?? 48 03 C8 E8 ?? ?? ?? ?? 48 63 05", 0x200, 0x3, 4, 0x1100);
    place(&mut module, "48 8B 1D ?? ?? ?? ?? 8B 05 ?? ?? ?? ?? 48 8D 3C C3 48 3B DF 0F 84", 0x300, 0x3, 4, 0x1200);
    place(&mut module, "75 D1 89 2D ?? ?? ?? ?? 8B 05 ?? ?? ??", 0x400, 0x4, 4, 0x1300);
    place(
        &mut module,
        "B2 01 89 05 ?? ?? ?? ?? E8 ?? ?? ?? ?? C7 05 ?? ?? ?? ?? 03 00 00 00 C7 05 ?? ?? ?? ?? 02 00 00 00",
        0x500,
        0xF,
        8,
        0x1400,
    );
    let m = Mem { bytes: RefCell::new(BTreeMap::new()), module: ModuleRange { base: BASE, len: 0x2000 }, reads: Cell::new(0) };
    m.put(BASE, &module);
    // name table
    let entries = 0x5000_0000u64;
    m.put_u64(BASE + 0x1000 + 0x8, entries);
    for (i, n) in class_names.iter().enumerate() {
        let at = 0x5100_0000 + i as u64 * 0x100;
        m.put_u64(entries + i as u64 * 0x10, at);
        m.put_str(at, n);
    }
    // class array
    let items = 0x5200_0000u64;
    m.put_u64(BASE + 0x1200, items);
    m.put_u32(BASE + 0x1208, class_names.len() as u32 + nulls);
    for j in 0..nulls as u64 {
        m.put_u64(items + (class_names.len() as u64 + j) * 8, 0);
    }
    for i in 0..class_names.len() as u64 {
        let class = 0x5300_0000 + i * 0x1000;
        m.put_u64(items + i * 8, class);
        m.put_u32(class + 0x38, i as u32);
    }
    // one field, Health at 0x10C, declared by the first class
    let health_name = 0x5100_0000 + class_names.len() as u64 * 0x100;
    m.put_u64(entries + class_names.len() as u64 * 0x10, health_name);
    m.put_str(health_name, "Health");
    let fields = 0x5500_0000u64;
    m.put_u64(0x5300_0000 + 0x78, fields);
    m.put_u32(0x5300_0000 + 0x78 + 0x8, 1);
    m.put_u64(fields, 0x5600_0000);
    m.put_u32(0x5600_0000 + 0x28, class_names.len() as u32);
    m.put_u32(0x5600_0000 + 0x38, 0x10C);
    // level name and game action
    m.put_u64(BASE + 0x1300 + 0x2C0, 0x5400_0000);
    m.put_str(0x5400_0000, "MAP01");
    m.put_u32(BASE + 0x1400, 14);
    m
}

#[test]
fn engine_attaches_and_reads_globals() {
    let m = build(&["Actor", "PlayerPawn"]);
    let mut z = ZDoom::load(&m, ZDoomVersion::Lzdoom3_82, "lzdoom.exe").ok().unwrap();
    assert_eq!(z.class_names(), vec![b"Actor".to_vec(), b"PlayerPawn".to_vec()]);
    assert!(z.find_class("PlayerPawn").is_some());
    assert!(z.find_class("Zombie").is_none());
    assert_eq!(z.gameaction(), Ok(GameAction::WorldDone));
    assert_eq!(z.level.name(), Ok(b"MAP01".to_vec()));
    assert_eq!(z.memory.players_addr, BASE + 0x1100);
    assert_eq!(z.get_offset("Zombie", "Health"), Err(RttiError::UnknownClass));
}

#[test]
fn attach_needs_the_actor_class() {
    let m = build(&["Inventory"]);
    assert!(matches!(ZDoom::load(&m, ZDoomVersion::Lzdoom3_82, "lzdoom.exe"), Err(RttiError::UnknownClass)));
    assert!(matches!(ZDoom::load(&m, ZDoomVersion::Lzdoom3_82, "gzdoom.exe"), Err(RttiError::Read)));
}

#[test]
fn attach_fails_without_signatures() {
    let m = Mem { bytes: RefCell::new(BTreeMap::new()), module: ModuleRange { base: BASE, len: 0x100 }, reads: Cell::new(0) };
    m.put(BASE, &[0u8; 0x100]);
    assert!(matches!(
        ZDoom::load(&m, ZDoomVersion::Lzdoom3_82, "lzdoom.exe"),
        Err(RttiError::SignatureNotFound)
    ));
}

#[test]
fn level_transition_goes_through_world_done() {
    let mut s = LevelTransitionLoadState::NotTransitioning;
    let mut loading = Vec::new();
    for a in [
        GameAction::Nothing,
        GameAction::Completed,
        GameAction::Nothing,
        GameAction::WorldDone,
        GameAction::AutoSave,
        GameAction::Nothing,
    ] {
        s = s.next(a);
        loading.push(s.is_loading(PlayerState::Live));
    }
    assert_eq!(loading, vec![false, true, true, true, true, false]);
    assert!(LevelTransitionLoadState::NotTransitioning.is_loading(PlayerState::Enter));
    assert_eq!(LevelTransitionLoadState::ActionWorldDone.next(GameAction::Nothing), LevelTransitionLoadState::NotTransitioning);
}

#[test]
fn each_split_is_taken_once_per_run() {
    let mut r = SplitRecord::new();
    assert!(!r.try_split(b"_level_map02", Some(false)));
    assert!(!r.try_split(b"_level_map02", None));
    assert!(r.try_split(b"_level_map02", Some(true)));
    assert!(!r.try_split(b"_level_map02", Some(true)));
    assert!(r.contains(b"_level_map02"));
    assert!(r.try_split(b"_level_map03", Some(true)));
    r.clear();
    assert!(!r.contains(b"_level_map02"));
    assert!(r.try_split(b"_level_map02", Some(true)));
}

#[test]
fn finished_flag_is_seen_when_it_turns_on() {
    let m = build(&["Actor"]);
    m.put_u32(0x6000_0000, 0x2);
    let mut w: MemoryWatcher<Mem, u32> = MemoryWatcher::new(&m, 0x6000_0000, vec![0x0]);
    assert_eq!(flag_just_enabled(&mut w, FLAG_HAS_FINISHED), Ok(false));
    assert_eq!(w.current(), Ok(0x2));
    w.invalidate();
    m.put_u32(0x6000_0000, 0xA);
    assert_eq!(flag_just_enabled(&mut w, FLAG_HAS_FINISHED), Ok(true));
    w.invalidate();
    assert_eq!(flag_just_enabled(&mut w, FLAG_HAS_FINISHED), Ok(false));
}

fn offset_through<D: TypeDirectory>(d: &mut D, project: &str, class: &str, field: &str) -> Result<u64, RttiError> {
    d.field_offset(project, class, field)
}

#[test]
fn engine_answers_field_offsets_by_name() {
    let m = build(&["Actor", "PlayerPawn"]);
    let mut z = ZDoom::load(&m, ZDoomVersion::Lzdoom3_82, "lzdoom.exe").ok().unwrap();
    assert_eq!(z.get_offset("Actor", "Health"), Ok(0x10C));
    assert_eq!(offset_through(&mut z, "", "Actor", "Health"), Ok(0x10C));
    assert_eq!(offset_through(&mut z, "", "Actor", "Speed"), Err(RttiError::UnknownVariable));
    assert_eq!(offset_through(&mut z, "", "Imp", "Health"), Err(RttiError::UnknownClass));
}

#[test]
fn field_offset_is_read_once() {
    let m = build(&["Actor"]);
    let mut z = ZDoom::load(&m, ZDoomVersion::Lzdoom3_82, "lzdoom.exe").ok().unwrap();
    assert_eq!(z.get_offset("Actor", "Health"), Ok(0x10C));
    let after_first = m.reads.get();
    assert_eq!(z.get_offset("Actor", "Health"), Ok(0x10C));
    assert_eq!(m.reads.get(), after_first);
}

#[test]
fn class_array_stops_at_null_entry() {
    let m = build_with_nulls(&["Actor", "PlayerPawn", "Inventory"], 7);
    let z = ZDoom::load(&m, ZDoomVersion::Lzdoom3_82, "lzdoom.exe").ok().unwrap();
    assert_eq!(z.class_names().len(), 3);
}
