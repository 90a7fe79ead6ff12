use autosplit_core::idtech::{enumerate_classes, ClassTypeInfo, IdTech, IdTechVersion, Memory, TypeInfoTools};
use autosplit_core::memory::{ModuleRange, ReadError, Readable};
use autosplit_core::rtti::{entries_kept, RttiError, TypeDirectory};
use std::cell::{Cell, RefCell};
use std::collections::BTreeMap;

struct Mem {
    bytes: RefCell<BTreeMap<u64, u8>>,
    reads: Cell<usize>,
    module: Option<ModuleRange>,
}

impl Mem {
    fn new() -> Mem {
        Mem { bytes: RefCell::new(BTreeMap::new()), reads: Cell::new(0), module: None }
    }

    fn put(&self, address: u64, data: &[u8]) {
        let mut b = self.bytes.borrow_mut();
        for (i, v) in data.iter().enumerate() {
            b.insert(address + i as u64, *v);
        }
    }

    fn put_u64(&self, address: u64, v: u64) {
        self.put(address, &v.to_le_bytes());
    }

    fn put_u32(&self, address: u64, v: u32) {
        self.put(address, &v.to_le_bytes());
    }

    /// A zero-terminated string padded to the length names are read with.
    fn put_str(&self, address: u64, s: &str) {
        let mut b = s.as_bytes().to_vec();
        b.resize(512, 0);
        self.put(address, &b);
    }
}

impl Readable for Mem {
    fn read_bytes(&self, address: u64, len: usize) -> Result<Vec<u8>, ReadError> {
        self.reads.set(self.reads.get() + 1);
        let b = self.bytes.borrow();
        let mut out = Vec::new();
        for i in 0..len as u64 {
            match b.get(&(address + i)) {
                Some(v) => out.push(*v),
                None => return Err(ReadError),
            }
        }
        Ok(out)
    }

    fn module_range(&self, name: &str) -> Result<ModuleRange, ReadError> {
        match self.module {
            Some(m) if name == "DOOMTheDarkAges.exe" => Ok(m),
            _ => Err(ReadError),
        }
    }
}

/// Writes a class record at `slot` named `name` with the given variables
/// (name, offset), its variable table at `vars`, strings from `strings`.
fn put_class(m: &Mem, slot: u64, name: &str, vars: u64, fields: &[(&str, u32)], strings: &mut u64) {
    let name_at = *strings;
    *strings += 0x400;
    m.put_str(name_at, name);
    m.put_u64(slot, name_at);
    m.put_u64(slot + 0x28, vars);
    for (j, (f, o)) in fields.iter().enumerate() {
        let v = vars + j as u64 * 0x58;
        let f_at = *strings;
        *strings += 0x400;
        m.put_str(f_at, f);
        m.put_u64(v, 0x1);
        m.put_u64(v + 0x10, f_at);
        m.put_u32(v + 0x18, *o);
    }
    m.put_u64(vars + fields.len() as u64 * 0x58, 0);
}

/// Writes a project record at `record` named `name` whose class array at
/// `classes` states `count` entries.
fn put_project(m: &Mem, record: u64, name: &str, classes: u64, count: u32, strings: &mut u64) {
    let generated = *strings;
    *strings += 0x400;
    let name_at = *strings;
    *strings += 0x400;
    m.put_u64(record, generated);
    m.put_u64(generated, name_at);
    m.put_str(name_at, name);
    m.put_u64(generated + 0x18, classes);
    m.put_u32(generated + 0x20, count);
}

fn build() -> Mem {
    let m = Mem::new();
    let mut strings = 0x10_0000u64;
    let tools = 0x1000u64;
    put_project(&m, tools, "Engine", 0x2000, 10, &mut strings);
    put_project(&m, tools + 0x38, "Game", 0x3000, 2, &mut strings);
    put_class(&m, 0x2000, "idVec3", 0x5000, &[("x", 0x0), ("y", 0x4), ("z", 0x8)], &mut strings);
    put_class(&m, 0x2058, "idAngles", 0x5400, &[("pitch", 0x0)], &mut strings);
    put_class(&m, 0x20B0, "idMat3", 0x5800, &[], &mut strings);
    m.put_u64(0x2108, 0);
    put_class(&m, 0x3000, "idPlayer", 0x6000, &[("idPlayerPhysicsInfo", 0x1234)], &mut strings);
    put_class(&m, 0x3058, "idGameSystemLocal", 0x6400, &[("state", 0x40), ("mapInstance", 0x48)], &mut strings);
    m
}

#[test]
fn class_enumeration_stops_at_null_entry() {
    let m = build();
    let classes = enumerate_classes(&m, 0x2000, 10).unwrap();
    assert_eq!(classes.len(), 3);
    assert_eq!(classes[2].name, b"idMat3".to_vec());
}

#[test]
fn class_enumeration_stops_at_stated_count() {
    let m = build();
    assert_eq!(enumerate_classes(&m, 0x2000, 2).unwrap().len(), 2);
}

#[test]
fn projects_and_classes_are_found_by_name() {
    let m = build();
    let tools = TypeInfoTools::try_load(&m, 0x1000).unwrap();
    assert!(tools.get_project("Engine").is_some());
    assert!(tools.get_project("Renderer").is_none());
    let game = tools.get_project("Game").unwrap();
    assert_eq!(game.get_class("idPlayer").unwrap().name, b"idPlayer".to_vec());
    assert!(game.get_class("idVec3").is_none());
}

#[test]
fn variable_offsets_are_read() {
    let m = build();
    let mut tools = TypeInfoTools::try_load(&m, 0x1000).unwrap();
    assert_eq!(tools.get_offset("Engine", "idVec3", "y"), Ok(0x4));
    assert_eq!(tools.get_offset("Game", "idGameSystemLocal", "mapInstance"), Ok(0x48));
    assert_eq!(tools.get_offset("Game", "idPlayer", "idPlayerPhysicsInfo"), Ok(0x1234));
}

#[test]
fn missing_names_are_distinct_errors() {
    let m = build();
    let mut tools = TypeInfoTools::try_load(&m, 0x1000).unwrap();
    assert_eq!(tools.get_offset("Renderer", "idVec3", "x"), Err(RttiError::UnknownProject));
    assert_eq!(tools.get_offset("Engine", "idQuat", "x"), Err(RttiError::UnknownClass));
    assert_eq!(tools.get_offset("Engine", "idVec3", "w"), Err(RttiError::UnknownVariable));
    assert_eq!(tools.get_offset("Engine", "idMat3", "x"), Err(RttiError::UnknownVariable));
}

#[test]
fn second_offset_query_reads_nothing() {
    let m = build();
    let mut tools = TypeInfoTools::try_load(&m, 0x1000).unwrap();
    assert_eq!(tools.get_offset("Engine", "idVec3", "z"), Ok(0x8));
    let after_first = m.reads.get();
    assert_eq!(tools.get_offset("Engine", "idVec3", "z"), Ok(0x8));
    assert_eq!(m.reads.get(), after_first);
}

#[test]
fn class_reads_its_variable_table_once() {
    let m = build();
    let mut c = ClassTypeInfo::init(&m, 0x2000).unwrap();
    assert_eq!(c.get_offset("x"), Ok(0x0));
    let after_first = m.reads.get();
    assert_eq!(c.get_offset("y"), Ok(0x4));
    assert_eq!(m.reads.get(), after_first + 1);
}

#[test]
fn engine_attaches_through_its_signature() {
    let mut m = build();
    let base = 0x40_0000u64;
    let mut module = vec![0u8; 0x1000];
    let pattern: [u8; 29] = [
        0x48, 0x8b, 0xfa, 0x4c, 0x89, 0x41, 0x08, 0x48, 0x8b, 0xd9, 0x48, 0x85, 0xd2, 0x74, 0x25, 0x48, 0x8b, 0x0d,
        0, 0, 0, 0, 0xe8, 0, 0, 0, 0, 0x89, 0x03,
    ];
    module[0x100..0x100 + 29].copy_from_slice(&pattern);
    let disp: i32 = 0x800 - (0x112 + 4);
    module[0x112..0x116].copy_from_slice(&disp.to_le_bytes());
    module[0x800..0x808].copy_from_slice(&0x1000u64.to_le_bytes());
    m.put(base, &module);
    m.module = Some(ModuleRange { base, len: 0x1000 });
    let mut engine = IdTech::try_load(&m, IdTechVersion::IdTech8, "DOOMTheDarkAges.exe").ok().unwrap();
    assert_eq!(engine.get_offset("Game", "idGameSystemLocal", "state"), Ok(0x40));
    assert_eq!(engine.field_offset("Engine", "idVec3", "z"), Ok(0x8));
    assert_eq!(engine.field_offset("Physics", "idVec3", "z"), Err(RttiError::UnknownProject));
    assert!(engine.get_class("Engine", "idVec3").is_ok());
    assert!(matches!(engine.get_class("Engine", "idQuat"), Err(RttiError::UnknownClass)));
}

#[test]
fn null_instance_is_refused() {
    let mut m = build();
    let base = 0x40_0000u64;
    let mut module = vec![0u8; 0x1000];
    let pattern: [u8; 29] = [
        0x48, 0x8b, 0xfa, 0x4c, 0x89, 0x41, 0x08, 0x48, 0x8b, 0xd9, 0x48, 0x85, 0xd2, 0x74, 0x25, 0x48, 0x8b, 0x0d,
        0, 0, 0, 0, 0xe8, 0, 0, 0, 0, 0x89, 0x03,
    ];
    module[0x100..0x100 + 29].copy_from_slice(&pattern);
    let disp: i32 = 0x800 - (0x112 + 4);
    module[0x112..0x116].copy_from_slice(&disp.to_le_bytes());
    m.put(base, &module);
    m.module = Some(ModuleRange { base, len: 0x1000 });
    assert!(matches!(IdTech::try_load(&m, IdTechVersion::IdTech8, "DOOMTheDarkAges.exe"), Err(RttiError::NullInstance)));
    assert!(matches!(IdTech::try_load(&m, IdTechVersion::IdTech8, "other.exe"), Err(RttiError::Read)));
}

#[test]
fn walk_keeps_entries_before_first_null() {
    assert_eq!(entries_kept(&[0x10, 0x20, 0x30, 0, 0x50], 10), 3);
    assert_eq!(entries_kept(&[0x10, 0x20, 0x30], 2), 2);
    assert_eq!(entries_kept(&[0, 0x20], 10), 0);
    assert_eq!(entries_kept(&[], 10), 0);
}

#[test]
fn null_instance_is_refused_before_any_read() {
    let m = build();
    let before = m.reads.get();
    assert!(matches!(IdTech::from_instance(&m, Memory { typeinfo_addr: 0x800 }, 0), Err(RttiError::NullInstance)));
    assert_eq!(m.reads.get(), before);
    assert!(IdTech::from_instance(&m, Memory { typeinfo_addr: 0x800 }, 0x1000).is_ok());
}

#[test]
fn variable_table_ends_at_null_record() {
    let m = build();
    let mut c = ClassTypeInfo::init(&m, 0x2058).unwrap();
    assert_eq!(c.get_offset("pitch"), Ok(0x0));
    assert_eq!(c.get_offset("yaw"), Err(RttiError::UnknownVariable));
}
