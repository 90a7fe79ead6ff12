use autosplit_core::zdoom::objectives::{get_objective_status_map, just_completed, status_in, Objective};
use autosplit_core::memory::{ModuleRange, ReadError, Readable};
use autosplit_core::pointer::MemoryWatcher;
use autosplit_core::zdoom::field_type::name_as_field_type;
use autosplit_core::zdoom::name_manager::NameManager;
use autosplit_core::zdoom::pclass::{field_order, PClass, PField};
use autosplit_core::zdoom::tarray::TArray;
use autosplit_core::zdoom::{GameAction, Offsets, ZDoomVersion};
use std::cell::RefCell;
use std::cmp::Ordering;
use std::collections::BTreeMap;

struct Mem {
    bytes: RefCell<BTreeMap<u64, u8>>,
}

impl Mem {
    fn new() -> Mem {
        Mem { bytes: RefCell::new(BTreeMap::new()) }
    }

    fn put(&self, address: u64, data: &[u8]) {
        let mut b = self.bytes.borrow_mut();
        for (i, v) in data.iter().enumerate() {
            b.insert(address + i as u64, *v);
        }
    }

    fn put_u64(&self, address: u64, v: u64) {
        self.put(address, &v.to_le_bytes());
    }

    fn put_u32(&self, address: u64, v: u32) {
        self.put(address, &v.to_le_bytes());
    }

    fn put_str(&self, address: u64, s: &str) {
        let mut b = s.as_bytes().to_vec();
        b.resize(128, 0);
        self.put(address, &b);
    }
}

impl Readable for Mem {
    fn read_bytes(&self, address: u64, len: usize) -> Result<Vec<u8>, ReadError> {
        let b = self.bytes.borrow();
        let mut out = Vec::new();
        for i in 0..len as u64 {
            match b.get(&(address + i)) {
                Some(v) => out.push(*v),
                None => return Err(ReadError),
            }
        }
        Ok(out)
    }

    fn module_range(&self, _name: &str) -> Result<ModuleRange, ReadError> {
        Err(ReadError)
    }
}

fn spelled(name: &str) -> String {
    String::from_utf8(name_as_field_type(name.as_bytes())).unwrap()
}

#[test]
fn scalar_type_names_become_c_names() {
    assert_eq!(spelled("Bool"), "bool");
    assert_eq!(spelled("Float8"), "double");
    assert_eq!(spelled("SInt4"), "int32_t");
    assert_eq!(spelled("UInt2"), "uint16_t");
    assert_eq!(spelled("Name"), "Name");
}

#[test]
fn generic_type_names_unwrap() {
    assert_eq!(spelled("DynArray<Pointer<Actor>>"), "TArray<Actor>");
    assert_eq!(spelled("Struct<Vector3>"), "Vector3");
    assert_eq!(spelled("NativeStruct<FState>[4]"), "FState[4]");
    assert_eq!(spelled("Map<Int>"), "Map<Int>");
    assert_eq!(spelled("Pointer<Float4>"), "float");
    assert_eq!(spelled("ClassPointer<Class<Actor>>"), "Actor");
}

#[test]
fn malformed_generic_names_stand_as_they_are() {
    assert_eq!(spelled("<Actor>"), "<Actor>");
    assert_eq!(spelled("Pointer<>"), "Pointer<>");
    assert_eq!(spelled("Array[3]"), "Array[3]");
}

#[test]
fn static_fields_come_first_then_by_offset() {
    assert_eq!(field_order(0x2000, 0x40, 0, 0x10), Ordering::Less);
    assert_eq!(field_order(0, 0x10, 0x2000, 0x40), Ordering::Greater);
    assert_eq!(field_order(0, 0x10, 0, 0x40), Ordering::Less);
    assert_eq!(field_order(0x1, 0x40, 0x4, 0x40), Ordering::Equal);
}

#[test]
fn offsets_differ_by_build() {
    assert_eq!(Offsets::new(ZDoomVersion::Lzdoom3_82).level_mapname, 0x2C0);
    assert_eq!(Offsets::new(ZDoomVersion::Gzdoom4_8Pre).pclass_fields, 0x80);
    assert_eq!(Offsets::new(ZDoomVersion::Gzdoom4_8_2).level_mapname, 0x9D8);
}

#[test]
fn game_action_is_decoded_from_its_number() {
    assert_eq!(GameAction::from_u32(14), Some(GameAction::WorldDone));
    assert_eq!(GameAction::from_u32(0), Some(GameAction::Nothing));
    assert_eq!(GameAction::from_u32(22), None);
    let m = Mem::new();
    m.put_u32(0x10, 12);
    m.put_u32(0x20, 99);
    let mut w: MemoryWatcher<Mem, GameAction> = MemoryWatcher::new(&m, 0x0, vec![0x10]);
    assert_eq!(w.current(), Ok(GameAction::Completed));
    let mut bad: MemoryWatcher<Mem, GameAction> = MemoryWatcher::new(&m, 0x0, vec![0x20]);
    assert!(bad.current().is_err());
}

#[test]
fn tarray_lists_items_and_their_addresses() {
    let m = Mem::new();
    m.put_u64(0x100, 0x1000);
    m.put_u32(0x108, 3);
    m.put_u64(0x1000, 7);
    m.put_u64(0x1008, 8);
    m.put_u64(0x1010, 9);
    let a = TArray::new(&m, 0x100);
    assert_eq!(a.iter::<u64>(), Ok(vec![7, 8, 9]));
    assert_eq!(a.iter_addr(0x310), Ok(vec![0x1000, 0x1310, 0x1620]));
}

#[test]
fn tarray_stops_at_first_unreadable_item() {
    let m = Mem::new();
    m.put_u64(0x100, 0x1000);
    m.put_u32(0x108, 3);
    m.put_u64(0x1000, 7);
    let a = TArray::new(&m, 0x100);
    assert_eq!(a.iter::<u64>(), Ok(vec![7]));
}

fn put_name_table(m: &Mem, table: u64, names: &[&str]) {
    let entries = 0x8000u64;
    m.put_u64(table + 0x8, entries);
    for (i, n) in names.iter().enumerate() {
        let at = 0x9000 + i as u64 * 0x100;
        m.put_u64(entries + i as u64 * 0x10, at);
        m.put_str(at, n);
    }
}

#[test]
fn names_come_from_the_name_table() {
    let m = Mem::new();
    put_name_table(&m, 0x500, &["None", "Actor", "Health"]);
    let names = NameManager::new(&m, 0x500);
    assert_eq!(names.get_chars(1), Ok(b"Actor".to_vec()));
    assert_eq!(names.get_chars(2), Ok(b"Health".to_vec()));
}

#[test]
fn class_fields_and_offsets() {
    let m = Mem::new();
    put_name_table(&m, 0x500, &["None", "Actor", "Health", "pos"]);
    let offsets = Offsets::new(ZDoomVersion::Gzdoom4_8_2);
    let class = 0x2000u64;
    m.put_u32(class + 0x38, 1);
    m.put_u32(class + 0x30, 0x600);
    m.put_u64(class + 0x78, 0x3000);
    m.put_u32(class + 0x78 + 0x8, 2);
    m.put_u64(0x3000, 0x4000);
    m.put_u64(0x3008, 0x4100);
    m.put_u32(0x4000 + 0x28, 2);
    m.put_u32(0x4000 + 0x38, 0x100);
    m.put_u32(0x4000 + 0x48, 0xff00_2000);
    m.put_u32(0x4100 + 0x28, 3);
    m.put_u32(0x4100 + 0x38, 0x48);
    let names = NameManager::new(&m, 0x500);
    let mut c = PClass::new(&m, offsets, &names, class);
    assert_eq!(c.name(), Ok(b"Actor".to_vec()));
    assert_eq!(c.size(), Ok(0x600));
    assert_eq!(c.field_names(), Ok(vec![b"Health".to_vec(), b"pos".to_vec()]));
    assert_eq!(c.get_field_offset("pos"), Ok(0x48));
    assert_eq!(c.get_field_offset("Health"), Ok(0x100));
    assert!(c.get_field_offset("speed").is_err());
    let mut f = PField::new(&m, offsets, &names, 0x4000);
    assert_eq!(f.flags(), Ok(0x2000));
    assert_eq!(f.name(), Ok(b"Health".to_vec()));
}

fn objective(tag: u32, status: u32, children: Vec<Objective>) -> Objective {
    Objective { title: b"goal".to_vec(), tag, status, children }
}

#[test]
fn objective_statuses_flatten_parents_first() {
    let tree = vec![
        objective(200, 1, vec![objective(201, 0, vec![]), objective(202, 2, vec![objective(203, 0, vec![])])]),
        objective(300, 0, vec![]),
    ];
    let mut map = Vec::new();
    get_objective_status_map(&tree, &mut map);
    assert_eq!(map, vec![(200, 1), (201, 0), (202, 2), (203, 0), (300, 0)]);
    let history = vec![objective(201, 1, vec![])];
    get_objective_status_map(&history, &mut map);
    assert_eq!(status_in(&map, 201), Some(1));
    assert_eq!(status_in(&map, 999), None);
}

#[test]
fn objective_completes_when_status_leaves_zero() {
    let old = vec![(201, 0), (202, 0), (203, 1)];
    let current = vec![(201, 1), (203, 0), (203, 2)];
    assert!(just_completed(&old, &current, 201));
    assert!(!just_completed(&old, &current, 202));
    assert!(!just_completed(&old, &current, 203));
}
