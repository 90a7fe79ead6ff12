use autosplit_core::memory::{read_pointer_path, resolve_path, ModuleRange, PointerSize, ReadError, Readable};
use autosplit_core::pointer::{Invalidatable, MemoryWatcher, PointerPath};
use std::cell::{Cell, RefCell};
use std::collections::BTreeMap;

struct Mem {
    bytes: RefCell<BTreeMap<u64, u8>>,
    reads: Cell<usize>,
}

impl Mem {
    fn new() -> Mem {
        Mem { bytes: RefCell::new(BTreeMap::new()), reads: Cell::new(0) }
    }

    fn put(&self, address: u64, data: &[u8]) {
        let mut b = self.bytes.borrow_mut();
        for (i, v) in data.iter().enumerate() {
            b.insert(address + i as u64, *v);
        }
    }

    fn put_u64(&self, address: u64, v: u64) {
        self.put(address, &v.to_le_bytes());
    }

    fn put_u32(&self, address: u64, v: u32) {
        self.put(address, &v.to_le_bytes());
    }
}

impl Readable for Mem {
    fn read_bytes(&self, address: u64, len: usize) -> Result<Vec<u8>, ReadError> {
        self.reads.set(self.reads.get() + 1);
        let b = self.bytes.borrow();
        let mut out = Vec::new();
        for i in 0..len as u64 {
            match b.get(&(address + i)) {
                Some(v) => out.push(*v),
                None => return Err(ReadError),
            }
        }
        Ok(out)
    }

    fn module_range(&self, _name: &str) -> Result<ModuleRange, ReadError> {
        Err(ReadError)
    }
}

#[test]
fn child_merges_last_and_first_offsets() {
    let m = Mem::new();
    let p = PointerPath::new(&m, 0x1000, vec![0x10, 0x20, 0x30]);
    let c = p.child(&[0x4, 0x8, 0xC]);
    assert_eq!(c.offsets(), vec![0x10, 0x20, 0x34, 0x8, 0xC]);
    assert_eq!(c.base_address(), 0x1000);
}

#[test]
fn child_offset_sum_wraps() {
    let m = Mem::new();
    let p = PointerPath::new(&m, 0x0, vec![u64::MAX]);
    assert_eq!(p.child(&[2]).offsets(), vec![1]);
}

#[test]
fn child_of_empty_path_starts_at_child_offsets() {
    let m = Mem::new();
    let p = PointerPath::new(&m, 0x1000, vec![]);
    let c = p.child(&[0x4, 0x8]);
    assert_eq!(c.offsets(), vec![0x4, 0x8]);
}

#[test]
fn child_with_single_offset_only_adds() {
    let m = Mem::new();
    let p = PointerPath::new(&m, 0x1000, vec![0x10, 0x20]);
    assert_eq!(p.child(&[0x5]).offsets(), vec![0x10, 0x25]);
    assert_eq!(p.child(&[0x5]).child(&[0x1, 0x2]).offsets(), vec![0x10, 0x26, 0x2]);
}

#[test]
fn first_offset_is_not_dereferenced() {
    let m = Mem::new();
    m.put_u32(0x1010, 77);
    assert_eq!(PointerPath::new(&m, 0x1000, vec![0x10]).read::<u32>(), Ok(77));
}

#[test]
fn later_offsets_follow_pointers() {
    let m = Mem::new();
    m.put_u64(0x1010, 0x2000);
    m.put_u64(0x2008, 0x3000);
    m.put_u32(0x3004, 0xdead_beef);
    assert_eq!(resolve_path(&m, 0x1000, PointerSize::Bit64, &[0x10, 0x8, 0x4]), Ok(0x3004));
    let p = PointerPath::new(&m, 0x1000, vec![0x10, 0x8, 0x4]);
    assert_eq!(p.read::<u32>(), Ok(0xdead_beef));
}

#[test]
fn thirty_two_bit_pointers_are_four_bytes() {
    let m = Mem::new();
    m.put_u32(0x100, 0x200);
    m.put(0x104, &[0xff, 0xff, 0xff, 0xff]);
    m.put(0x202, &[9]);
    let p = PointerPath::new32(&m, 0x100, vec![0x0, 0x2]);
    assert_eq!(p.read::<u8>(), Ok(9));
}

#[test]
fn empty_path_reads_base_address() {
    let m = Mem::new();
    m.put(0x500, &[42]);
    let p = PointerPath::new(&m, 0x500, vec![]);
    assert_eq!(p.read::<u8>(), Ok(42));
    assert_eq!(read_pointer_path(&m, 0x500, PointerSize::Bit64, &[], 1), Err(ReadError));
}

#[test]
fn unmapped_read_fails_cleanly() {
    let m = Mem::new();
    m.put_u64(0x1010, 0x9000);
    let p = PointerPath::new(&m, 0x1000, vec![0x10, 0x0]);
    assert!(p.read::<u32>().is_err());
}

#[test]
fn named_path_keeps_its_offsets() {
    let m = Mem::new();
    let p = PointerPath::new(&m, 0x1000, vec![0x1]).named("level");
    assert_eq!(p.name(), Some(String::from("level")));
    assert_eq!(p.offsets(), vec![0x1]);
}

#[test]
fn watcher_first_tick_reports_change_without_old() {
    let m = Mem::new();
    m.put_u32(0x10, 5);
    let mut w: MemoryWatcher<Mem, u32> = MemoryWatcher::new(&m, 0x0, vec![0x10]);
    assert_eq!(w.read_old(), None);
    assert_eq!(w.changed(), Ok(true));
    assert_eq!(m.reads.get(), 0);
}

#[test]
fn watcher_reports_three_three_five() {
    let m = Mem::new();
    let mut w: MemoryWatcher<Mem, u32> = MemoryWatcher::new(&m, 0x0, vec![0x10]);
    let mut changes = Vec::new();
    let mut olds = Vec::new();
    for v in [3u32, 3, 5] {
        m.put_u32(0x10, v);
        assert_eq!(w.current(), Ok(v));
        changes.push(w.changed().unwrap());
        olds.push(w.read_old());
        w.invalidate();
    }
    assert_eq!(changes, vec![true, false, true]);
    assert_eq!(olds, vec![None, Some(3), Some(3)]);
}

#[test]
fn watcher_reads_once_per_tick() {
    let m = Mem::new();
    m.put_u32(0x10, 1);
    let mut w: MemoryWatcher<Mem, u32> = MemoryWatcher::new(&m, 0x0, vec![0x10]);
    assert_eq!(w.current(), Ok(1));
    m.put_u32(0x10, 2);
    let before = m.reads.get();
    assert_eq!(w.current(), Ok(1));
    assert_eq!(m.reads.get(), before);
    w.invalidate();
    assert_eq!(w.current(), Ok(2));
}

#[test]
fn double_advance_loses_the_transition() {
    let m = Mem::new();
    m.put_u32(0x10, 3);
    let mut w: MemoryWatcher<Mem, u32> = MemoryWatcher::new(&m, 0x0, vec![0x10]);
    assert_eq!(w.current(), Ok(3));
    w.invalidate();
    w.invalidate();
    assert_eq!(w.read_old(), None);
    assert_eq!(w.changed(), Ok(true));
}

#[test]
fn single_advance_keeps_the_transition() {
    let m = Mem::new();
    m.put_u32(0x10, 3);
    let mut w: MemoryWatcher<Mem, u32> = MemoryWatcher::new(&m, 0x0, vec![0x10]);
    assert_eq!(w.current(), Ok(3));
    w.invalidate();
    assert_eq!(w.read_old(), Some(3));
    assert_eq!(w.changed(), Ok(false));
}

#[test]
fn unread_tick_leaves_no_old_value() {
    let m = Mem::new();
    m.put_u32(0x10, 3);
    let mut w: MemoryWatcher<Mem, u32> = MemoryWatcher::new(&m, 0x0, vec![0x10]);
    w.invalidate();
    assert_eq!(w.read_old(), None);
}

#[test]
fn watcher_default_stands_in_for_failed_read() {
    let m = Mem::new();
    let w: MemoryWatcher<Mem, u32> = MemoryWatcher::new(&m, 0x0, vec![0x10]);
    let mut w = w.default_given(9);
    assert_eq!(w.current(), Ok(9));
    let w2: MemoryWatcher<Mem, u32> = MemoryWatcher::new(&m, 0x0, vec![0x10]);
    let mut w2 = w2.default();
    assert_eq!(w2.current(), Ok(0));
    let mut w3: MemoryWatcher<Mem, u32> = MemoryWatcher::new(&m, 0x0, vec![0x10]);
    assert!(w3.current().is_err());
}

#[test]
fn failed_read_is_kept_for_the_rest_of_the_tick() {
    let m = Mem::new();
    let mut w: MemoryWatcher<Mem, u32> = MemoryWatcher::new(&m, 0x0, vec![0x10]);
    assert!(w.current().is_err());
    m.put_u32(0x10, 4);
    let before = m.reads.get();
    assert!(w.current().is_err());
    assert_eq!(m.reads.get(), before);
    w.invalidate();
    assert_eq!(w.read_old(), None);
    assert_eq!(w.current(), Ok(4));
}

#[test]
fn read_errors_name_the_path() {
    let m = Mem::new();
    let p = PointerPath::new(&m, 0x1000, vec![0x10, 0x8]);
    let e = p.read::<u32>().unwrap_err();
    assert_eq!(e.name, None);
    assert_eq!(e.base, 0x1000);
    assert_eq!(e.offsets, vec![0x10, 0x8]);
    let e = p.named("health").read::<u32>().unwrap_err();
    assert_eq!(e.name, Some(String::from("health")));
}

#[test]
fn watcher_child_reads_through_parent() {
    let m = Mem::new();
    m.put_u64(0x10, 0x100);
    m.put_u32(0x108, 12);
    let w: MemoryWatcher<Mem, u32> = MemoryWatcher::new(&m, 0x0, vec![0x10, 0x0]);
    let mut c = w.child(&[0x8]);
    assert_eq!(c.current(), Ok(12));
}
