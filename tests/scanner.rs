use autosplit_core::memory::{ModuleRange, ReadError, Readable};
use autosplit_core::signature::{find_address, scan_rel, scan_rel_in, ScanTarget, Signature};

struct Module {
    base: u64,
    bytes: Vec<u8>,
}

impl Readable for Module {
    fn read_bytes(&self, address: u64, len: usize) -> Result<Vec<u8>, ReadError> {
        if address < self.base {
            return Err(ReadError);
        }
        let start = (address - self.base) as usize;
        if start + len > self.bytes.len() {
            return Err(ReadError);
        }
        Ok(self.bytes[start..start + len].to_vec())
    }

    fn module_range(&self, name: &str) -> Result<ModuleRange, ReadError> {
        if name == "game.exe" {
            Ok(ModuleRange { base: self.base, len: self.bytes.len() as u64 })
        } else {
            Err(ReadError)
        }
    }
}

#[test]
fn parses_fixed_bytes_and_wildcards() {
    let s = Signature::new("48 8B 0D ?? ?? ?? ??").unwrap();
    assert_eq!(s.len(), 7);
    assert!(Signature::new("48 8G").is_none());
    assert!(Signature::new("48 8").is_none());
    assert_eq!(Signature::new("").unwrap().len(), 0);
    assert_eq!(Signature::new("4a8b").unwrap().len(), 2);
}

#[test]
fn scan_finds_first_match() {
    let s = Signature::new("AA ?? CC").unwrap();
    let hay = [0x00, 0xAA, 0x01, 0xCC, 0xAA, 0x02, 0xCC];
    assert_eq!(s.scan(&hay), Some(1));
    assert_eq!(s.scan(&hay[2..]), Some(2));
    assert_eq!(s.scan(&hay[..3]), None);
}

#[test]
fn scan_on_short_haystack_finds_nothing() {
    let s = Signature::new("AA BB").unwrap();
    assert_eq!(s.scan(&[0xAA]), None);
}

#[test]
fn rip_fixup_adds_offset_four_and_displacement() {
    let mut hay = vec![0u8; 64];
    hay[10..14].copy_from_slice(&[0x48, 0x8B, 0x05, 0x11]);
    hay[13..17].copy_from_slice(&0x20i32.to_le_bytes());
    let s = Signature::new("48 8B 05").unwrap();
    assert_eq!(scan_rel_in(&hay, 0x4000, &s, 3, 4), Some(0x4000 + 10 + 3 + 4 + 0x20));
}

#[test]
fn rip_fixup_with_negative_displacement() {
    let mut hay = vec![0u8; 64];
    hay[20..23].copy_from_slice(&[0x48, 0x8D, 0x0D]);
    hay[23..27].copy_from_slice(&(-0x10i32).to_le_bytes());
    let s = Signature::new("48 8D 0D").unwrap();
    assert_eq!(scan_rel_in(&hay, 0x4000, &s, 3, 4), Some(0x4000 + 20 + 3 + 4 - 0x10));
}

#[test]
fn displacement_past_the_module_end_is_not_found() {
    let hay = vec![0x00, 0x00, 0x48, 0x8B, 0x05, 0x01];
    let s = Signature::new("48 8B 05").unwrap();
    assert_eq!(scan_rel_in(&hay, 0x4000, &s, 3, 4), None);
}

#[test]
fn end_to_end_module_scan() {
    let mut bytes = vec![0u8; 0x10000];
    let pattern = [0x48, 0x8B, 0x05, 0x12, 0x34, 0x56];
    bytes[0x200..0x206].copy_from_slice(&pattern);
    bytes[0x206..0x20A].copy_from_slice(&0x0000_0050u32.to_le_bytes());
    let base = 0x7ff6_0000_0000u64;
    let module = Module { base, bytes };
    let sig = Signature::new("48 8B 05 12 34 56").unwrap();
    let range = module.module_range("game.exe").unwrap();
    assert_eq!(scan_rel(&module, range, &sig, 0x6, 0x4), Ok(Some(base + 0x25A)));
    assert!(module.module_range("other.exe").is_err());
}

#[test]
fn first_listed_signature_that_resolves_wins() {
    let mut hay = vec![0u8; 32];
    hay[4..7].copy_from_slice(&[0x11, 0x22, 0x33]);
    hay[7..11].copy_from_slice(&8i32.to_le_bytes());
    let targets = vec![
        ScanTarget { signature: Signature::new("99 98").unwrap(), offset: 2, next_instruction: 4 },
        ScanTarget { signature: Signature::new("11 22 33").unwrap(), offset: 3, next_instruction: 4 },
        ScanTarget { signature: Signature::new("11 ??").unwrap(), offset: 0, next_instruction: 0 },
    ];
    assert_eq!(find_address(&hay, 0x100, &targets), Some((1, 0x100 + 4 + 3 + 4 + 8)));
    assert_eq!(find_address(&hay, 0x100, &targets[..1]), None);
}
