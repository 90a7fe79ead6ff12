//! Classes, fields and types of the engine's scripting VM.
use vstd::prelude::*;
use vstd::string::StringSliceAdditionalSpecFns;
use core::cmp::Ordering;
use crate::memory::{bytes_eq, read_value, ReadError, Readable};
use super::name_manager::NameManager;
use super::tarray::TArray;
use super::Offsets;

verus! {

pub const DOBJECT_CLASS: u64 = 0x8;
pub const PFIELD_NAME: u64 = 0x28;
pub const PFIELD_OFFSET: u64 = 0x38;
pub const PFIELD_TYPE: u64 = 0x40;
pub const PFIELD_FLAGS: u64 = 0x48;
pub const PCLASS_SIZE: u64 = 0x30;
pub const PCLASS_TYPENAME: u64 = 0x38;
pub const PCLASS_PTYPE: u64 = 0x90;
pub const PCLASS_DESCRIPTIVE_NAME: u64 = 0x88;
pub const PTYPE_SIZE: u64 = 0xC;
pub const PTYPE_ALIGN: u64 = 0x10;
pub const PTYPE_FLAGS: u64 = 0x14;
pub const PTYPE_DESCRIPTIVE_NAME: u64 = 0x48;

/// The field flag of a static field.
pub const PFIELD_FLAG_STATIC: u32 = 0x2000;
/// The field flags the engine defines; other bits are dropped when read.
pub const PFIELD_FLAGS_ALL: u32 = 0x00ff_ffff;
/// The type flag of a container (struct) type.
pub const TYPE_FLAG_CONTAINER: u32 = 0x2;
/// The type flags of the pointer kinds: pointer, object pointer, class pointer.
pub const TYPE_FLAGS_POINTER: u32 = 0xe0;
/// The type flags the engine defines; other bits are dropped when read.
pub const TYPE_FLAGS_ALL: u32 = 0x1ff;

/// Whether a field with flags `flags` is static.
pub open spec fn is_static(flags: u32) -> bool {
    flags & PFIELD_FLAG_STATIC != 0
}

/// The order fields are listed in: static fields first, then by offset.
pub open spec fn field_order_spec(a_flags: u32, a_offset: u32, b_flags: u32, b_offset: u32) -> Ordering {
    if is_static(a_flags) && !is_static(b_flags) {
        Ordering::Less
    } else if !is_static(a_flags) && is_static(b_flags) {
        Ordering::Greater
    } else if a_offset < b_offset {
        Ordering::Less
    } else if a_offset > b_offset {
        Ordering::Greater
    } else {
        Ordering::Equal
    }
}

/// Compares two fields, given by their flags and offsets, in listing order.
pub fn field_order(a_flags: u32, a_offset: u32, b_flags: u32, b_offset: u32) -> (r: Ordering)
    ensures
        r == field_order_spec(a_flags, a_offset, b_flags, b_offset),
{
    let a_static = a_flags & PFIELD_FLAG_STATIC != 0;
    let b_static = b_flags & PFIELD_FLAG_STATIC != 0;
    if a_static && !b_static {
        Ordering::Less
    } else if !a_static && b_static {
        Ordering::Greater
    } else if a_offset < b_offset {
        Ordering::Less
    } else if a_offset > b_offset {
        Ordering::Greater
    } else {
        Ordering::Equal
    }
}

/// Reads the `u32` at `address`, mapping a failed read to the error.
fn read_u32<R: Readable>(r: &R, address: u64) -> (res: Result<u32, ReadError>) {
    read_value::<R, u32>(r, address)
}

/// A type of the VM: the `PType` record. Each property is read once.
pub struct PType<'a, R: Readable> {
    readable: &'a R,
    pub address: u64,
    size: Option<u32>,
    align: Option<u32>,
    flags: Option<u32>,
    name: Option<Vec<u8>>,
}

/// What is known of a type: where its record lies and the properties read
/// so far.
pub struct TypeView {
    pub address: u64,
    pub size: Option<u32>,
    pub align: Option<u32>,
    pub flags: Option<u32>,
    pub name: Option<Seq<u8>>,
}

impl<'a, R: Readable> View for PType<'a, R> {
    type V = TypeView;

    closed spec fn view(&self) -> TypeView {
        TypeView {
            address: self.address,
            size: self.size,
            align: self.align,
            flags: self.flags,
            name: match self.name {
                Some(n) => Some(n@),
                None => None,
            },
        }
    }
}

impl<'a, R: Readable> PType<'a, R> {
    /// The type whose record lies at `address`; nothing is read yet.
    pub fn new(readable: &'a R, address: u64) -> (r: Self)
        ensures
            r@ == (TypeView { address, size: None, align: None, flags: None, name: None }),
    {
        PType { readable, address, size: None, align: None, flags: None, name: None }
    }

    /// The size of the type in bytes.
    pub fn size(&mut self) -> (r: Result<u32, ReadError>)
        ensures
            old(self)@.size is Some ==> r == Ok::<u32, ReadError>(old(self)@.size->Some_0) && final(self)@ == old(self)@,
            r is Ok ==> final(self)@ == (TypeView { size: Some(r->Ok_0), ..old(self)@ }),
            r is Err ==> final(self)@ == old(self)@,
    {
        match self.size {
            Some(v) => Ok(v),
            None => {
                let v = read_u32(self.readable, self.address.wrapping_add(PTYPE_SIZE))?;
                self.size = Some(v);
                Ok(v)
            },
        }
    }

    /// The alignment of the type in bytes.
    pub fn align(&mut self) -> (r: Result<u32, ReadError>)
        ensures
            old(self)@.align is Some ==> r == Ok::<u32, ReadError>(old(self)@.align->Some_0) && final(self)@ == old(self)@,
            r is Ok ==> final(self)@ == (TypeView { align: Some(r->Ok_0), ..old(self)@ }),
            r is Err ==> final(self)@ == old(self)@,
    {
        match self.align {
            Some(v) => Ok(v),
            None => {
                let v = read_u32(self.readable, self.address.wrapping_add(PTYPE_ALIGN))?;
                self.align = Some(v);
                Ok(v)
            },
        }
    }

    /// The flags of the type, with bits the engine does not define dropped.
    pub fn flags(&mut self) -> (r: Result<u32, ReadError>)
        ensures
            old(self)@.flags is Some ==> r == Ok::<u32, ReadError>(old(self)@.flags->Some_0) && final(self)@ == old(self)@,
            old(self)@.flags is None && r is Ok ==> r->Ok_0 & !TYPE_FLAGS_ALL == 0,
            r is Ok ==> final(self)@ == (TypeView { flags: Some(r->Ok_0), ..old(self)@ }),
            r is Err ==> final(self)@ == old(self)@,
    {
        match self.flags {
            Some(v) => Ok(v),
            None => {
                let raw = read_u32(self.readable, self.address.wrapping_add(PTYPE_FLAGS))?;
                let v = raw & TYPE_FLAGS_ALL;
                assert(v & !TYPE_FLAGS_ALL == 0) by (bit_vector)
                    requires
                        v == raw & TYPE_FLAGS_ALL,
                ;
                self.flags = Some(v);
                Ok(v)
            },
        }
    }

    /// The descriptive name of the type.
    pub fn name(&mut self) -> (r: Result<Vec<u8>, ReadError>)
        ensures
            old(self)@.name is Some ==> r is Ok && r->Ok_0@ == old(self)@.name->Some_0 && final(self)@ == old(self)@,
            r is Ok ==> final(self)@ == (TypeView { name: Some(r->Ok_0@), ..old(self)@ }),
            r is Err ==> final(self)@ == old(self)@,
    {
        match &self.name {
            Some(v) => Ok(crate::memory::copy_bytes(v.as_slice())),
            None => {
                let path: [u64; 2] = [PTYPE_DESCRIPTIVE_NAME, 0x0];
                let v = crate::memory::read_path_c_string(self.readable, self.address, path.as_slice(), 128)?;
                self.name = Some(crate::memory::copy_bytes(v.as_slice()));
                Ok(v)
            },
        }
    }
}

} // verus!

verus! {

/// What is known of a field: where its record lies and the properties read
/// so far.
pub struct FieldView {
    pub address: u64,
    pub name: Option<Seq<u8>>,
    pub offset: Option<u32>,
    pub ptype: Option<u64>,
    pub flags: Option<u32>,
}

/// A field of a class: the `PField` record. Each property is read once.
pub struct PField<'a, R: Readable> {
    readable: &'a R,
    offsets: Offsets,
    names: u64,
    address: u64,
    name: Option<Vec<u8>>,
    offset: Option<u32>,
    ptype: Option<u64>,
    flags: Option<u32>,
}

impl<'a, R: Readable> View for PField<'a, R> {
    type V = FieldView;

    closed spec fn view(&self) -> FieldView {
        FieldView {
            address: self.address,
            name: match self.name {
                Some(n) => Some(n@),
                None => None,
            },
            offset: self.offset,
            ptype: self.ptype,
            flags: self.flags,
        }
    }
}

impl<'a, R: Readable> PField<'a, R> {
    /// The field whose record lies at `address`; nothing is read yet.
    pub fn new(readable: &'a R, offsets: Offsets, name_manager: &NameManager<'a, R>, address: u64) -> (r: Self)
        ensures
            r@ == (FieldView { address, name: None, offset: None, ptype: None, flags: None }),
    {
        PField { readable, offsets, names: name_manager.address(), address, name: None, offset: None, ptype: None, flags: None }
    }

    /// The class the field belongs to.
    pub fn class(&self) -> (r: Result<PClass<'a, R>, ReadError>)
        ensures
            r is Ok ==> r->Ok_0@.size is None && r->Ok_0@.name is None && r->Ok_0@.fields is None,
    {
        let a = read_value::<R, u64>(self.readable, self.address.wrapping_add(DOBJECT_CLASS))?;
        Ok(PClass::new(self.readable, self.offsets, &NameManager::new(self.readable, self.names), a))
    }

    /// The name of the field.
    pub fn name(&mut self) -> (r: Result<Vec<u8>, ReadError>)
        ensures
            old(self)@.name is Some ==> r is Ok && r->Ok_0@ == old(self)@.name->Some_0 && final(self)@ == old(self)@,
            r is Ok ==> final(self)@ == (FieldView { name: Some(r->Ok_0@), ..old(self)@ }),
            r is Err ==> final(self)@ == old(self)@,
    {
        match &self.name {
            Some(v) => Ok(crate::memory::copy_bytes(v.as_slice())),
            None => {
                let index = read_u32(self.readable, self.address.wrapping_add(PFIELD_NAME))?;
                let v = NameManager::new(self.readable, self.names).get_chars(index)?;
                self.name = Some(crate::memory::copy_bytes(v.as_slice()));
                Ok(v)
            },
        }
    }

    /// The byte offset of the field in its class.
    pub fn offset(&mut self) -> (r: Result<u32, ReadError>)
        ensures
            old(self)@.offset is Some ==> r == Ok::<u32, ReadError>(old(self)@.offset->Some_0) && final(self)@ == old(self)@,
            r is Ok ==> final(self)@ == (FieldView { offset: Some(r->Ok_0), ..old(self)@ }),
            r is Err ==> final(self)@ == old(self)@,
    {
        match self.offset {
            Some(v) => Ok(v),
            None => {
                let v = read_u32(self.readable, self.address.wrapping_add(PFIELD_OFFSET))?;
                self.offset = Some(v);
                Ok(v)
            },
        }
    }

    /// The type of the field.
    pub fn ptype(&mut self) -> (r: Result<PType<'a, R>, ReadError>)
        ensures
            old(self)@.ptype is Some ==> final(self)@ == old(self)@,
            r is Ok ==> final(self)@ == (FieldView { ptype: Some(r->Ok_0@.address), ..old(self)@ })
                && r->Ok_0@ == (TypeView { address: r->Ok_0@.address, size: None, align: None, flags: None, name: None }),
            r is Err ==> final(self)@ == old(self)@,
    {
        let a = match self.ptype {
            Some(a) => a,
            None => {
                let a = read_value::<R, u64>(self.readable, self.address.wrapping_add(PFIELD_TYPE))?;
                self.ptype = Some(a);
                a
            },
        };
        Ok(PType::new(self.readable, a))
    }

    /// The flags of the field, with bits the engine does not define dropped.
    pub fn flags(&mut self) -> (r: Result<u32, ReadError>)
        ensures
            old(self)@.flags is Some ==> r == Ok::<u32, ReadError>(old(self)@.flags->Some_0) && final(self)@ == old(self)@,
            old(self)@.flags is None && r is Ok ==> r->Ok_0 & !PFIELD_FLAGS_ALL == 0,
            r is Ok ==> final(self)@ == (FieldView { flags: Some(r->Ok_0), ..old(self)@ }),
            r is Err ==> final(self)@ == old(self)@,
    {
        match self.flags {
            Some(v) => Ok(v),
            None => {
                let raw = read_u32(self.readable, self.address.wrapping_add(PFIELD_FLAGS))?;
                let v = raw & PFIELD_FLAGS_ALL;
                assert(v & !PFIELD_FLAGS_ALL == 0) by (bit_vector)
                    requires
                        v == raw & PFIELD_FLAGS_ALL,
                ;
                self.flags = Some(v);
                Ok(v)
            },
        }
    }
}

/// What is known of a class: where its record lies and the properties read
/// so far. The fields, once read, are those the class itself declares, not
/// those of its superclasses.
pub struct ClassView {
    pub address: u64,
    pub size: Option<u32>,
    pub name: Option<Seq<u8>>,
    pub fields: Option<Seq<FieldView>>,
}

/// The views of a vector of fields.
pub open spec fn field_views<'a, R: Readable>(fields: Seq<PField<'a, R>>) -> Seq<FieldView> {
    fields.map_values(|f: PField<'a, R>| f@)
}

/// The names of a sequence of fields, the empty name standing for one not read.
pub open spec fn field_names(fields: Seq<FieldView>) -> Seq<Seq<u8>> {
    fields.map_values(|f: FieldView| match f.name {
        Some(n) => n,
        None => Seq::empty(),
    })
}

/// The offset of the field called `name` that the class view records as
/// read: that of the last field of that name.
pub open spec fn known_field_offset(c: ClassView, name: Seq<u8>) -> Option<u32> {
    match c.fields {
        Some(fs) => match crate::rtti::last_index_of(field_names(fs), name) {
            Some(i) => fs[i].offset,
            None => None,
        },
        None => None,
    }
}

/// Whether the class's fields were read and none is called `name`.
pub open spec fn lacks_field(c: ClassView, name: Seq<u8>) -> bool {
    c.fields matches Some(fs) && crate::rtti::last_index_of(field_names(fs), name) is None
}

/// A class of the VM: the `PClass` record. Each property is read once.
pub struct PClass<'a, R: Readable> {
    readable: &'a R,
    offsets: Offsets,
    names: u64,
    address: u64,
    size: Option<u32>,
    name: Option<Vec<u8>>,
    fields: Option<Vec<PField<'a, R>>>,
}

impl<'a, R: Readable> View for PClass<'a, R> {
    type V = ClassView;

    closed spec fn view(&self) -> ClassView {
        ClassView {
            address: self.address,
            size: self.size,
            name: match self.name {
                Some(n) => Some(n@),
                None => None,
            },
            fields: match self.fields {
                Some(f) => Some(field_views(f@)),
                None => None,
            },
        }
    }
}

impl<'a, R: Readable> PClass<'a, R> {
    /// The class whose record lies at `address`; nothing is read yet.
    pub fn new(readable: &'a R, offsets: Offsets, name_manager: &NameManager<'a, R>, address: u64) -> (r: Self)
        ensures
            r@ == (ClassView { address, size: None, name: None, fields: None }),
    {
        PClass { readable, offsets, names: name_manager.address(), address, size: None, name: None, fields: None }
    }

    /// The address of the class record.
    pub fn address(&self) -> (r: u64)
        ensures
            r == self@.address,
    {
        self.address
    }

    /// The size of an instance of the class in bytes.
    pub fn size(&mut self) -> (r: Result<u32, ReadError>)
        ensures
            old(self)@.size is Some ==> r == Ok::<u32, ReadError>(old(self)@.size->Some_0) && final(self)@ == old(self)@,
            r is Ok ==> final(self)@ == (ClassView { size: Some(r->Ok_0), ..old(self)@ }),
            r is Err ==> final(self)@ == old(self)@,
    {
        match self.size {
            Some(v) => Ok(v),
            None => {
                let v = read_u32(self.readable, self.address.wrapping_add(PCLASS_SIZE))?;
                self.size = Some(v);
                Ok(v)
            },
        }
    }

    /// The name of the class, looked up in the name table.
    pub fn name(&mut self) -> (r: Result<Vec<u8>, ReadError>)
        ensures
            old(self)@.name is Some ==> r is Ok && r->Ok_0@ == old(self)@.name->Some_0 && final(self)@ == old(self)@,
            r is Ok ==> final(self)@ == (ClassView { name: Some(r->Ok_0@), ..old(self)@ }),
            old(self)@.name is None && r is Ok ==> super::objectives::exists_c_string(r->Ok_0@, 128),
            r is Err ==> final(self)@ == old(self)@,
    {
        match &self.name {
            Some(v) => Ok(crate::memory::copy_bytes(v.as_slice())),
            None => {
                let index = read_u32(self.readable, self.address.wrapping_add(PCLASS_TYPENAME))?;
                let v = NameManager::new(self.readable, self.names).get_chars(index)?;
                assert(super::objectives::exists_c_string(v@, 128));
                self.name = Some(crate::memory::copy_bytes(v.as_slice()));
                Ok(v)
            },
        }
    }

    /// The type record of the class.
    pub fn ptype(&self) -> (r: Result<PType<'a, R>, ReadError>)
        ensures
            r is Ok ==> r->Ok_0@.size is None && r->Ok_0@.align is None && r->Ok_0@.flags is None && r->Ok_0@.name is None,
    {
        let a = read_value::<R, u64>(self.readable, self.address.wrapping_add(PCLASS_PTYPE))?;
        Ok(PType::new(self.readable, a))
    }

    /// The descriptive name of the class, that of its VM type record.
    pub fn raw_name(&self) -> (r: Result<Vec<u8>, ReadError>) {
        let a = read_value::<R, u64>(self.readable, self.address.wrapping_add(PCLASS_DESCRIPTIVE_NAME))?;
        let mut t = PType::new(self.readable, a);
        t.name()
    }

    /// The addresses of the field records the class declares, in the order
    /// of its field array.
    pub fn field_addresses(&mut self) -> (r: Result<Vec<u64>, ReadError>)
        ensures
            r is Ok ==> (final(self)@.fields matches Some(fs) && r->Ok_0@.len() == fs.len()
                && forall|k: int| 0 <= k < fs.len() ==> #[trigger] r->Ok_0@[k] == fs[k].address),
            r is Err ==> final(self)@ == old(self)@,
    {
        self.load_fields()?;
        let mut out: Vec<u64> = Vec::new();
        match &self.fields {
            Some(fs) => {
                let mut i: usize = 0;
                while i < fs.len()
                    invariant
                        i <= fs@.len(),
                        self.fields == Some(*fs),
                        out@.len() == i,
                        forall|k: int| 0 <= k < i ==> #[trigger] out@[k] == field_views(fs@)[k].address,
                    decreases fs@.len() - i,
                {
                    proof {
                        assert(field_views(fs@)[i as int] == fs@[i as int]@);
                    }
                    out.push(fs[i].address);
                    i = i + 1;
                }
            },
            None => {},
        }
        Ok(out)
    }

    /// The address of the parent class record; zero for a root class.
    pub fn parent_address(&self) -> (r: Result<u64, ReadError>) {
        read_value::<R, u64>(self.readable, self.address)
    }

    /// Reads the fields the class declares, once: the field pointers of its
    /// field array, each with its name. Later calls keep what was read.
    pub fn load_fields(&mut self) -> (r: Result<(), ReadError>)
        ensures
            final(self)@.address == old(self)@.address,
            final(self)@.size == old(self)@.size,
            final(self)@.name == old(self)@.name,
            old(self)@.fields is Some ==> r is Ok && final(self)@ == old(self)@,
            r is Err ==> final(self)@ == old(self)@,
            r is Ok ==> final(self)@.fields is Some,
    {
        if self.fields.is_some() {
            return Ok(());
        }
        let array = TArray::new(self.readable, self.address.wrapping_add(self.offsets.pclass_fields));
        let addrs: Vec<u64> = array.iter::<u64>()?;
        let mut fields: Vec<PField<'a, R>> = Vec::new();
        let mut i: usize = 0;
        while i < addrs.len()
            invariant
                i <= addrs@.len(),
                fields@.len() == i,
                *self == *old(self),
                old(self)@.fields is None,
            decreases addrs@.len() - i,
        {
            let mut f = PField::new(self.readable, self.offsets, &NameManager::new(self.readable, self.names), addrs[i]);
            let _ = f.name()?;
            fields.push(f);
            i = i + 1;
        }
        self.fields = Some(fields);
        Ok(())
    }

    /// The names of the fields the class declares, in the order of its
    /// field array.
    pub fn field_names(&mut self) -> (r: Result<Vec<Vec<u8>>, ReadError>)
        ensures
            r is Ok ==> (final(self)@.fields matches Some(fs) && r->Ok_0@.len() == fs.len()
                && forall|k: int| 0 <= k < fs.len() ==> #[trigger] r->Ok_0@[k]@ == field_names(fs)[k]),
            r is Err ==> final(self)@ == old(self)@,
    {
        self.load_fields()?;
        let mut out: Vec<Vec<u8>> = Vec::new();
        match &self.fields {
            Some(fs) => {
                let mut i: usize = 0;
                while i < fs.len()
                    invariant
                        i <= fs@.len(),
                        self.fields == Some(*fs),
                        out@.len() == i,
                        forall|k: int| 0 <= k < i ==> #[trigger] out@[k]@ == field_names(field_views(fs@))[k],
                    decreases fs@.len() - i,
                {
                    let n = match &fs[i].name {
                        Some(n) => crate::memory::copy_bytes(n.as_slice()),
                        None => Vec::new(),
                    };
                    proof {
                        assert(field_views(fs@)[i as int] == fs@[i as int]@);
                    }
                    out.push(n);
                    i = i + 1;
                }
            },
            None => {},
        }
        Ok(out)
    }

    fn field_index(&self, field: &str) -> (r: Option<usize>)
        requires
            self@.fields is Some,
        ensures
            r is None <==> crate::rtti::last_index_of(field_names(self@.fields->Some_0), field.spec_bytes()) is None,
            r matches Some(i) ==> crate::rtti::last_index_of(field_names(self@.fields->Some_0), field.spec_bytes()) == Some(i as int),
    {
        let fs = match &self.fields {
            Some(fs) => fs,
            None => {
                return None;
            },
        };
        let ghost ns = field_names(field_views(fs@));
        proof {
            crate::rtti::lemma_last_index_of(ns, field.spec_bytes());
        }
        let name = field.as_bytes();
        let mut i: usize = fs.len();
        let mut found = false;
        assert(ns.subrange(0, i as int) =~= ns);
        while i > 0 && !found
            invariant
                i <= fs@.len(),
                ns == field_names(field_views(fs@)),
                crate::rtti::last_index_of(ns, name@) == crate::rtti::last_index_of(ns.subrange(0, i as int), name@),
                found ==> i > 0 && ns[i - 1] == name@,
            decreases i + (if found { 0int } else { 1int }),
        {
            let same = match &fs[i - 1].name {
                Some(n) => bytes_eq(n.as_slice(), name),
                None => name.len() == 0,
            };
            proof {
                assert(ns[i - 1] == field_names(field_views(fs@))[i - 1]);
                assert(field_views(fs@)[i - 1] == fs@[i - 1]@);
                if fs@[i - 1].name is None {
                    assert(ns[i - 1] == Seq::<u8>::empty());
                    assert(same == (name@ =~= Seq::<u8>::empty()));
                }
            }
            if same {
                found = true;
            } else {
                assert(ns.subrange(0, i as int).drop_last() =~= ns.subrange(0, i - 1));
                i = i - 1;
            }
        }
        if !found {
            assert(ns.subrange(0, 0) =~= Seq::<Seq<u8>>::empty());
            return None;
        }
        assert(ns.subrange(0, i as int).last() == name@);
        Some(i - 1)
    }

    /// The byte offset of the field called `field`, reading the fields and
    /// the offset only where they were not read before.
    pub fn get_field_offset(&mut self, field: &str) -> (r: Result<u32, crate::rtti::RttiError>)
        ensures
            final(self)@.address == old(self)@.address,
            final(self)@.name == old(self)@.name,
            r is Ok ==> known_field_offset(final(self)@, field.spec_bytes()) == Some(r->Ok_0),
            r == Err::<u32, crate::rtti::RttiError>(crate::rtti::RttiError::UnknownVariable) <==> lacks_field(
                final(self)@,
                field.spec_bytes(),
            ),
            r is Err ==> r == Err::<u32, crate::rtti::RttiError>(crate::rtti::RttiError::Read) || r == Err::<
                u32,
                crate::rtti::RttiError,
            >(crate::rtti::RttiError::UnknownVariable),
            known_field_offset(old(self)@, field.spec_bytes()) is Some ==> r == Ok::<u32, crate::rtti::RttiError>(
                known_field_offset(old(self)@, field.spec_bytes())->Some_0,
            ) && final(self)@ == old(self)@,
            forall|n: Seq<u8>|
                known_field_offset(old(self)@, n) is Some ==> #[trigger] known_field_offset(final(self)@, n)
                    == known_field_offset(old(self)@, n),
    {
        match self.load_fields() {
            Ok(()) => {},
            Err(e) => {
                return Err(crate::rtti::read_failed(e));
            },
        }
        let i = match self.field_index(field) {
            Some(i) => i,
            None => {
                return Err(crate::rtti::RttiError::UnknownVariable);
            },
        };
        let mut fs = match self.fields.take() {
            Some(fs) => fs,
            None => {
                return Err(crate::rtti::RttiError::Read);
            },
        };
        let ghost old_fs = fs@;
        proof {
            crate::rtti::lemma_last_index_of(field_names(field_views(old_fs)), field.spec_bytes());
        }
        let mut f = fs.remove(i);
        assert(f == old_fs[i as int]);
        let r = f.offset();
        fs.insert(i, f);
        proof {
            assert(fs@ =~= old_fs.update(i as int, f));
            assert(field_views(fs@) =~= field_views(old_fs).update(i as int, f@));
            assert(f@.name == old_fs[i as int]@.name);
            assert(field_names(field_views(fs@)) =~= field_names(field_views(old_fs)));
            if old_fs[i as int]@.offset is Some {
                assert(field_views(fs@) =~= field_views(old_fs));
            }
        }
        self.fields = Some(fs);
        proof {
            assert forall|n: Seq<u8>| known_field_offset(old(self)@, n) is Some implies #[trigger] known_field_offset(
                self@,
                n,
            ) == known_field_offset(old(self)@, n) by {
                let names = field_names(field_views(old_fs));
                crate::rtti::lemma_last_index_of(names, n);
                let j = crate::rtti::last_index_of(names, n)->Some_0;
                if j != i {
                    assert(field_views(fs@)[j] == field_views(old_fs)[j]);
                }
            }
        }
        match r {
            Ok(o) => Ok(o),
            Err(e) => Err(crate::rtti::read_failed(e)),
        }
    }
}

} // verus!
