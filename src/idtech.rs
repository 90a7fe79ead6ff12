//! The type-information tables of id Tech engines: projects, the classes
//! each project registers, and the variables (fields) of each class with
//! their byte offsets.
use vstd::prelude::*;
use vstd::string::StringSliceAdditionalSpecFns;
use crate::memory::{
    bytes_eq, c_string, read_path_c_string, read_value, slot_address, Readable,
};
use crate::value::Decode;
use crate::rtti::{complete_walk, kept_entries, last_index_of, lemma_kept_all, lemma_kept_stop, lemma_last_index_of, read_failed, RttiError};

verus! {

pub const CLASS_TYPE_INFO_NAME_OFFSET: u64 = 0x0;
pub const CLASS_TYPE_INFO_VARIABLES_OFFSET: u64 = 0x28;
pub const CLASS_VARIABLE_TYPE_INFO_SIZE: u64 = 0x58;
pub const CLASS_VARIABLE_TYPE_INFO_NAME_OFFSET: u64 = 0x10;
pub const CLASS_VARIABLE_TYPE_INFO_OFFSET_OFFSET: u64 = 0x18;
pub const TYPE_INFO_TOOLS_GENERATED_TYPE_INFO_OFFSET: u64 = 0x0;
pub const TYPE_INFO_PROJECT_SIZE: u64 = 0x38;
pub const TYPE_INFO_PROJECT_TYPE_INFO_GENERATED_OFFSET: u64 = 0x0;
pub const TYPE_INFO_PROJECT_NAME_OFFSET: u64 = 0x0;
pub const TYPE_INFO_PROJECT_CLASSES_OFFSET: u64 = 0x18;
pub const TYPE_INFO_PROJECT_NUM_CLASSES_OFFSET: u64 = 0x20;
pub const CLASS_TYPE_INFO_SIZE: u64 = 0x58;
/// The number of project slots in the type-information tools.
pub const TYPE_INFO_PROJECT_COUNT: u64 = 2;
/// The longest name read from the tables, terminator included.
pub const NAME_MAX: usize = 512;

/// What is known of a class variable: where its record lies, its name, and
/// its offset once read.
pub struct VariableView {
    pub address: u64,
    pub name: Seq<u8>,
    pub offset: Option<u64>,
}

/// One variable of a class: the `classVariableInfo_t` record.
pub struct ClassVariableInfo<'a, R: Readable> {
    readable: &'a R,
    address: u64,
    pub name: Vec<u8>,
    offset: Option<u64>,
}

impl<'a, R: Readable> View for ClassVariableInfo<'a, R> {
    type V = VariableView;

    closed spec fn view(&self) -> VariableView {
        VariableView { address: self.address, name: self.name@, offset: self.offset }
    }
}

impl<'a, R: Readable> ClassVariableInfo<'a, R> {
    /// The source that this record is read from.
    pub closed spec fn source(&self) -> &'a R {
        self.readable
    }

    /// Reads the name of the variable whose record lies at `address`.
    pub fn init(readable: &'a R, address: u64) -> (r: Result<Self, RttiError>)
        ensures
            r is Err ==> r == Err::<Self, RttiError>(RttiError::Read),
            r is Ok ==> {
                &&& r->Ok_0@.address == address
                &&& r->Ok_0@.offset is None
                &&& r->Ok_0.source() == readable
                &&& exists|b: Seq<u8>| b.len() == NAME_MAX && r->Ok_0@.name == c_string(b)
            },
    {
        let path: [u64; 2] = [CLASS_VARIABLE_TYPE_INFO_NAME_OFFSET, 0x0];
        let name = match read_path_c_string(readable, address, path.as_slice(), NAME_MAX) {
            Ok(n) => n,
            Err(e) => {
                return Err(read_failed(e));
            },
        };
        Ok(ClassVariableInfo { readable, address, name, offset: None })
    }

    /// The byte offset of the variable in its class. It is read once; later
    /// calls return what was read without reading again.
    pub fn get_offset(&mut self) -> (r: Result<u64, RttiError>)
        ensures
            final(self).source() == old(self).source(),
            final(self)@.address == old(self)@.address,
            final(self)@.name == old(self)@.name,
            old(self)@.offset is Some ==> r == Ok::<u64, RttiError>(old(self)@.offset->Some_0) && final(self)@ == old(self)@,
            r is Ok ==> final(self)@.offset == Some(r->Ok_0),
            old(self)@.offset is None && r is Ok ==> r->Ok_0 <= u32::MAX && exists|b: Seq<u8>|
                b.len() == 4 && #[trigger] crate::bytes::le_value(b) == r->Ok_0,
            r is Err ==> r == Err::<u64, RttiError>(RttiError::Read) && final(self)@ == old(self)@,
    {
        match self.offset {
            Some(o) => Ok(o),
            None => {
                let at = self.address.wrapping_add(CLASS_VARIABLE_TYPE_INFO_OFFSET_OFFSET);
                match read_value::<R, u32>(self.readable, at) {
                    Ok(v) => {
                        proof {
                            let b = choose|b: Seq<u8>| b.len() == 4 && u32::spec_decode(b) == Some(v);
                            crate::bytes::lemma_le_value_bound(b);
                            crate::bytes::lemma_pow256_4_8();
                            assert(crate::bytes::le_value(b) == v as u64);
                        }
                        self.offset = Some(v as u64);
                        Ok(v as u64)
                    },
                    Err(e) => Err(read_failed(e)),
                }
            },
        }
    }
}

/// The names of a sequence of variables.
pub open spec fn variable_names(vars: Seq<VariableView>) -> Seq<Seq<u8>> {
    vars.map_values(|v: VariableView| v.name)
}

/// Whether `vars` are the records of a variable table at `base`, in order,
/// with no offset read yet.
pub open spec fn fresh_table_from(vars: Seq<VariableView>, base: u64) -> bool {
    forall|k: int| 0 <= k < vars.len() ==> {
        &&& #[trigger] vars[k].address == slot_address(base, k as u64, CLASS_VARIABLE_TYPE_INFO_SIZE)
        &&& vars[k].offset is None
    }
}

/// Whether `vars` are what a walk of the variable table at `base` yields:
/// for the leading pointers it read, every record before the first null
/// one, in order, with no offset read yet.
pub open spec fn walked_table(vars: Seq<VariableView>, base: u64) -> bool {
    &&& fresh_table_from(vars, base)
    &&& exists|heads: Seq<u64>|
        complete_walk(heads, u64::MAX as nat) && #[trigger] kept_entries(heads, u64::MAX as nat) == vars.len()
}

/// What is known of a class: where its record lies, its name, and its
/// variables once their table was walked.
pub struct ClassView {
    pub address: u64,
    pub name: Seq<u8>,
    pub variables: Option<Seq<VariableView>>,
}

/// The offset of the variable called `name` that the class view records as
/// read: that of the last variable of that name, once the table and the
/// offset were read.
pub open spec fn known_offset(c: ClassView, name: Seq<u8>) -> Option<u64> {
    match c.variables {
        Some(vars) => match last_index_of(variable_names(vars), name) {
            Some(i) => vars[i].offset,
            None => None,
        },
        None => None,
    }
}

/// Whether the class's variable table was read and has no variable `name`.
pub open spec fn lacks_variable(c: ClassView, name: Seq<u8>) -> bool {
    c.variables matches Some(vars) && last_index_of(variable_names(vars), name) is None
}

/// One class of a project: the `classTypeInfo_t` record.
pub struct ClassTypeInfo<'a, R: Readable> {
    readable: &'a R,
    address: u64,
    pub name: Vec<u8>,
    variables: Option<Vec<ClassVariableInfo<'a, R>>>,
}

/// The views of a vector of variables.
pub open spec fn views_of<'a, R: Readable>(vars: Seq<ClassVariableInfo<'a, R>>) -> Seq<VariableView> {
    vars.map_values(|v: ClassVariableInfo<'a, R>| v@)
}

impl<'a, R: Readable> View for ClassTypeInfo<'a, R> {
    type V = ClassView;

    closed spec fn view(&self) -> ClassView {
        ClassView {
            address: self.address,
            name: self.name@,
            variables: match self.variables {
                Some(v) => Some(views_of(v@)),
                None => None,
            },
        }
    }
}

impl<'a, R: Readable> ClassTypeInfo<'a, R> {
    /// The source that this record is read from.
    pub closed spec fn source(&self) -> &'a R {
        self.readable
    }

    /// Reads the name of the class whose record lies at `address`; its
    /// variables are read on first demand.
    pub fn init(readable: &'a R, address: u64) -> (r: Result<Self, RttiError>)
        ensures
            r is Err ==> r == Err::<Self, RttiError>(RttiError::Read),
            r is Ok ==> {
                &&& r->Ok_0@.address == address
                &&& r->Ok_0@.variables is None
                &&& r->Ok_0.source() == readable
                &&& exists|b: Seq<u8>| b.len() == NAME_MAX && r->Ok_0@.name == c_string(b)
            },
    {
        let path: [u64; 2] = [CLASS_TYPE_INFO_NAME_OFFSET, 0x0];
        let name = match read_path_c_string(readable, address, path.as_slice(), NAME_MAX) {
            Ok(n) => n,
            Err(e) => {
                return Err(read_failed(e));
            },
        };
        Ok(ClassTypeInfo { readable, address, name, variables: None })
    }

    /// Walks the class's variable table, once: the records lie one after
    /// another from the address stored in the class record, up to the first
    /// whose leading pointer is null. Later calls keep what was read.
    pub fn load_variables(&mut self) -> (r: Result<(), RttiError>)
        ensures
            final(self).source() == old(self).source(),
            final(self)@.address == old(self)@.address,
            final(self)@.name == old(self)@.name,
            old(self)@.variables is Some ==> r is Ok && final(self)@ == old(self)@,
            r is Err ==> r == Err::<(), RttiError>(RttiError::Read) && final(self)@ == old(self)@,
            r is Ok ==> final(self)@.variables is Some,
            old(self)@.variables is None && r is Ok ==> exists|base: u64|
                #[trigger] walked_table(final(self)@.variables->Some_0, base),
    {
        if self.variables.is_some() {
            return Ok(());
        }
        let at = self.address.wrapping_add(CLASS_TYPE_INFO_VARIABLES_OFFSET);
        let base: u64 = match read_value::<R, u64>(self.readable, at) {
            Ok(v) => v,
            Err(e) => {
                return Err(read_failed(e));
            },
        };
        let vars = walk_variables(self.readable, base)?;
        self.variables = Some(vars);
        assert(self@.variables == Some(views_of(vars@)));
        assert(walked_table(self@.variables->Some_0, base));
        Ok(())
    }

    /// The byte offset of the variable called `variable`. The variable table
    /// and the offset are each read once; asking again reads nothing.
    pub fn get_offset(&mut self, variable: &str) -> (r: Result<u64, RttiError>)
        ensures
            final(self).source() == old(self).source(),
            final(self)@.address == old(self)@.address,
            final(self)@.name == old(self)@.name,
            r is Ok ==> known_offset(final(self)@, variable.spec_bytes()) == Some(r->Ok_0),
            r == Err::<u64, RttiError>(RttiError::UnknownVariable) <==> lacks_variable(final(self)@, variable.spec_bytes()),
            r is Err ==> r == Err::<u64, RttiError>(RttiError::Read) || r == Err::<u64, RttiError>(RttiError::UnknownVariable),
            known_offset(old(self)@, variable.spec_bytes()) is Some ==> r == Ok::<u64, RttiError>(
                known_offset(old(self)@, variable.spec_bytes())->Some_0,
            ) && final(self)@ == old(self)@,
            lacks_variable(old(self)@, variable.spec_bytes()) ==> final(self)@ == old(self)@,
            old(self)@.variables is Some ==> variable_names(final(self)@.variables->Some_0) == variable_names(
                old(self)@.variables->Some_0,
            ),
    {
        self.load_variables()?;
        let mut vars = match self.variables.take() {
            Some(v) => v,
            None => {
                return Err(RttiError::Read);
            },
        };
        let ghost vs = views_of(vars@);
        let name = variable.as_bytes();
        let mut i: usize = vars.len();
        let mut found = false;
        assert(variable_names(vs).subrange(0, i as int) =~= variable_names(vs));
        while i > 0 && !found
            invariant
                i <= vars@.len(),
                vs == views_of(vars@),
                last_index_of(variable_names(vs), name@) == last_index_of(variable_names(vs).subrange(0, i as int), name@),
                found ==> i > 0 && vs[i - 1].name == name@,
            decreases i + (if found { 0int } else { 1int }),
        {
            if bytes_eq(vars[i - 1].name.as_slice(), name) {
                found = true;
            } else {
                proof {
                    let ns = variable_names(vs).subrange(0, i as int);
                    assert(ns.drop_last() =~= variable_names(vs).subrange(0, i - 1));
                }
                i = i - 1;
            }
        }
        if !found {
            proof {
                assert(variable_names(vs).subrange(0, 0) =~= Seq::<Seq<u8>>::empty());
            }
            self.variables = Some(vars);
            return Err(RttiError::UnknownVariable);
        }
        let ghost old_vars = vars@;
        let mut v = vars.remove(i - 1);
        assert(v == old_vars[i - 1]);
        let r = v.get_offset();
        vars.insert(i - 1, v);
        proof {
            assert(vars@ =~= old_vars.update(i - 1, v));
            if vs[i - 1].offset is Some {
                assert(v@ == vs[i - 1]);
                assert(vs.update(i - 1, v@) =~= vs);
            }
            assert(variable_names(vs).subrange(0, i as int).last() == name@);
            assert(last_index_of(variable_names(vs), name@) == Some(i - 1));
            assert(views_of(vars@) =~= vs.update(i - 1, v@));
            assert(variable_names(views_of(vars@)) =~= variable_names(vs));
        }
        self.variables = Some(vars);
        r
    }
}

} // verus!

verus! {

/// Reads the variable table at `base`: the records `CLASS_VARIABLE_TYPE_INFO_SIZE`
/// bytes apart, up to the first whose leading pointer is null.
pub fn walk_variables<'a, R: Readable>(readable: &'a R, base: u64) -> (r: Result<Vec<ClassVariableInfo<'a, R>>, RttiError>)
    ensures
        r is Err ==> r == Err::<Vec<ClassVariableInfo<'a, R>>, RttiError>(RttiError::Read),
        r is Ok ==> walked_table(views_of(r->Ok_0@), base) && forall|k: int|
            0 <= k < r->Ok_0@.len() ==> #[trigger] r->Ok_0@[k].source() == readable,
{
    let mut vars: Vec<ClassVariableInfo<'a, R>> = Vec::new();
    let mut i: u64 = 0;
    let ghost mut heads: Seq<u64> = Seq::empty();
    while i < u64::MAX
        invariant
            i as int == vars@.len(),
            heads.len() == i,
            forall|k: int| 0 <= k < heads.len() ==> heads[k] != 0,
            forall|k: int| 0 <= k < vars@.len() ==> {
                &&& vars@[k]@.address == slot_address(base, k as u64, CLASS_VARIABLE_TYPE_INFO_SIZE)
                &&& vars@[k]@.offset is None
                &&& vars@[k].source() == readable
            },
        decreases u64::MAX - i,
    {
        let slot = base.wrapping_add(i.wrapping_mul(CLASS_VARIABLE_TYPE_INFO_SIZE));
        let head: u64 = match read_value::<R, u64>(readable, slot) {
            Ok(v) => v,
            Err(e) => {
                return Err(read_failed(e));
            },
        };
        if head == 0 {
            proof {
                lemma_kept_all(heads, u64::MAX as nat);
                lemma_kept_stop(heads, u64::MAX as nat, 0);
                assert(complete_walk(heads.push(0), u64::MAX as nat));
                assert forall|k: int| 0 <= k < vars@.len() implies #[trigger] views_of(vars@)[k] == vars@[k]@ by {}
                assert(kept_entries(heads.push(0), u64::MAX as nat) == views_of(vars@).len());
                assert(walked_table(views_of(vars@), base));
            }
            return Ok(vars);
        }
        proof {
            heads = heads.push(head);
        }
        let v = ClassVariableInfo::init(readable, slot)?;
        vars.push(v);
        i = i + 1;
    }
    proof {
        assert forall|k: int| 0 <= k < vars@.len() implies #[trigger] views_of(vars@)[k] == vars@[k]@ by {}
        lemma_kept_all(heads, u64::MAX as nat);
        assert(complete_walk(heads, u64::MAX as nat));
        assert(walked_table(views_of(vars@), base));
    }
    Ok(vars)
}

/// The names of a sequence of classes.
pub open spec fn class_names(classes: Seq<ClassView>) -> Seq<Seq<u8>> {
    classes.map_values(|c: ClassView| c.name)
}

/// What is known of a project: where its record lies, its name and its
/// classes.
pub struct ProjectView {
    pub address: u64,
    pub name: Seq<u8>,
    pub classes: Seq<ClassView>,
}

/// Whether `classes` are the records of a class array at `base`, in order,
/// at most `count` of them, with no variable table read yet.
pub open spec fn fresh_classes_from(classes: Seq<ClassView>, base: u64, count: u64) -> bool {
    &&& classes.len() <= count
    &&& forall|k: int| 0 <= k < classes.len() ==> {
        &&& #[trigger] classes[k].address == slot_address(base, k as u64, CLASS_TYPE_INFO_SIZE)
        &&& classes[k].variables is None
    }
}

/// Whether `classes` are what a walk of the class array at `base`, stating
/// `count` entries, yields: for the leading pointers it read, every entry
/// before the first null one, at most `count`, in order.
pub open spec fn walked_class_array(classes: Seq<ClassView>, base: u64, count: u64) -> bool {
    &&& fresh_classes_from(classes, base, count)
    &&& exists|heads: Seq<u64>| complete_walk(heads, count as nat) && #[trigger] kept_entries(heads, count as nat) == classes.len()
}

/// The views of a vector of classes.
pub open spec fn class_views<'a, R: Readable>(classes: Seq<ClassTypeInfo<'a, R>>) -> Seq<ClassView> {
    classes.map_values(|c: ClassTypeInfo<'a, R>| c@)
}

/// One registered project: the `registeredTypeInfo_t` record, with the
/// classes it registers.
pub struct TypeInfoProject<'a, R: Readable> {
    readable: &'a R,
    address: u64,
    name: Vec<u8>,
    classes: Vec<ClassTypeInfo<'a, R>>,
}

impl<'a, R: Readable> View for TypeInfoProject<'a, R> {
    type V = ProjectView;

    closed spec fn view(&self) -> ProjectView {
        ProjectView { address: self.address, name: self.name@, classes: class_views(self.classes@) }
    }
}

impl<'a, R: Readable> TypeInfoProject<'a, R> {
    /// The source that this record is read from.
    pub closed spec fn source(&self) -> &'a R {
        self.readable
    }

    /// Reads the project whose record lies at `address`: its name, and the
    /// name of each class in its class array, which holds the stated number
    /// of entries or ends early at a null entry.
    pub fn init(readable: &'a R, address: u64) -> (r: Result<Self, RttiError>)
        ensures
            r is Err ==> r == Err::<Self, RttiError>(RttiError::Read),
            r is Ok ==> {
                &&& r->Ok_0@.address == address
                &&& r->Ok_0.source() == readable
                &&& exists|base: u64, count: u64|
                    count <= u32::MAX && #[trigger] walked_class_array(r->Ok_0@.classes, base, count)
            },
    {
        let name_path: [u64; 3] = [TYPE_INFO_PROJECT_TYPE_INFO_GENERATED_OFFSET, TYPE_INFO_PROJECT_NAME_OFFSET, 0x0];
        let name = match read_path_c_string(readable, address, name_path.as_slice(), NAME_MAX) {
            Ok(n) => n,
            Err(e) => {
                return Err(read_failed(e));
            },
        };
        let base_path: [u64; 2] = [TYPE_INFO_PROJECT_TYPE_INFO_GENERATED_OFFSET, TYPE_INFO_PROJECT_CLASSES_OFFSET];
        let base: u64 = match crate::memory::read_path_value::<R, u64>(readable, address, base_path.as_slice()) {
            Ok(v) => v,
            Err(e) => {
                return Err(read_failed(e));
            },
        };
        let count_path: [u64; 2] = [TYPE_INFO_PROJECT_TYPE_INFO_GENERATED_OFFSET, TYPE_INFO_PROJECT_NUM_CLASSES_OFFSET];
        let count: u32 = match crate::memory::read_path_value::<R, u32>(readable, address, count_path.as_slice()) {
            Ok(v) => v,
            Err(e) => {
                return Err(read_failed(e));
            },
        };
        let classes = enumerate_classes(readable, base, count as u64)?;
        let project = TypeInfoProject { readable, address, name, classes };
        assert(project@.classes == class_views(project.classes@));
        assert(walked_class_array(project@.classes, base, count as u64));
        assert(count as u64 <= u32::MAX);
        let r: Result<Self, RttiError> = Ok(project);
        assert(walked_class_array(r->Ok_0@.classes, base, count as u64));
        r
    }

    /// The project's name.
    pub fn name(&self) -> (r: &Vec<u8>)
        ensures
            r@ == self@.name,
    {
        &self.name
    }

    /// The class called `class_name`; where two share the name, the later.
    pub fn get_class(&self, class_name: &str) -> (r: Option<&ClassTypeInfo<'a, R>>)
        ensures
            last_index_of(class_names(self@.classes), class_name.spec_bytes()) is None ==> r is None,
            last_index_of(class_names(self@.classes), class_name.spec_bytes()) matches Some(i) ==> (r matches Some(c)
                && c@ == self@.classes[i]),
    {
        proof {
            lemma_last_index_of(class_names(self@.classes), class_name.spec_bytes());
        }
        match self.class_index(class_name) {
            Some(i) => {
                assert(self@.classes[i as int] == self.classes@[i as int]@);
                Some(&self.classes[i])
            },
            None => None,
        }
    }

    fn class_index(&self, class_name: &str) -> (r: Option<usize>)
        ensures
            r is None <==> last_index_of(class_names(self@.classes), class_name.spec_bytes()) is None,
            r matches Some(i) ==> last_index_of(class_names(self@.classes), class_name.spec_bytes()) == Some(i as int),
            r matches Some(i) ==> i < self.classes@.len(),
    {
        let ghost ns = class_names(self@.classes);
        proof {
            lemma_last_index_of(ns, class_name.spec_bytes());
        }
        let name = class_name.as_bytes();
        let mut i: usize = self.classes.len();
        let mut found = false;
        assert(ns.subrange(0, i as int) =~= ns);
        while i > 0 && !found
            invariant
                i <= self.classes@.len(),
                ns == class_names(self@.classes),
                last_index_of(ns, name@) == last_index_of(ns.subrange(0, i as int), name@),
                found ==> i > 0 && ns[i - 1] == name@,
            decreases i + (if found { 0int } else { 1int }),
        {
            if bytes_eq(self.classes[i - 1].name.as_slice(), name) {
                found = true;
            } else {
                assert(ns.subrange(0, i as int).drop_last() =~= ns.subrange(0, i - 1));
                i = i - 1;
            }
        }
        if !found {
            assert(ns.subrange(0, 0) =~= Seq::<Seq<u8>>::empty());
            return None;
        }
        assert(ns.subrange(0, i as int).last() == name@);
        Some(i - 1)
    }

    /// The byte offset of the variable `variable` of the class `class_name`.
    pub fn get_offset(&mut self, class_name: &str, variable: &str) -> (r: Result<u64, RttiError>)
        ensures
            final(self).source() == old(self).source(),
            final(self)@.address == old(self)@.address,
            final(self)@.name == old(self)@.name,
            class_names(final(self)@.classes) == class_names(old(self)@.classes),
            r is Err ==> r == Err::<u64, RttiError>(RttiError::Read) || r == Err::<u64, RttiError>(RttiError::UnknownClass)
                || r == Err::<u64, RttiError>(RttiError::UnknownVariable),
            r == Err::<u64, RttiError>(RttiError::UnknownClass) <==> last_index_of(
                class_names(old(self)@.classes),
                class_name.spec_bytes(),
            ) is None,
            last_index_of(class_names(old(self)@.classes), class_name.spec_bytes()) matches Some(i) ==> {
                &&& r is Ok ==> known_offset(final(self)@.classes[i], variable.spec_bytes()) == Some(r->Ok_0)
                &&& r == Err::<u64, RttiError>(RttiError::UnknownVariable) <==> lacks_variable(
                    final(self)@.classes[i],
                    variable.spec_bytes(),
                )
                &&& known_offset(old(self)@.classes[i], variable.spec_bytes()) is Some ==> r == Ok::<u64, RttiError>(
                    known_offset(old(self)@.classes[i], variable.spec_bytes())->Some_0,
                ) && final(self)@ == old(self)@
            },
    {
        proof {
            lemma_last_index_of(class_names(self@.classes), class_name.spec_bytes());
        }
        let i = match self.class_index(class_name) {
            Some(i) => i,
            None => {
                return Err(RttiError::UnknownClass);
            },
        };
        let ghost old_classes = self.classes@;
        let mut c = self.classes.remove(i);
        assert(c == old_classes[i as int]);
        let r = c.get_offset(variable);
        self.classes.insert(i, c);
        proof {
            assert(self.classes@ =~= old_classes.update(i as int, c));
            assert(class_views(self.classes@) =~= class_views(old_classes).update(i as int, c@));
            assert(class_names(class_views(self.classes@)) =~= class_names(class_views(old_classes)));
            if known_offset(old_classes[i as int]@, variable.spec_bytes()) is Some {
                assert(class_views(self.classes@) =~= class_views(old_classes));
            }
        }
        r
    }
}

/// Reads the class array at `base`: up to `count` entries `CLASS_TYPE_INFO_SIZE`
/// bytes apart, ending early at the first entry whose leading pointer is
/// null.
pub fn enumerate_classes<'a, R: Readable>(readable: &'a R, base: u64, count: u64) -> (r: Result<Vec<ClassTypeInfo<'a, R>>, RttiError>)
    ensures
        r is Err ==> r == Err::<Vec<ClassTypeInfo<'a, R>>, RttiError>(RttiError::Read),
        r is Ok ==> {
            &&& walked_class_array(class_views(r->Ok_0@), base, count)
            &&& forall|k: int| 0 <= k < r->Ok_0@.len() ==> #[trigger] r->Ok_0@[k].source() == readable
        },
{
    let mut classes: Vec<ClassTypeInfo<'a, R>> = Vec::new();
    let mut i: u64 = 0;
    let ghost mut heads: Seq<u64> = Seq::empty();
    while i < count
        invariant
            i <= count,
            i as int == classes@.len(),
            heads.len() == i,
            forall|k: int| 0 <= k < heads.len() ==> heads[k] != 0,
            forall|k: int| 0 <= k < classes@.len() ==> {
                &&& classes@[k]@.address == slot_address(base, k as u64, CLASS_TYPE_INFO_SIZE)
                &&& classes@[k]@.variables is None
                &&& classes@[k].source() == readable
            },
        decreases count - i,
    {
        let slot = base.wrapping_add(i.wrapping_mul(CLASS_TYPE_INFO_SIZE));
        let head: u64 = match read_value::<R, u64>(readable, slot) {
            Ok(v) => v,
            Err(e) => {
                return Err(read_failed(e));
            },
        };
        if head == 0 {
            proof {
                lemma_kept_all(heads, count as nat);
                lemma_kept_stop(heads, count as nat, 0);
                assert(complete_walk(heads.push(0), count as nat));
                assert(kept_entries(heads.push(0), count as nat) == classes@.len());
            }
            assert(fresh_classes_from(class_views(classes@), base, count));
            return Ok(classes);
        }
        proof {
            heads = heads.push(head);
        }
        let c = ClassTypeInfo::init(readable, slot)?;
        classes.push(c);
        i = i + 1;
    }
    proof {
        lemma_kept_all(heads, count as nat);
        assert(complete_walk(heads, count as nat));
        assert forall|k: int| 0 <= k < classes@.len() implies #[trigger] class_views(classes@)[k] == classes@[k]@ by {}
    }
    Ok(classes)
}

} // verus!

verus! {

/// The names of a sequence of projects.
pub open spec fn project_names(projects: Seq<ProjectView>) -> Seq<Seq<u8>> {
    projects.map_values(|p: ProjectView| p.name)
}

/// The views of a vector of projects.
pub open spec fn project_views<'a, R: Readable>(projects: Seq<TypeInfoProject<'a, R>>) -> Seq<ProjectView> {
    projects.map_values(|p: TypeInfoProject<'a, R>| p@)
}

/// The type-information tools of the engine: the `idTypeInfoTools`
/// instance, whose fixed array of project slots holds the projects.
pub struct TypeInfoTools<'a, R: Readable> {
    readable: &'a R,
    address: u64,
    projects: Vec<TypeInfoProject<'a, R>>,
}

impl<'a, R: Readable> View for TypeInfoTools<'a, R> {
    type V = Seq<ProjectView>;

    closed spec fn view(&self) -> Seq<ProjectView> {
        project_views(self.projects@)
    }
}

impl<'a, R: Readable> TypeInfoTools<'a, R> {
    /// Reads the projects of the instance at `address`, one per slot.
    pub fn try_load(readable: &'a R, address: u64) -> (r: Result<Self, RttiError>)
        ensures
            r is Err ==> r == Err::<Self, RttiError>(RttiError::Read),
            r is Ok ==> r->Ok_0@.len() == TYPE_INFO_PROJECT_COUNT && forall|k: int|
                0 <= k < TYPE_INFO_PROJECT_COUNT ==> #[trigger] r->Ok_0@[k].address == slot_address(
                    address.wrapping_add(TYPE_INFO_TOOLS_GENERATED_TYPE_INFO_OFFSET),
                    k as u64,
                    TYPE_INFO_PROJECT_SIZE,
                ),
    {
        let base = address.wrapping_add(TYPE_INFO_TOOLS_GENERATED_TYPE_INFO_OFFSET);
        let mut projects: Vec<TypeInfoProject<'a, R>> = Vec::new();
        let mut i: u64 = 0;
        while i < TYPE_INFO_PROJECT_COUNT
            invariant
                i <= TYPE_INFO_PROJECT_COUNT,
                i as int == projects@.len(),
                base == address.wrapping_add(TYPE_INFO_TOOLS_GENERATED_TYPE_INFO_OFFSET),
                forall|k: int| 0 <= k < projects@.len() ==> {
                    &&& projects@[k]@.address == slot_address(base, k as u64, TYPE_INFO_PROJECT_SIZE)
                    &&& projects@[k].source() == readable
                },
            decreases TYPE_INFO_PROJECT_COUNT - i,
        {
            let slot = base.wrapping_add(i.wrapping_mul(TYPE_INFO_PROJECT_SIZE));
            let p = TypeInfoProject::init(readable, slot)?;
            projects.push(p);
            i = i + 1;
        }
        let tools = TypeInfoTools { readable, address, projects };
        assert forall|k: int| 0 <= k < TYPE_INFO_PROJECT_COUNT implies #[trigger] tools@[k].address == slot_address(
            base,
            k as u64,
            TYPE_INFO_PROJECT_SIZE,
        ) by {
            assert(tools@[k] == tools.projects@[k]@);
        }
        Ok(tools)
    }

    fn project_index(&self, project_name: &str) -> (r: Option<usize>)
        ensures
            r is None <==> last_index_of(project_names(self@), project_name.spec_bytes()) is None,
            r matches Some(i) ==> last_index_of(project_names(self@), project_name.spec_bytes()) == Some(i as int),
            r matches Some(i) ==> i < self.projects@.len(),
    {
        let ghost ns = project_names(self@);
        proof {
            lemma_last_index_of(ns, project_name.spec_bytes());
        }
        let name = project_name.as_bytes();
        let mut i: usize = self.projects.len();
        let mut found = false;
        assert(ns.subrange(0, i as int) =~= ns);
        while i > 0 && !found
            invariant
                i <= self.projects@.len(),
                ns == project_names(self@),
                last_index_of(ns, name@) == last_index_of(ns.subrange(0, i as int), name@),
                found ==> i > 0 && ns[i - 1] == name@,
            decreases i + (if found { 0int } else { 1int }),
        {
            if bytes_eq(self.projects[i - 1].name().as_slice(), name) {
                found = true;
            } else {
                assert(ns.subrange(0, i as int).drop_last() =~= ns.subrange(0, i - 1));
                i = i - 1;
            }
        }
        if !found {
            assert(ns.subrange(0, 0) =~= Seq::<Seq<u8>>::empty());
            return None;
        }
        assert(ns.subrange(0, i as int).last() == name@);
        Some(i - 1)
    }

    /// The project called `project_name`; where two share the name, the later.
    pub fn get_project(&self, project_name: &str) -> (r: Option<&TypeInfoProject<'a, R>>)
        ensures
            last_index_of(project_names(self@), project_name.spec_bytes()) is None ==> r is None,
            last_index_of(project_names(self@), project_name.spec_bytes()) matches Some(i) ==> (r matches Some(p)
                && p@ == self@[i]),
    {
        match self.project_index(project_name) {
            Some(i) => {
                assert(self@[i as int] == self.projects@[i as int]@);
                Some(&self.projects[i])
            },
            None => None,
        }
    }

    /// The byte offset of the variable `variable` of the class `class_name`
    /// of the project `project_name`.
    pub fn get_offset(&mut self, project_name: &str, class_name: &str, variable: &str) -> (r: Result<u64, RttiError>)
        ensures
            project_names(final(self)@) == project_names(old(self)@),
            r == Err::<u64, RttiError>(RttiError::UnknownProject) <==> last_index_of(
                project_names(old(self)@),
                project_name.spec_bytes(),
            ) is None,
            last_index_of(project_names(old(self)@), project_name.spec_bytes()) matches Some(p) ==> {
                let classes = old(self)@[p].classes;
                &&& r == Err::<u64, RttiError>(RttiError::UnknownClass) <==> last_index_of(
                    class_names(classes),
                    class_name.spec_bytes(),
                ) is None
                &&& last_index_of(class_names(classes), class_name.spec_bytes()) matches Some(c) ==> {
                    &&& r is Ok ==> known_offset(final(self)@[p].classes[c], variable.spec_bytes()) == Some(r->Ok_0)
                    &&& r == Err::<u64, RttiError>(RttiError::UnknownVariable) <==> lacks_variable(
                        final(self)@[p].classes[c],
                        variable.spec_bytes(),
                    )
                    &&& known_offset(classes[c], variable.spec_bytes()) is Some ==> r == Ok::<u64, RttiError>(
                        known_offset(classes[c], variable.spec_bytes())->Some_0,
                    ) && final(self)@ == old(self)@
                }
            },
    {
        proof {
            lemma_last_index_of(project_names(self@), project_name.spec_bytes());
        }
        let i = match self.project_index(project_name) {
            Some(i) => i,
            None => {
                return Err(RttiError::UnknownProject);
            },
        };
        let ghost old_projects = self.projects@;
        let mut p = self.projects.remove(i);
        assert(p == old_projects[i as int]);
        assert(p@ == old(self)@[i as int]);
        let r = p.get_offset(class_name, variable);
        self.projects.insert(i, p);
        proof {
            assert(self.projects@ =~= old_projects.update(i as int, p));
            assert(project_views(self.projects@) =~= project_views(old_projects).update(i as int, p@));
            assert(project_names(project_views(self.projects@)) =~= project_names(project_views(old_projects)));
            if project_views(self.projects@)[i as int] == project_views(old_projects)[i as int] {
                assert(project_views(self.projects@) =~= project_views(old_projects));
            }
        }
        r
    }
}

/// The engine versions whose tables this library knows.
#[derive(Clone, Copy, Debug, PartialEq, Eq, Structural)]
pub enum IdTechVersion {
    /// DOOM: The Dark Ages.
    IdTech8,
}

/// The signatures that lead to the type-information instance pointer in a
/// build of `version`, most likely first.
pub open spec fn typeinfo_target_views(version: IdTechVersion) -> Seq<crate::signature::TargetView> {
    match version {
        IdTechVersion::IdTech8 => seq![crate::signature::TargetView { pattern: seq![Some(0x48u8), Some(0x8Bu8), Some(0xFAu8), Some(0x4Cu8), Some(0x89u8), Some(0x41u8), Some(0x08u8), Some(0x48u8), Some(0x8Bu8), Some(0xD9u8), Some(0x48u8), Some(0x85u8), Some(0xD2u8), Some(0x74u8), Some(0x25u8), Some(0x48u8), Some(0x8Bu8), Some(0x0Du8), None, None, None, None, Some(0xE8u8), None, None, None, None, Some(0x89u8), Some(0x03u8)], offset: 0x12, next_instruction: 0x4 }],
    }
}

/// The signatures that lead to the type-information instance pointer in a
/// build of `version`, most likely first.
pub fn typeinfo_targets(version: IdTechVersion) -> (r: Vec<crate::signature::ScanTarget>)
    ensures
        crate::signature::target_views(r@) == typeinfo_target_views(version),
{
    match version {
        IdTechVersion::IdTech8 => {
            let pattern: Vec<Option<u8>> = vec![Some(0x48u8), Some(0x8Bu8), Some(0xFAu8), Some(0x4Cu8), Some(0x89u8), Some(0x41u8), Some(0x08u8), Some(0x48u8), Some(0x8Bu8), Some(0xD9u8), Some(0x48u8), Some(0x85u8), Some(0xD2u8), Some(0x74u8), Some(0x25u8), Some(0x48u8), Some(0x8Bu8), Some(0x0Du8), None, None, None, None, Some(0xE8u8), None, None, None, None, Some(0x89u8), Some(0x03u8)];
            let signature = crate::signature::Signature::from_matchers(pattern);
            let r = vec![crate::signature::ScanTarget { signature, offset: 0x12, next_instruction: 0x4 }];
            assert(crate::signature::target_views(r@) =~= typeinfo_target_views(version));
            r
        },
    }
}

/// Whether the type-information pointer address `a` is the one the first
/// resolving signature for `version` leads to in the module bytes `hay`
/// loaded at `base`.
pub open spec fn typeinfo_found_in(a: u64, hay: Seq<u8>, base: u64, version: IdTechVersion) -> bool {
    crate::signature::first_resolved_from(hay, base, typeinfo_target_views(version), 0) matches Some((_, x)) && x == a
}

/// Whether `a` is what the signatures for `version` lead to in some module
/// bytes that were read.
pub open spec fn typeinfo_found(a: u64, version: IdTechVersion) -> bool {
    exists|hay: Seq<u8>, base: u64| #[trigger] typeinfo_found_in(a, hay, base, version)
}

/// Whether no signature for `version` resolves in the module bytes `hay`.
pub open spec fn typeinfo_missing(hay: Seq<u8>, base: u64, version: IdTechVersion) -> bool {
    crate::signature::first_resolved_from(hay, base, typeinfo_target_views(version), 0) is None
}

/// Where the engine's global tables lie in one attached process.
pub struct Memory {
    pub typeinfo_addr: u64,
}

impl Memory {
    /// Finds the type-information instance pointer by scanning the module
    /// `main_module_name` with the signatures known for `version`.
    pub fn new<R: Readable>(readable: &R, version: IdTechVersion, main_module_name: &str) -> (r: Result<Memory, RttiError>)
        ensures
            r is Err ==> r == Err::<Memory, RttiError>(RttiError::Read) || r == Err::<Memory, RttiError>(
                RttiError::SignatureNotFound,
            ),
            r matches Ok(m) ==> typeinfo_found(m.typeinfo_addr, version),
            r == Err::<Memory, RttiError>(RttiError::SignatureNotFound) ==> exists|hay: Seq<u8>, base: u64|
                #[trigger] typeinfo_missing(hay, base, version),
    {
        let module = match readable.module_range(main_module_name) {
            Ok(m) => m,
            Err(e) => {
                return Err(read_failed(e));
            },
        };
        if module.len > usize::MAX as u64 {
            return Err(RttiError::Read);
        }
        let hay = match crate::memory::read_exact(readable, module.base, module.len as usize) {
            Ok(h) => h,
            Err(e) => {
                return Err(read_failed(e));
            },
        };
        let targets = typeinfo_targets(version);
        match crate::signature::find_address(hay.as_slice(), module.base, targets.as_slice()) {
            Some((_, a)) => {
                assert(typeinfo_found_in(a, hay@, module.base, version));
                assert(typeinfo_found(a, version));
                Ok(Memory { typeinfo_addr: a })
            },
            None => {
                assert(typeinfo_missing(hay@, module.base, version));
                Err(RttiError::SignatureNotFound)
            },
        }
    }
}

/// An attached id Tech engine: where its tables lie, and the directory of
/// projects, classes and variables read from them.
pub struct IdTech<'a, R: Readable> {
    readable: &'a R,
    memory: Memory,
    type_info: TypeInfoTools<'a, R>,
}

impl<'a, R: Readable> IdTech<'a, R> {
    /// The directory of projects.
    pub closed spec fn projects(&self) -> Seq<ProjectView> {
        self.type_info@
    }

    /// Attaches to the engine in the module `main_module_name`: finds the
    /// type-information instance, which must not be null, and reads its
    /// projects and their classes.
    pub fn try_load(readable: &'a R, version: IdTechVersion, main_module_name: &str) -> (r: Result<Self, RttiError>)
        ensures
            r is Ok ==> r->Ok_0.projects().len() == TYPE_INFO_PROJECT_COUNT,
            r is Err ==> r == Err::<Self, RttiError>(RttiError::Read) || r == Err::<Self, RttiError>(
                RttiError::SignatureNotFound,
            ) || r == Err::<Self, RttiError>(RttiError::NullInstance),
    {
        let memory = Memory::new(readable, version, main_module_name)?;
        let instance: u64 = match read_value::<R, u64>(readable, memory.typeinfo_addr) {
            Ok(v) => v,
            Err(e) => {
                return Err(read_failed(e));
            },
        };
        IdTech::from_instance(readable, memory, instance)
    }

    /// Attaches given the type-information instance pointer `instance` read
    /// at the address `memory` holds: a null instance is refused before any
    /// project is read; otherwise the projects are read from its slots.
    pub fn from_instance(readable: &'a R, memory: Memory, instance: u64) -> (r: Result<Self, RttiError>)
        ensures
            r == Err::<Self, RttiError>(RttiError::NullInstance) <==> instance == 0,
            r is Err && instance != 0 ==> r == Err::<Self, RttiError>(RttiError::Read),
            r matches Ok(t) ==> t.projects().len() == TYPE_INFO_PROJECT_COUNT && forall|k: int|
                0 <= k < TYPE_INFO_PROJECT_COUNT ==> #[trigger] t.projects()[k].address == slot_address(
                    instance.wrapping_add(TYPE_INFO_TOOLS_GENERATED_TYPE_INFO_OFFSET),
                    k as u64,
                    TYPE_INFO_PROJECT_SIZE,
                ),
    {
        if instance == 0 {
            return Err(RttiError::NullInstance);
        }
        let type_info = TypeInfoTools::try_load(readable, instance)?;
        Ok(IdTech { readable, memory, type_info })
    }

    /// The class `class_name` of the project `project_name`.
    pub fn get_class(&self, project_name: &str, class_name: &str) -> (r: Result<&ClassTypeInfo<'a, R>, RttiError>)
        ensures
            r == Err::<&ClassTypeInfo<'a, R>, RttiError>(RttiError::UnknownProject) <==> last_index_of(
                project_names(self.projects()),
                project_name.spec_bytes(),
            ) is None,
            last_index_of(project_names(self.projects()), project_name.spec_bytes()) matches Some(p) ==> {
                let classes = self.projects()[p].classes;
                &&& last_index_of(class_names(classes), class_name.spec_bytes()) is None ==> r == Err::<
                    &ClassTypeInfo<'a, R>,
                    RttiError,
                >(RttiError::UnknownClass)
                &&& last_index_of(class_names(classes), class_name.spec_bytes()) matches Some(c) ==> (r matches Ok(
                    ci,
                ) && ci@ == classes[c])
            },
    {
        let project = match self.type_info.get_project(project_name) {
            Some(p) => p,
            None => {
                return Err(RttiError::UnknownProject);
            },
        };
        match project.get_class(class_name) {
            Some(c) => Ok(c),
            None => Err(RttiError::UnknownClass),
        }
    }

    /// The byte offset of the variable `variable` of the class `class_name`
    /// of the project `project_name`. Each offset is read from the target
    /// once; asking again reads nothing.
    pub fn get_offset(&mut self, project_name: &str, class_name: &str, variable: &str) -> (r: Result<u64, RttiError>)
        ensures
            project_names(final(self).projects()) == project_names(old(self).projects()),
            r == Err::<u64, RttiError>(RttiError::UnknownProject) <==> last_index_of(
                project_names(old(self).projects()),
                project_name.spec_bytes(),
            ) is None,
            last_index_of(project_names(old(self).projects()), project_name.spec_bytes()) matches Some(p) ==> {
                let classes = old(self).projects()[p].classes;
                &&& r == Err::<u64, RttiError>(RttiError::UnknownClass) <==> last_index_of(
                    class_names(classes),
                    class_name.spec_bytes(),
                ) is None
                &&& last_index_of(class_names(classes), class_name.spec_bytes()) matches Some(c) ==> {
                    &&& r is Ok ==> known_offset(final(self).projects()[p].classes[c], variable.spec_bytes()) == Some(
                        r->Ok_0,
                    )
                    &&& r == Err::<u64, RttiError>(RttiError::UnknownVariable) <==> lacks_variable(
                        final(self).projects()[p].classes[c],
                        variable.spec_bytes(),
                    )
                    &&& known_offset(classes[c], variable.spec_bytes()) is Some ==> r == Ok::<u64, RttiError>(
                        known_offset(classes[c], variable.spec_bytes())->Some_0,
                    ) && final(self).projects() == old(self).projects()
                }
            },
    {
        self.type_info.get_offset(project_name, class_name, variable)
    }
}

impl<'a, R: Readable> crate::rtti::TypeDirectory for IdTech<'a, R> {
    fn field_offset(&mut self, project: &str, class: &str, field: &str) -> (r: Result<u64, RttiError>)
        ensures
            r == Err::<u64, RttiError>(RttiError::UnknownProject) <==> last_index_of(
                project_names(old(self).projects()),
                project.spec_bytes(),
            ) is None,
    {
        self.get_offset(project, class, field)
    }
}

} // verus!
