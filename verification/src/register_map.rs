//! The register map: the only channel between a control program and the
//! simulation.
//!
//! A unit exposes numbered modules (clock, drivetrain, joints, weapons,
//! sensors), each with numbered registers. A register has a name, a declared
//! type and an access mode. Control programs `read` and `write` under access
//! control; the module adapters of the host `expose` simulation state into
//! registers and `peek` at what a program commanded.

use vstd::prelude::*;

verus! {

/// The primitive types a register can hold.
#[derive(Clone, Copy, Debug, PartialEq, Eq, Structural)]
pub enum ValueType {
    Bool,
    I32,
    F32,
}

/// A register value together with its type. A 32-bit float is carried as
/// its IEEE-754 bit pattern, so that it crosses the protocol bit for bit.
#[derive(Clone, Copy, Debug, PartialEq, Eq, Structural)]
pub enum Value {
    Bool(bool),
    I32(i32),
    F32(u32),
}

/// What a control program may do with a register.
#[derive(Clone, Copy, Debug, PartialEq, Eq, Structural)]
pub enum Access {
    ReadOnly,
    WriteOnly,
    ReadWrite,
}

/// Why a register access was refused.
#[derive(Clone, Copy, Debug, PartialEq, Eq, Structural)]
pub enum RegisterError {
    /// The unit has no module with this id.
    UnknownModule,
    /// The module has no register with this id.
    UnknownRegister,
    /// The register's access mode does not allow the operation.
    AccessDenied,
    /// The value's type is not the register's declared type.
    TypeMismatch,
}

impl Value {
    /// The type of this value.
    pub open spec fn spec_value_type(self) -> ValueType {
        match self {
            Value::Bool(_) => ValueType::Bool,
            Value::I32(_) => ValueType::I32,
            Value::F32(_) => ValueType::F32,
        }
    }

    /// The type of this value.
    #[verifier::when_used_as_spec(spec_value_type)]
    pub fn value_type(self) -> (value_type: ValueType)
        ensures
            value_type == self.spec_value_type(),
    {
        match self {
            Value::Bool(_) => ValueType::Bool,
            Value::I32(_) => ValueType::I32,
            Value::F32(_) => ValueType::F32,
        }
    }
}

impl Access {
    /// Whether a control program may read.
    pub open spec fn spec_readable(self) -> bool {
        self != Access::WriteOnly
    }

    /// Whether a control program may write.
    pub open spec fn spec_writable(self) -> bool {
        self != Access::ReadOnly
    }

    /// Whether a control program may read.
    #[verifier::when_used_as_spec(spec_readable)]
    pub fn readable(self) -> (allowed: bool)
        ensures
            allowed == self.spec_readable(),
    {
        match self {
            Access::WriteOnly => false,
            _ => true,
        }
    }

    /// Whether a control program may write.
    #[verifier::when_used_as_spec(spec_writable)]
    pub fn writable(self) -> (allowed: bool)
        ensures
            allowed == self.spec_writable(),
    {
        match self {
            Access::ReadOnly => false,
            _ => true,
        }
    }
}

/// Whether `ids` lists exactly the members of `of`, in ascending order.
pub open spec fn lists_ascending(ids: Seq<u32>, of: Set<u32>) -> bool {
    &&& forall|i: int, j: int| 0 <= i < j < ids.len() ==> ids[i] < ids[j]
    &&& forall|id: u32| ids.contains(id) <==> of.contains(id)
}

struct Entry<T> {
    id: u32,
    item: T,
}

/// Items keyed by id, kept in ascending order of id.
struct IdTable<T> {
    entries: Vec<Entry<T>>,
}

impl<T> IdTable<T> {
    spec fn wf(&self) -> bool {
        forall|i: int, j: int|
            0 <= i < j < self.entries@.len() ==> self.entries@[i].id < self.entries@[j].id
    }

    spec fn has(&self, id: u32) -> bool {
        exists|i: int| 0 <= i < self.entries@.len() && #[trigger] self.entries@[i].id == id
    }

    spec fn index_of(&self, id: u32) -> int {
        choose|i: int| 0 <= i < self.entries@.len() && #[trigger] self.entries@[i].id == id
    }

    spec fn view(&self) -> Map<u32, T> {
        Map::new(|id: u32| self.has(id), |id: u32| self.entries@[self.index_of(id)].item)
    }

    spec fn ids(&self) -> Seq<u32> {
        Seq::new(self.entries@.len(), |i: int| self.entries@[i].id)
    }

    proof fn lemma_entry(&self, i: int)
        requires
            self.wf(),
            0 <= i < self.entries@.len(),
        ensures
            self.has(self.entries@[i].id),
            self.index_of(self.entries@[i].id) == i,
            self@.dom().contains(self.entries@[i].id),
            self@[self.entries@[i].id] == self.entries@[i].item,
    {
        let id = self.entries@[i].id;
        let k = self.index_of(id);
        assert(self.entries@[k].id == id);
        if k < i {
            assert(self.entries@[k].id < self.entries@[i].id);
        } else if i < k {
            assert(self.entries@[i].id < self.entries@[k].id);
        }
    }

    proof fn lemma_ids(&self)
        requires
            self.wf(),
        ensures
            lists_ascending(self.ids(), self@.dom()),
    {
        let ids = self.ids();
        assert forall|id: u32| ids.contains(id) <==> self@.dom().contains(id) by {
            if ids.contains(id) {
                let i = choose|i: int| 0 <= i < ids.len() && ids[i] == id;
                assert(self.entries@[i].id == id);
            }
            if self@.dom().contains(id) {
                let i = self.index_of(id);
                assert(ids[i] == id);
            }
        }
    }

    /// The table after the entry at `at` was given the item `item`.
    proof fn lemma_replaced(&self, after: &Self, at: int, item: T)
        requires
            self.wf(),
            0 <= at < self.entries@.len(),
            after.entries@ == self.entries@.update(at, Entry { id: self.entries@[at].id, item }),
        ensures
            after.wf(),
            after@ == self@.insert(self.entries@[at].id, item),
    {
        let id = self.entries@[at].id;
        assert(after.wf());
        assert forall|k: u32| after.has(k) <==> self.has(k) by {
            if after.has(k) {
                let i = after.index_of(k);
                assert(self.entries@[i].id == k);
            }
            if self.has(k) {
                let i = self.index_of(k);
                assert(after.entries@[i].id == k);
            }
        }
        assert forall|k: u32| after.has(k) implies after@[k] == self@.insert(id, item)[k] by {
            let i = after.index_of(k);
            after.lemma_entry(i);
            self.lemma_entry(i);
        }
        assert(after@.dom() =~= self@.insert(id, item).dom()) by {
            self.lemma_entry(at);
        }
        assert(after@ =~= self@.insert(id, item));
    }

    /// The table after a new entry went in at `at`, between the smaller and
    /// the larger ids.
    proof fn lemma_inserted(&self, after: &Self, at: int, id: u32, item: T)
        requires
            self.wf(),
            0 <= at <= self.entries@.len(),
            forall|i: int| 0 <= i < at ==> self.entries@[i].id < id,
            forall|i: int| at <= i < self.entries@.len() ==> id < self.entries@[i].id,
            after.entries@ == self.entries@.insert(at, Entry { id, item }),
        ensures
            after.wf(),
            after@ == self@.insert(id, item),
    {
        assert(after.wf()) by {
            assert forall|i: int, j: int| 0 <= i < j < after.entries@.len() implies after.entries@[i].id
                < after.entries@[j].id by {
                let a = if i < at {
                    i
                } else {
                    i - 1
                };
                let b = if j < at {
                    j
                } else {
                    j - 1
                };
                if i != at && j != at {
                    assert(self.entries@[a].id < self.entries@[b].id);
                }
            }
        }
        assert(after.entries@[at].id == id);
        assert forall|k: u32| after.has(k) <==> (k == id || self.has(k)) by {
            if after.has(k) && k != id {
                let i = after.index_of(k);
                let a = if i < at {
                    i
                } else {
                    i - 1
                };
                assert(self.entries@[a].id == k);
            }
            if self.has(k) {
                let i = self.index_of(k);
                let b = if i < at {
                    i
                } else {
                    i + 1
                };
                assert(after.entries@[b].id == k);
            }
        }
        assert forall|k: u32| after.has(k) implies after@[k] == self@.insert(id, item)[k] by {
            let i = after.index_of(k);
            after.lemma_entry(i);
            if i != at {
                let a = if i < at {
                    i
                } else {
                    i - 1
                };
                self.lemma_entry(a);
            }
        }
        assert(after@.dom() =~= self@.insert(id, item).dom());
        assert(after@ =~= self@.insert(id, item));
    }

    fn new() -> (table: Self)
        ensures
            table.wf(),
            table@ == Map::<u32, T>::empty(),
            table.entries@.len() == 0,
    {
        let table = IdTable { entries: Vec::new() };
        assert(table@ =~= Map::<u32, T>::empty());
        table
    }

    /// The index of the first entry whose id is not below `id`.
    fn lower_bound(&self, id: u32) -> (at: usize)
        requires
            self.wf(),
        ensures
            at <= self.entries@.len(),
            forall|i: int| 0 <= i < at ==> self.entries@[i].id < id,
            forall|i: int| at <= i < self.entries@.len() ==> id <= self.entries@[i].id,
    {
        let mut at: usize = 0;
        while at < self.entries.len() && self.entries[at].id < id
            invariant
                self.wf(),
                at <= self.entries@.len(),
                forall|i: int| 0 <= i < at ==> self.entries@[i].id < id,
            decreases self.entries@.len() - at,
        {
            at += 1;
        }
        at
    }

    /// The index of the entry with this id, if there is one.
    fn find(&self, id: u32) -> (found: Option<usize>)
        requires
            self.wf(),
        ensures
            match found {
                Some(i) => i < self.entries@.len() && self.entries@[i as int].id == id,
                None => !self.has(id),
            },
            found is Some <==> self@.dom().contains(id),
    {
        let at = self.lower_bound(id);
        if at < self.entries.len() && self.entries[at].id == id {
            proof {
                self.lemma_entry(at as int);
            }
            Some(at)
        } else {
            None
        }
    }

    /// Puts `item` under `id`, in place of what was there.
    fn insert(&mut self, id: u32, item: T)
        requires
            old(self).wf(),
        ensures
            final(self).wf(),
            final(self)@ == old(self)@.insert(id, item),
    {
        let at = self.lower_bound(id);
        if at < self.entries.len() && self.entries[at].id == id {
            self.entries[at].item = item;
            proof {
                old(self).lemma_replaced(self, at as int, item);
            }
        } else {
            self.entries.insert(at, Entry { id, item });
            proof {
                old(self).lemma_inserted(self, at as int, id, item);
            }
        }
    }

    /// The ids in the table, ascending.
    fn id_list(&self) -> (ids: Vec<u32>)
        requires
            self.wf(),
        ensures
            ids@ == self.ids(),
            lists_ascending(ids@, self@.dom()),
    {
        let mut ids: Vec<u32> = Vec::new();
        let mut i: usize = 0;
        while i < self.entries.len()
            invariant
                i <= self.entries@.len(),
                ids@.len() == i,
                forall|k: int| 0 <= k < i ==> ids@[k] == self.entries@[k].id,
            decreases self.entries@.len() - i,
        {
            ids.push(self.entries[i].id);
            i += 1;
        }
        assert(ids@ =~= self.ids());
        proof {
            self.lemma_ids();
        }
        ids
    }
}


/// A register as control programs and adapters see it.
pub struct RegisterView {
    pub name: Seq<char>,
    pub access: Access,
    /// The current value; its type is the register's declared type.
    pub value: Value,
}

/// A module as control programs and adapters see it.
pub struct ModuleView {
    pub name: Seq<char>,
    pub registers: Map<u32, RegisterView>,
}

/// The register map of one unit, as a mathematical value: modules by module
/// id, and in each module registers by register id.
pub struct RegisterMapView {
    pub modules: Map<u32, ModuleView>,
}

impl RegisterMapView {
    /// The map of a unit without modules.
    pub open spec fn empty() -> Self {
        RegisterMapView { modules: Map::empty() }
    }

    pub open spec fn has_module(self, module: u32) -> bool {
        self.modules.dom().contains(module)
    }

    pub open spec fn has_register(self, module: u32, register: u32) -> bool {
        self.has_module(module) && self.modules[module].registers.dom().contains(register)
    }

    pub open spec fn register(self, module: u32, register: u32) -> RegisterView {
        self.modules[module].registers[register]
    }

    /// The register that an address names, or why it names none.
    pub open spec fn locate(self, module: u32, register: u32) -> Result<
        RegisterView,
        RegisterError,
    > {
        if !self.has_module(module) {
            Err(RegisterError::UnknownModule)
        } else if !self.has_register(module, register) {
            Err(RegisterError::UnknownRegister)
        } else {
            Ok(self.register(module, register))
        }
    }

    /// What a control program gets when it reads a register.
    pub open spec fn read(self, module: u32, register: u32) -> Result<Value, RegisterError> {
        match self.locate(module, register) {
            Err(e) => Err(e),
            Ok(found) => if found.access.spec_readable() {
                Ok(found.value)
            } else {
                Err(RegisterError::AccessDenied)
            },
        }
    }

    /// What an adapter gets when it looks at a register: the value, whatever
    /// the access mode.
    pub open spec fn peek(self, module: u32, register: u32) -> Result<Value, RegisterError> {
        match self.locate(module, register) {
            Err(e) => Err(e),
            Ok(found) => Ok(found.value),
        }
    }

    /// Whether a control program's write is accepted, or why not.
    pub open spec fn check_write(self, module: u32, register: u32, value: Value) -> Result<
        (),
        RegisterError,
    > {
        match self.locate(module, register) {
            Err(e) => Err(e),
            Ok(found) => if !found.access.spec_writable() {
                Err(RegisterError::AccessDenied)
            } else if found.value.spec_value_type() != value.spec_value_type() {
                Err(RegisterError::TypeMismatch)
            } else {
                Ok(())
            },
        }
    }

    /// Whether an adapter's value is accepted, or why not. Access modes bind
    /// control programs, not adapters; the declared type binds both.
    pub open spec fn check_expose(self, module: u32, register: u32, value: Value) -> Result<
        (),
        RegisterError,
    > {
        match self.locate(module, register) {
            Err(e) => Err(e),
            Ok(found) => if found.value.spec_value_type() != value.spec_value_type() {
                Err(RegisterError::TypeMismatch)
            } else {
                Ok(())
            },
        }
    }

    /// The map in which one register holds `value` and all else is as before.
    pub open spec fn with_value(self, module: u32, register: u32, value: Value) -> Self {
        let found = self.register(module, register);
        RegisterMapView {
            modules: self.modules.insert(
                module,
                ModuleView {
                    name: self.modules[module].name,
                    registers: self.modules[module].registers.insert(
                        register,
                        RegisterView { name: found.name, access: found.access, value },
                    ),
                },
            ),
        }
    }

    /// The map after a control program's write: the value is stored if the
    /// write is accepted, and nothing changes if it is not.
    pub open spec fn written(self, module: u32, register: u32, value: Value) -> Self {
        if self.check_write(module, register, value) is Ok {
            self.with_value(module, register, value)
        } else {
            self
        }
    }

    /// The map after an adapter exposed a value: stored if accepted, and
    /// nothing changes if not.
    pub open spec fn exposed(self, module: u32, register: u32, value: Value) -> Self {
        if self.check_expose(module, register, value) is Ok {
            self.with_value(module, register, value)
        } else {
            self
        }
    }

    /// The map with a module `module` of this name and no registers, in place
    /// of any module that had this id.
    pub open spec fn with_module(self, module: u32, name: Seq<char>) -> Self {
        RegisterMapView {
            modules: self.modules.insert(module, ModuleView { name, registers: Map::empty() }),
        }
    }

    /// The map with this register in module `module`, in place of any
    /// register that had this id there.
    pub open spec fn with_register(
        self,
        module: u32,
        register: u32,
        name: Seq<char>,
        access: Access,
        value: Value,
    ) -> Self {
        RegisterMapView {
            modules: self.modules.insert(
                module,
                ModuleView {
                    name: self.modules[module].name,
                    registers: self.modules[module].registers.insert(
                        register,
                        RegisterView { name, access, value },
                    ),
                },
            ),
        }
    }

    /// Whether the map has this register with this declared type and,
    /// where asked for, open to control programs for reading and for writing.
    pub open spec fn offers(
        self,
        module: u32,
        register: u32,
        value_type: ValueType,
        readable: bool,
        writable: bool,
    ) -> bool {
        &&& self.has_register(module, register)
        &&& self.register(module, register).value.spec_value_type() == value_type
        &&& readable ==> self.register(module, register).access.spec_readable()
        &&& writable ==> self.register(module, register).access.spec_writable()
    }

    /// The name of a module, or `UnknownModule`.
    pub open spec fn module_name(self, module: u32) -> Result<Seq<char>, RegisterError> {
        if self.has_module(module) {
            Ok(self.modules[module].name)
        } else {
            Err(RegisterError::UnknownModule)
        }
    }

    /// The name of a register, or why the address names none.
    pub open spec fn register_name(self, module: u32, register: u32) -> Result<
        Seq<char>,
        RegisterError,
    > {
        match self.locate(module, register) {
            Err(e) => Err(e),
            Ok(found) => Ok(found.name),
        }
    }
}

/// The 32-bit integer in a value that was read, `TypeMismatch` for a value
/// of another type.
pub open spec fn expect_i32(read: Result<Value, RegisterError>) -> Result<i32, RegisterError> {
    match read {
        Ok(Value::I32(v)) => Ok(v),
        Ok(_) => Err(RegisterError::TypeMismatch),
        Err(e) => Err(e),
    }
}

/// The bit pattern of the float in a value that was read, `TypeMismatch`
/// for a value of another type.
pub open spec fn expect_float_bits(read: Result<Value, RegisterError>) -> Result<
    u32,
    RegisterError,
> {
    match read {
        Ok(Value::F32(bits)) => Ok(bits),
        Ok(_) => Err(RegisterError::TypeMismatch),
        Err(e) => Err(e),
    }
}

struct Register {
    name: String,
    access: Access,
    value: Value,
}

struct Module {
    name: String,
    registers: IdTable<Register>,
}

/// The register map of one unit.
pub struct RegisterMap {
    modules: IdTable<Module>,
}

impl Register {
    spec fn view(&self) -> RegisterView {
        RegisterView { name: self.name@, access: self.access, value: self.value }
    }
}

impl Module {
    spec fn view(&self) -> ModuleView {
        ModuleView {
            name: self.name@,
            registers: Map::new(
                |r: u32| self.registers@.dom().contains(r),
                |r: u32| self.registers@[r]@,
            ),
        }
    }

    /// The module with `register` put under `id`.
    proof fn lemma_with_register(&self, after: &Module, id: u32, register: Register)
        requires
            after.name == self.name,
            after.registers@ == self.registers@.insert(id, register),
        ensures
            after@ == (ModuleView {
                name: self@.name,
                registers: self@.registers.insert(id, register@),
            }),
    {
        assert(after@.registers =~= self@.registers.insert(id, register@));
    }
}

impl RegisterMap {
    /// The modules and registers of the map.
    pub closed spec fn view(&self) -> RegisterMapView {
        RegisterMapView {
            modules: Map::new(
                |m: u32| self.modules@.dom().contains(m),
                |m: u32| self.modules@[m]@,
            ),
        }
    }

    /// The tables are in order of id, so that every id names one entry.
    pub closed spec fn wf(&self) -> bool {
        &&& self.modules.wf()
        &&& forall|m: u32| #[trigger]
            self.modules@.dom().contains(m) ==> self.modules@[m].registers.wf()
    }

    /// The map with `module` put under `id`.
    proof fn lemma_with_module(&self, after: &RegisterMap, id: u32, module: Module)
        requires
            self.wf(),
            after.modules.wf(),
            after.modules@ == self.modules@.insert(id, module),
            module.registers.wf(),
        ensures
            after.wf(),
            after@.modules == self@.modules.insert(id, module@),
    {
        assert(after@.modules =~= self@.modules.insert(id, module@));
    }

    /// A map without modules.
    pub fn new() -> (map: Self)
        ensures
            map.wf(),
            map@ == RegisterMapView::empty(),
    {
        let map = RegisterMap { modules: IdTable::new() };
        assert(map@.modules =~= RegisterMapView::empty().modules);
        map
    }

    /// Adds a module without registers under `id`. A module that had this id
    /// is replaced.
    pub fn add_module(&mut self, name: &str, id: u32)
        requires
            old(self).wf(),
        ensures
            final(self).wf(),
            final(self)@ == old(self)@.with_module(id, name@),
    {
        let module = Module { name: name.to_owned(), registers: IdTable::new() };
        self.modules.insert(id, module);
        proof {
            old(self).lemma_with_module(self, id, module);
            assert(module@.registers =~= Map::<u32, RegisterView>::empty());
        }
    }

    /// Adds a register to a module; `value` is its initial value and fixes
    /// its declared type. A register that had this id in the module is
    /// replaced. Fails with `UnknownModule`, changing nothing, if the map has
    /// no such module.
    pub fn add_register(
        &mut self,
        module: u32,
        register: u32,
        name: &str,
        access: Access,
        value: Value,
    ) -> (result: Result<(), RegisterError>)
        requires
            old(self).wf(),
        ensures
            final(self).wf(),
            result == if old(self)@.has_module(module) {
                Ok::<(), RegisterError>(())
            } else {
                Err::<(), RegisterError>(RegisterError::UnknownModule)
            },
            final(self)@ == if old(self)@.has_module(module) {
                old(self)@.with_register(module, register, name@, access, value)
            } else {
                old(self)@
            },
    {
        let i = match self.modules.find(module) {
            Some(i) => i,
            None => {
                return Err(RegisterError::UnknownModule);
            },
        };
        proof {
            self.modules.lemma_entry(i as int);
        }
        let added = Register { name: name.to_owned(), access, value };
        self.modules.entries[i].item.registers.insert(register, added);
        proof {
            let before = old(self).modules.entries@[i as int].item;
            let after = self.modules.entries@[i as int].item;
            assert(self.modules.entries@ =~= old(self).modules.entries@.update(
                i as int,
                Entry { id: module, item: after },
            ));
            old(self).modules.lemma_replaced(&self.modules, i as int, after);
            before.lemma_with_register(&after, register, added);
            old(self).lemma_with_module(self, module, after);
        }
        Ok(())
    }

    /// The ids of the unit's modules, ascending.
    pub fn list_modules(&self) -> (ids: Vec<u32>)
        requires
            self.wf(),
        ensures
            lists_ascending(ids@, self@.modules.dom()),
    {
        let ids = self.modules.id_list();
        assert(self@.modules.dom() =~= self.modules@.dom());
        ids
    }

    /// The name of a module; `UnknownModule` if the map has none with this id.
    pub fn module_name(&self, module: u32) -> (result: Result<String, RegisterError>)
        requires
            self.wf(),
        ensures
            match result {
                Ok(name) => self@.module_name(module) == Ok::<Seq<char>, RegisterError>(name@),
                Err(e) => self@.module_name(module) == Err::<Seq<char>, RegisterError>(e),
            },
    {
        match self.modules.find(module) {
            Some(i) => {
                proof {
                    self.modules.lemma_entry(i as int);
                }
                Ok(self.modules.entries[i].item.name.clone())
            },
            None => Err(RegisterError::UnknownModule),
        }
    }

    /// The ids of a module's registers, ascending; `UnknownModule` if the map
    /// has no module with this id.
    pub fn list_registers(&self, module: u32) -> (result: Result<Vec<u32>, RegisterError>)
        requires
            self.wf(),
        ensures
            match result {
                Ok(ids) => self@.has_module(module) && lists_ascending(
                    ids@,
                    self@.modules[module].registers.dom(),
                ),
                Err(e) => !self@.has_module(module) && e == RegisterError::UnknownModule,
            },
    {
        match self.modules.find(module) {
            Some(i) => {
                proof {
                    self.modules.lemma_entry(i as int);
                }
                let ids = self.modules.entries[i].item.registers.id_list();
                assert(self@.modules[module].registers.dom()
                    =~= self.modules.entries@[i as int].item.registers@.dom());
                Ok(ids)
            },
            None => Err(RegisterError::UnknownModule),
        }
    }

    /// Where the entry of an address lies in the tables.
    fn locate(&self, module: u32, register: u32) -> (result: Result<(usize, usize), RegisterError>)
        requires
            self.wf(),
        ensures
            match result {
                Ok((i, j)) => {
                    &&& i < self.modules.entries@.len()
                    &&& self.modules.entries@[i as int].id == module
                    &&& self.modules.entries@[i as int].item.registers.wf()
                    &&& j < self.modules.entries@[i as int].item.registers.entries@.len()
                    &&& self.modules.entries@[i as int].item.registers.entries@[j as int].id
                        == register
                    &&& self@.locate(module, register) == Ok::<RegisterView, RegisterError>(
                        self.modules.entries@[i as int].item.registers.entries@[j as int].item@,
                    )
                    &&& self@.modules[module] == self.modules.entries@[i as int].item@
                },
                Err(e) => self@.locate(module, register) == Err::<RegisterView, RegisterError>(e),
            },
    {
        let i = match self.modules.find(module) {
            Some(i) => i,
            None => {
                return Err(RegisterError::UnknownModule);
            },
        };
        proof {
            self.modules.lemma_entry(i as int);
        }
        let j = match self.modules.entries[i].item.registers.find(register) {
            Some(j) => j,
            None => {
                return Err(RegisterError::UnknownRegister);
            },
        };
        proof {
            self.modules.entries@[i as int].item.registers.lemma_entry(j as int);
        }
        Ok((i, j))
    }

    /// Stores `value` in the register at the table position `(i, j)`.
    fn store(&mut self, i: usize, j: usize, value: Value)
        requires
            old(self).wf(),
            i < old(self).modules.entries@.len(),
            old(self).modules.entries@[i as int].item.registers.wf(),
            j < old(self).modules.entries@[i as int].item.registers.entries@.len(),
        ensures
            final(self).wf(),
            final(self)@ == old(self)@.with_value(
                old(self).modules.entries@[i as int].id,
                old(self).modules.entries@[i as int].item.registers.entries@[j as int].id,
                value,
            ),
    {
        self.modules.entries[i].item.registers.entries[j].item.value = value;
        proof {
            let module = old(self).modules.entries@[i as int].id;
            let before = old(self).modules.entries@[i as int].item;
            let after = self.modules.entries@[i as int].item;
            let register = before.registers.entries@[j as int].id;
            let stored = after.registers.entries@[j as int].item;
            old(self).modules.lemma_entry(i as int);
            before.registers.lemma_entry(j as int);
            assert(after.registers.entries@ =~= before.registers.entries@.update(
                j as int,
                Entry { id: register, item: stored },
            ));
            before.registers.lemma_replaced(&after.registers, j as int, stored);
            assert(self.modules.entries@ =~= old(self).modules.entries@.update(
                i as int,
                Entry { id: module, item: after },
            ));
            old(self).modules.lemma_replaced(&self.modules, i as int, after);
            before.lemma_with_register(&after, register, stored);
            old(self).lemma_with_module(self, module, after);
        }
    }

    /// The name of a register, or why the address names none.
    pub fn register_name(&self, module: u32, register: u32) -> (result: Result<
        String,
        RegisterError,
    >)
        requires
            self.wf(),
        ensures
            match result {
                Ok(name) => self@.register_name(module, register) == Ok::<
                    Seq<char>,
                    RegisterError,
                >(name@),
                Err(e) => self@.register_name(module, register) == Err::<
                    Seq<char>,
                    RegisterError,
                >(e),
            },
    {
        match self.locate(module, register) {
            Ok((i, j)) => Ok(self.modules.entries[i].item.registers.entries[j].item.name.clone()),
            Err(e) => Err(e),
        }
    }

    /// Whether the map has this register with this declared type and, where
    /// asked for, open to control programs for reading and for writing.
    pub fn offers(
        &self,
        module: u32,
        register: u32,
        value_type: ValueType,
        readable: bool,
        writable: bool,
    ) -> (offered: bool)
        requires
            self.wf(),
        ensures
            offered == self@.offers(module, register, value_type, readable, writable),
    {
        match self.locate(module, register) {
            Ok((i, j)) => {
                let found = &self.modules.entries[i].item.registers.entries[j].item;
                found.value.value_type() == value_type && (!readable || found.access.readable())
                    && (!writable || found.access.writable())
            },
            Err(_) => false,
        }
    }

    /// Reads a register on behalf of a control program. Fails with
    /// `UnknownModule` or `UnknownRegister` if the address names none, and
    /// with `AccessDenied` if the register is write-only.
    pub fn read(&self, module: u32, register: u32) -> (result: Result<Value, RegisterError>)
        requires
            self.wf(),
        ensures
            result == self@.read(module, register),
    {
        match self.locate(module, register) {
            Ok((i, j)) => {
                let found = &self.modules.entries[i].item.registers.entries[j].item;
                if found.access.readable() {
                    Ok(found.value)
                } else {
                    Err(RegisterError::AccessDenied)
                }
            },
            Err(e) => Err(e),
        }
    }

    /// Writes a register on behalf of a control program. Fails with
    /// `UnknownModule` or `UnknownRegister` if the address names none, with
    /// `AccessDenied` if the register is read-only, and with `TypeMismatch` if
    /// the value is not of the register's declared type. A write that fails
    /// changes nothing.
    pub fn write(&mut self, module: u32, register: u32, value: Value) -> (result: Result<
        (),
        RegisterError,
    >)
        requires
            old(self).wf(),
        ensures
            final(self).wf(),
            result == old(self)@.check_write(module, register, value),
            final(self)@ == old(self)@.written(module, register, value),
    {
        match self.locate(module, register) {
            Ok((i, j)) => {
                let found = &self.modules.entries[i].item.registers.entries[j].item;
                if !found.access.writable() {
                    Err(RegisterError::AccessDenied)
                } else if found.value.value_type() != value.value_type() {
                    Err(RegisterError::TypeMismatch)
                } else {
                    self.store(i, j, value);
                    Ok(())
                }
            },
            Err(e) => Err(e),
        }
    }

    /// Looks at a register on behalf of an adapter: the value, whatever the
    /// access mode.
    pub fn peek(&self, module: u32, register: u32) -> (result: Result<Value, RegisterError>)
        requires
            self.wf(),
        ensures
            result == self@.peek(module, register),
    {
        match self.locate(module, register) {
            Ok((i, j)) => Ok(self.modules.entries[i].item.registers.entries[j].item.value),
            Err(e) => Err(e),
        }
    }

    /// Puts a value into a register on behalf of an adapter, whatever the
    /// access mode. Fails with `UnknownModule` or `UnknownRegister` if the
    /// address names none and with `TypeMismatch` if the value is not of the
    /// register's declared type; then nothing changes.
    pub fn expose(&mut self, module: u32, register: u32, value: Value) -> (result: Result<
        (),
        RegisterError,
    >)
        requires
            old(self).wf(),
        ensures
            final(self).wf(),
            result == old(self)@.check_expose(module, register, value),
            final(self)@ == old(self)@.exposed(module, register, value),
    {
        match self.locate(module, register) {
            Ok((i, j)) => {
                let found = &self.modules.entries[i].item.registers.entries[j].item;
                if found.value.value_type() != value.value_type() {
                    Err(RegisterError::TypeMismatch)
                } else {
                    self.store(i, j, value);
                    Ok(())
                }
            },
            Err(e) => Err(e),
        }
    }

    /// Reads a register that holds a 32-bit integer.
    pub fn get_i32(&self, module: u32, register: u32) -> (result: Result<i32, RegisterError>)
        requires
            self.wf(),
        ensures
            result == expect_i32(self@.read(module, register)),
    {
        match self.read(module, register) {
            Ok(Value::I32(v)) => Ok(v),
            Ok(_) => Err(RegisterError::TypeMismatch),
            Err(e) => Err(e),
        }
    }

    /// Writes a 32-bit integer to a register.
    pub fn set_i32(&mut self, module: u32, register: u32, value: i32) -> (result: Result<
        (),
        RegisterError,
    >)
        requires
            old(self).wf(),
        ensures
            final(self).wf(),
            result == old(self)@.check_write(module, register, Value::I32(value)),
            final(self)@ == old(self)@.written(module, register, Value::I32(value)),
    {
        self.write(module, register, Value::I32(value))
    }

    /// Reads a register that holds a float, as the float's bit pattern.
    pub fn get_f32(&self, module: u32, register: u32) -> (result: Result<u32, RegisterError>)
        requires
            self.wf(),
        ensures
            result == expect_float_bits(self@.read(module, register)),
    {
        match self.read(module, register) {
            Ok(Value::F32(bits)) => Ok(bits),
            Ok(_) => Err(RegisterError::TypeMismatch),
            Err(e) => Err(e),
        }
    }

    /// Writes a float, given as its bit pattern, to a register.
    pub fn set_f32(&mut self, module: u32, register: u32, bits: u32) -> (result: Result<
        (),
        RegisterError,
    >)
        requires
            old(self).wf(),
        ensures
            final(self).wf(),
            result == old(self)@.check_write(module, register, Value::F32(bits)),
            final(self)@ == old(self)@.written(module, register, Value::F32(bits)),
    {
        self.write(module, register, Value::F32(bits))
    }
}


impl RegisterMapView {
    /// Round trip: an accepted write to a register that programs may also
    /// read is read back as the very value written.
    pub proof fn lemma_write_then_read(self, module: u32, register: u32, value: Value)
        requires
            self.check_write(module, register, value) is Ok,
            self.register(module, register).access.spec_readable(),
        ensures
            self.written(module, register, value).read(module, register) == Ok::<
                Value,
                RegisterError,
            >(value),
    {
    }

    /// A value of another type than the register's declared type is refused
    /// with `TypeMismatch`, and the register keeps its value.
    pub proof fn lemma_mistyped_write_refused(self, module: u32, register: u32, value: Value)
        requires
            self.has_register(module, register),
            self.register(module, register).access.spec_writable(),
            self.register(module, register).value.spec_value_type() != value.spec_value_type(),
        ensures
            self.check_write(module, register, value) == Err::<(), RegisterError>(
                RegisterError::TypeMismatch,
            ),
            self.written(module, register, value) == self,
    {
    }

    /// Reading a write-only register is refused with `AccessDenied`, as a
    /// value of any type, and so is writing a read-only one, which keeps its
    /// value.
    pub proof fn lemma_access_enforced(self, module: u32, register: u32, value: Value)
        requires
            self.has_register(module, register),
        ensures
            self.register(module, register).access == Access::WriteOnly ==> self.read(
                module,
                register,
            ) == Err::<Value, RegisterError>(RegisterError::AccessDenied),
            self.register(module, register).access == Access::WriteOnly ==> expect_i32(
                self.read(module, register),
            ) == Err::<i32, RegisterError>(RegisterError::AccessDenied) && expect_float_bits(
                self.read(module, register),
            ) == Err::<u32, RegisterError>(RegisterError::AccessDenied),
            self.register(module, register).access == Access::ReadOnly ==> self.check_write(
                module,
                register,
                value,
            ) == Err::<(), RegisterError>(RegisterError::AccessDenied) && self.written(
                module,
                register,
                value,
            ) == self,
    {
    }

    /// No partial writes: a write that is refused, for whatever reason,
    /// leaves the whole map as it was.
    pub proof fn lemma_refused_write_changes_nothing(self, module: u32, register: u32, value: Value)
        requires
            self.check_write(module, register, value) is Err,
        ensures
            self.written(module, register, value) == self,
    {
    }

    /// An accepted write changes one value and nothing else: the same
    /// modules and registers exist, with the same names, access modes and
    /// declared types, and every other register keeps its value.
    pub proof fn lemma_write_frame(
        self,
        module: u32,
        register: u32,
        value: Value,
        other_module: u32,
        other_register: u32,
    )
        ensures
            self.written(module, register, value).has_module(other_module) == self.has_module(
                other_module,
            ),
            self.written(module, register, value).has_register(other_module, other_register)
                == self.has_register(other_module, other_register),
            self.written(module, register, value).module_name(other_module) == self.module_name(
                other_module,
            ),
            self.written(module, register, value).register_name(other_module, other_register)
                == self.register_name(other_module, other_register),
            self.has_register(other_module, other_register) ==> {
                let before = self.register(other_module, other_register);
                let after = self.written(module, register, value).register(
                    other_module,
                    other_register,
                );
                &&& after.access == before.access
                &&& after.value.spec_value_type() == before.value.spec_value_type()
                &&& (other_module != module || other_register != register) ==> after.value
                    == before.value
            },
    {
    }
}


impl RegisterMapView {
    /// Exposing is idempotent: exposing the same value again changes nothing.
    pub proof fn lemma_expose_idempotent(self, module: u32, register: u32, value: Value)
        ensures
            self.exposed(module, register, value).exposed(module, register, value) == self.exposed(
                module,
                register,
                value,
            ),
    {
        let once = self.exposed(module, register, value);
        if self.check_expose(module, register, value) is Ok {
            assert(once.exposed(module, register, value).modules[module].registers
                =~= once.modules[module].registers);
            assert(once.exposed(module, register, value).modules =~= once.modules);
        }
    }

    /// Exposing is independent of order: values exposed into two different
    /// registers arrive the same whichever goes first, and whether one is
    /// accepted does not depend on the other.
    pub proof fn lemma_expose_commutes(
        self,
        module: u32,
        register: u32,
        value: Value,
        other_module: u32,
        other_register: u32,
        other_value: Value,
    )
        requires
            module != other_module || register != other_register,
        ensures
            self.exposed(module, register, value).exposed(other_module, other_register, other_value)
                == self.exposed(other_module, other_register, other_value).exposed(
                module,
                register,
                value,
            ),
            self.exposed(module, register, value).check_expose(
                other_module,
                other_register,
                other_value,
            ) == self.check_expose(other_module, other_register, other_value),
    {
        let first = self.exposed(module, register, value);
        let second = self.exposed(other_module, other_register, other_value);
        let one_way = first.exposed(other_module, other_register, other_value);
        let other_way = second.exposed(module, register, value);
        assert(first.check_expose(other_module, other_register, other_value) == self.check_expose(
            other_module,
            other_register,
            other_value,
        ));
        assert(second.check_expose(module, register, value) == self.check_expose(
            module,
            register,
            value,
        ));
        if self.check_expose(module, register, value) is Ok && self.check_expose(
            other_module,
            other_register,
            other_value,
        ) is Ok {
            if module == other_module {
                assert(one_way.modules[module].registers =~= other_way.modules[module].registers);
            }
            assert(one_way.modules =~= other_way.modules);
        }
    }
}

} // verus!
