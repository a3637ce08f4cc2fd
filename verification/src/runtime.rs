//! What a running program can look up: modules, types and their methods,
//! functions and module-level variables.

use crate::data::{Dup, Same};
use crate::paths::split_segments;
use crate::runtime_types::{
    runtime_type_name, runtime_type_pattern, MethodModel, PatternModel, RuntimeMethod,
    RuntimeTypePattern,
};
use crate::symbols::SymbolId;
use crate::table::{KeySet, Table};
use crate::text::join;
use crate::values::{CellId, Value, ValueHead, ValueTerm};
use vstd::prelude::*;
use vstd::string::*;

verus! {

/// The values of a module by name.
pub struct RuntimeModuleEntry {
    pub values: Table<String, Value>,
}

impl DeepView for RuntimeModuleEntry {
    type V = Map<Seq<char>, ValueTerm>;

    open spec fn deep_view(&self) -> Map<Seq<char>, ValueTerm> {
        self.values@
    }
}

/// The methods that an aspect gives a type.
pub struct RuntimeAspectImpl {
    pub aspect_name: String,
    /// The identity of the aspect, where it is known.
    pub aspect_id: Option<SymbolId>,
    pub type_args: Vec<String>,
    pub methods: Table<String, RuntimeMethod>,
}

pub struct AspectImplModel {
    pub aspect_name: Seq<char>,
    pub aspect_id: Option<SymbolId>,
    pub type_args: Seq<Seq<char>>,
    pub methods: Map<Seq<char>, MethodModel>,
}

impl DeepView for RuntimeAspectImpl {
    type V = AspectImplModel;

    open spec fn deep_view(&self) -> AspectImplModel {
        AspectImplModel {
            aspect_name: self.aspect_name@,
            aspect_id: self.aspect_id,
            type_args: self.type_args.deep_view(),
            methods: self.methods@,
        }
    }
}

impl Dup for RuntimeAspectImpl {
    fn dup(&self) -> (r: Self) {
        RuntimeAspectImpl {
            aspect_name: self.aspect_name.clone(),
            aspect_id: self.aspect_id,
            type_args: self.type_args.dup(),
            methods: self.methods.dup(),
        }
    }
}

/// The values and methods of a type.
pub struct RuntimeTypeEntry {
    pub associated_values: Table<String, RuntimeMethod>,
    pub inherent_methods: Table<String, RuntimeMethod>,
    pub aspect_impls: Vec<RuntimeAspectImpl>,
}

pub struct TypeEntryModel {
    pub values: Map<Seq<char>, MethodModel>,
    pub methods: Map<Seq<char>, MethodModel>,
    pub impls: Seq<AspectImplModel>,
}

impl DeepView for RuntimeTypeEntry {
    type V = TypeEntryModel;

    open spec fn deep_view(&self) -> TypeEntryModel {
        TypeEntryModel {
            values: self.associated_values@,
            methods: self.inherent_methods@,
            impls: self.aspect_impls.deep_view(),
        }
    }
}

/// A type without values and methods.
pub open spec fn bare_type() -> TypeEntryModel {
    TypeEntryModel { values: Map::empty(), methods: Map::empty(), impls: Seq::empty() }
}

impl RuntimeTypeEntry {
    fn bare() -> (r: Self)
        ensures
            r.deep_view() == bare_type(),
    {
        let r = RuntimeTypeEntry {
            associated_values: Table::new(),
            inherent_methods: Table::new(),
            aspect_impls: Vec::new(),
        };
        assert(r.deep_view().impls =~= Seq::empty());
        r
    }
}

/// What a running program can look up.
pub struct RuntimeRegistry {
    pub modules: Table<Vec<String>, RuntimeModuleEntry>,
    pub types: Table<SymbolId, RuntimeTypeEntry>,
    /// The identity that a type name stands for.
    pub type_ids: Table<String, SymbolId>,
    pub pattern_methods: Table<RuntimeTypePattern, Table<String, RuntimeMethod>>,
    pub pattern_aspect_methods: Table<RuntimeTypePattern, Vec<RuntimeAspectImpl>>,
    pub symbol_values: Table<SymbolId, Value>,
    /// Module-level variables: their values appear when their declarations run.
    pub let_mut_def_ids: KeySet<SymbolId>,
    pub global_value_slots: Table<SymbolId, CellId>,
}

pub struct RuntimeModel {
    pub modules: Map<Seq<Seq<char>>, Map<Seq<char>, ValueTerm>>,
    pub types: Map<SymbolId, TypeEntryModel>,
    pub type_ids: Map<Seq<char>, SymbolId>,
    pub pattern_methods: Map<PatternModel, Map<Seq<char>, MethodModel>>,
    pub pattern_impls: Map<PatternModel, Seq<AspectImplModel>>,
    pub symbol_values: Map<SymbolId, ValueTerm>,
    pub variables: Set<SymbolId>,
    pub globals: Map<SymbolId, CellId>,
}

impl View for RuntimeRegistry {
    type V = RuntimeModel;

    open spec fn view(&self) -> RuntimeModel {
        RuntimeModel {
            modules: self.modules@,
            types: self.types@,
            type_ids: self.type_ids@,
            pattern_methods: self.pattern_methods@,
            pattern_impls: self.pattern_aspect_methods@,
            symbol_values: self.symbol_values@,
            variables: self.let_mut_def_ids@,
            globals: self.global_value_slots@,
        }
    }
}

/// A registry in which nothing is registered.
pub open spec fn empty_runtime() -> RuntimeModel {
    RuntimeModel {
        modules: Map::empty(),
        types: Map::empty(),
        type_ids: Map::empty(),
        pattern_methods: Map::empty(),
        pattern_impls: Map::empty(),
        symbol_values: Map::empty(),
        variables: Set::empty(),
        globals: Map::empty(),
    }
}

/// What is registered for a type; nothing where the type is not known.
pub open spec fn type_entry(rt: RuntimeModel, id: SymbolId) -> TypeEntryModel {
    if rt.types.contains_key(id) {
        rt.types[id]
    } else {
        bare_type()
    }
}

/// The registry after what is registered for a type has been replaced, and its
/// name made to stand for it.
pub open spec fn type_entered(
    rt: RuntimeModel,
    id: SymbolId,
    name: Seq<char>,
    entry: TypeEntryModel,
) -> RuntimeModel {
    RuntimeModel {
        type_ids: rt.type_ids.insert(name, id),
        types: rt.types.insert(id, entry),
        ..rt
    }
}

/// The position of the first implementation of an aspect, with the given type
/// arguments where they matter, or the number of implementations.
pub open spec fn impl_position(
    impls: Seq<AspectImplModel>,
    name: Seq<char>,
    args: Option<Seq<Seq<char>>>,
    i: int,
) -> int
    decreases impls.len() - i,
{
    if i < 0 || i >= impls.len() {
        impls.len() as int
    } else if impls[i].aspect_name == name && (args is Some ==> args->0 == impls[i].type_args) {
        i
    } else {
        impl_position(impls, name, args, i + 1)
    }
}

/// The implementations after a method has been added to that of an aspect: to the
/// one that is there, which may thereby learn its identity, or to a new one.
pub open spec fn impl_extended(
    impls: Seq<AspectImplModel>,
    name: Seq<char>,
    id: Option<SymbolId>,
    args: Option<Seq<Seq<char>>>,
    method: Seq<char>,
    m: MethodModel,
) -> Seq<AspectImplModel> {
    let i = impl_position(impls, name, args, 0);
    if 0 <= i < impls.len() {
        impls.update(
            i,
            AspectImplModel {
                aspect_id: if impls[i].aspect_id is Some {
                    impls[i].aspect_id
                } else {
                    id
                },
                methods: impls[i].methods.insert(method, m),
                ..impls[i]
            },
        )
    } else {
        impls.push(
            AspectImplModel {
                aspect_name: name,
                aspect_id: id,
                type_args: match args {
                    Some(args) => args,
                    None => Seq::empty(),
                },
                methods: Map::empty().insert(method, m),
            },
        )
    }
}

fn extend_impls(
    impls: &mut Vec<RuntimeAspectImpl>,
    name: &str,
    id: Option<SymbolId>,
    args: Option<Vec<String>>,
    method: String,
    value: RuntimeMethod,
)
    ensures
        final(impls).deep_view() == impl_extended(
            old(impls).deep_view(),
            name@,
            id,
            args.deep_view(),
            method@,
            value.deep_view(),
        ),
{
    let ghost before = impls.deep_view();
    let ghost wanted = args.deep_view();
    let ghost at = impl_position(before, name@, wanted, 0);
    let name = name.to_owned();
    let mut i: usize = 0;
    assert(before.len() == impls@.len());
    while i < impls.len()
        invariant
            i <= impls.len(),
            impls.deep_view() == before,
            before.len() == impls@.len(),
            wanted == args.deep_view(),
            at == impl_position(before, name@, wanted, i as int),
        ensures
            impls.deep_view() == before,
            before.len() == impls@.len(),
            i <= impls.len(),
            i as int == at,
            i < impls.len() ==> at == i,
        decreases impls.len() - i,
    {
        let matching = match &args {
            Some(args) => impls[i].type_args.same(args),
            None => true,
        };
        assert(before[i as int] == impls@[i as int].deep_view());
        if matching && impls[i].aspect_name.same(&name) {
            break;
        }
        i += 1;
    }
    if i < impls.len() {
        let mut found = impls[i].dup();
        if found.aspect_id.is_none() {
            found.aspect_id = id;
        }
        found.methods.insert(method, value);
        impls.set(i, found);
        proof {
            assert(impls.deep_view() =~= impl_extended(
                before,
                name@,
                id,
                wanted,
                method@,
                value.deep_view(),
            ));
        }
    } else {
        let mut methods: Table<String, RuntimeMethod> = Table::new();
        methods.insert(method, value);
        let type_args: Vec<String> = match args {
            Some(args) => args,
            None => Vec::new(),
        };
        proof {
            if wanted is None {
                assert(type_args.deep_view() =~= Seq::<Seq<char>>::empty());
            }
        }
        impls.push(RuntimeAspectImpl { aspect_name: name, aspect_id: id, type_args, methods });
        proof {
            assert(impls.deep_view() =~= impl_extended(
                before,
                name@,
                id,
                wanted,
                method@,
                value.deep_view(),
            ));
        }
    }
}

/// Which method of an implementation is asked for.
pub enum Wanted {
    /// One with a receiver, of a certain aspect.
    OfAspect(SymbolId),
    /// One with a receiver.
    WithReceiver,
    /// One without a receiver.
    WithoutReceiver,
    /// A conversion from the type with this key.
    ConversionFrom(String),
}

pub enum WantedModel {
    OfAspect(SymbolId),
    WithReceiver,
    WithoutReceiver,
    ConversionFrom(Seq<char>),
}

impl DeepView for Wanted {
    type V = WantedModel;

    open spec fn deep_view(&self) -> WantedModel {
        match self {
            Wanted::OfAspect(id) => WantedModel::OfAspect(*id),
            Wanted::WithReceiver => WantedModel::WithReceiver,
            Wanted::WithoutReceiver => WantedModel::WithoutReceiver,
            Wanted::ConversionFrom(source) => WantedModel::ConversionFrom(source@),
        }
    }
}

/// A method if it has a receiver.
pub open spec fn with_receiver(m: Option<MethodModel>) -> Option<MethodModel> {
    match m {
        Some(m) => if m.receiver is Some {
            Some(m)
        } else {
            None
        },
        None => None,
    }
}

/// A method if it has no receiver.
pub open spec fn without_receiver(m: Option<MethodModel>) -> Option<MethodModel> {
    match m {
        Some(m) => if m.receiver is None {
            Some(m)
        } else {
            None
        },
        None => None,
    }
}

/// The method of an implementation that is asked for, if it has it.
pub open spec fn offered(imp: AspectImplModel, wanted: WantedModel, name: Seq<char>) -> Option<
    MethodModel,
> {
    match wanted {
        WantedModel::OfAspect(id) => if imp.aspect_id == Some(id) {
            with_receiver(imp.methods.get(name))
        } else {
            None
        },
        WantedModel::WithReceiver => with_receiver(imp.methods.get(name)),
        WantedModel::WithoutReceiver => without_receiver(imp.methods.get(name)),
        WantedModel::ConversionFrom(source) => if imp.aspect_name == "From"@ && imp.type_args
            == seq![source] {
            imp.methods.get(name)
        } else {
            None
        },
    }
}

/// What is asked for from the first `n` implementations: the last that has it
/// gives it.
pub open spec fn latest_offered(
    impls: Seq<AspectImplModel>,
    wanted: WantedModel,
    name: Seq<char>,
    n: int,
) -> Option<MethodModel>
    decreases n,
{
    if n <= 0 || n > impls.len() {
        None
    } else if offered(impls[n - 1], wanted, name) is Some {
        offered(impls[n - 1], wanted, name)
    } else {
        latest_offered(impls, wanted, name, n - 1)
    }
}

/// What is asked for from implementations: the last that has it gives it.
pub open spec fn from_impls(
    impls: Seq<AspectImplModel>,
    wanted: WantedModel,
    name: Seq<char>,
) -> Option<MethodModel> {
    latest_offered(impls, wanted, name, impls.len() as int)
}

fn keep_with_receiver(m: Option<&RuntimeMethod>) -> (r: Option<RuntimeMethod>)
    ensures
        r.deep_view() == with_receiver(m.deep_view()),
{
    match m {
        Some(m) => if m.receiver.is_some() {
            Some(m.dup())
        } else {
            None
        },
        None => None,
    }
}

fn keep_without_receiver(m: Option<&RuntimeMethod>) -> (r: Option<RuntimeMethod>)
    ensures
        r.deep_view() == without_receiver(m.deep_view()),
{
    match m {
        Some(m) => if m.receiver.is_none() {
            Some(m.dup())
        } else {
            None
        },
        None => None,
    }
}

fn offer(imp: &RuntimeAspectImpl, wanted: &Wanted, name: &String) -> (r: Option<RuntimeMethod>)
    ensures
        r.deep_view() == offered(imp.deep_view(), wanted.deep_view(), name@),
{
    let found = imp.methods.get(name);
    match wanted {
        Wanted::OfAspect(id) => match imp.aspect_id {
            Some(have) => if have.same(id) {
                keep_with_receiver(found)
            } else {
                None
            },
            None => None,
        },
        Wanted::WithReceiver => keep_with_receiver(found),
        Wanted::WithoutReceiver => keep_without_receiver(found),
        Wanted::ConversionFrom(source) => {
            let from = "From".to_owned();
            assert(imp.type_args.deep_view().len() == imp.type_args@.len());
            if imp.aspect_name.same(&from) && imp.type_args.len() == 1 && imp.type_args[0].same(
                source,
            ) {
                assert(imp.type_args.deep_view() =~= seq![source@]);
                match found {
                    Some(m) => Some(m.dup()),
                    None => None,
                }
            } else {
                proof {
                    let have = imp.type_args.deep_view();
                    if have == seq![source@] {
                        assert(have[0] == imp.type_args@[0]@);
                    }
                }
                None
            }
        },
    }
}

fn latest_offer(impls: &Vec<RuntimeAspectImpl>, wanted: &Wanted, name: &String) -> (r: Option<
    RuntimeMethod,
>)
    ensures
        r.deep_view() == from_impls(impls.deep_view(), wanted.deep_view(), name@),
{
    let ghost all = impls.deep_view();
    assert(all.len() == impls@.len());
    let mut n: usize = impls.len();
    while n > 0
        invariant
            n <= impls.len(),
            all == impls.deep_view(),
            all.len() == impls@.len(),
            from_impls(all, wanted.deep_view(), name@) == latest_offered(
                all,
                wanted.deep_view(),
                name@,
                n as int,
            ),
        decreases n,
    {
        assert(all[n - 1] == impls@[n - 1].deep_view());
        match offer(&impls[n - 1], wanted, name) {
            Some(m) => {
                return Some(m);
            },
            None => {},
        }
        n -= 1;
    }
    None
}

/// The identity that a type name stands for.
pub open spec fn id_for_name(rt: RuntimeModel, name: Seq<char>) -> Option<SymbolId> {
    rt.type_ids.get(name)
}

/// A method with a receiver that a type has of its own.
pub open spec fn own_method(rt: RuntimeModel, id: SymbolId, name: Seq<char>) -> Option<
    MethodModel,
> {
    with_receiver(type_entry(rt, id).methods.get(name))
}

/// A method with a receiver: the type's own, or else one that an aspect gives it.
pub open spec fn regular_method(rt: RuntimeModel, id: SymbolId, name: Seq<char>) -> Option<
    MethodModel,
> {
    match own_method(rt, id, name) {
        Some(m) => Some(m),
        None => from_impls(type_entry(rt, id).impls, WantedModel::WithReceiver, name),
    }
}

/// The identity of the type of a value.
pub open spec fn type_id_of(rt: RuntimeModel, v: ValueTerm) -> Option<SymbolId> {
    match v.head {
        ValueHead::Struct(name, Some(id), _) => Some(id),
        ValueHead::Enum(name, Some(id), _, _, _) => Some(id),
        ValueHead::Dyn(_, id, _, _, _) => Some(id),
        _ => match crate::runtime_types::named_type_of(v) {
            Some(name) => id_for_name(rt, name),
            None => None,
        },
    }
}

/// A method that is found by the shape of a value.
pub open spec fn method_by_pattern(rt: RuntimeModel, v: ValueTerm, name: Seq<char>) -> Option<
    MethodModel,
> {
    match crate::runtime_types::pattern_of(v) {
        Some(p) => with_receiver(crate::table::map_at(rt.pattern_methods, p).get(name)),
        None => None,
    }
}

/// The method that a value has under a name.
pub open spec fn method_of(rt: RuntimeModel, v: ValueTerm, name: Seq<char>) -> Option<
    MethodModel,
> {
    let by_type = match type_id_of(rt, v) {
        Some(id) => regular_method(rt, id, name),
        None => None,
    };
    if by_type is Some {
        by_type
    } else {
        method_by_pattern(rt, v, name)
    }
}

/// A value that belongs to a type.
pub open spec fn type_value(rt: RuntimeModel, named: Seq<char>, name: Seq<char>) -> Option<
    ValueTerm,
> {
    match id_for_name(rt, named) {
        Some(id) => {
            let entry = type_entry(rt, id);
            let found = if entry.values.contains_key(name) {
                Some(entry.values[name])
            } else {
                from_impls(entry.impls, WantedModel::WithoutReceiver, name)
            };
            match found {
                Some(m) => Some(crate::values::plain(ValueHead::Callable(m.body))),
                None => None,
            }
        },
        None => None,
    }
}

/// The conversion to a type from another one.
pub open spec fn conversion(rt: RuntimeModel, target: Seq<char>, source: Seq<char>) -> Option<
    MethodModel,
> {
    match id_for_name(rt, target) {
        Some(id) => {
            let entry = type_entry(rt, id);
            let by_aspect = from_impls(entry.impls, WantedModel::ConversionFrom(source), "from"@);
            if by_aspect is Some {
                by_aspect
            } else if entry.values.contains_key("from"@) {
                Some(entry.values["from"@])
            } else {
                without_receiver(entry.methods.get("from"@))
            }
        },
        None => None,
    }
}

/// What a module exports under a name: one of its values, or a value of a type,
/// as `Type::value`.
pub open spec fn module_export(rt: RuntimeModel, module: Seq<Seq<char>>, name: Seq<char>) -> Option<
    ValueTerm,
> {
    let own = crate::table::map_at(rt.modules, module);
    if own.contains_key(name) {
        Some(own[name])
    } else {
        let parts = crate::paths::segments(name, 0);
        if parts.len() == 2 {
            type_value(rt, parts[0], parts[1])
        } else {
            None
        }
    }
}

/// What a path stands for: a value of a type as `Type::value`, or what a module
/// exports, the module being the first two segments.
pub open spec fn path_value(rt: RuntimeModel, path: Seq<Seq<char>>) -> Option<ValueTerm> {
    if path.len() >= 3 {
        module_export(rt, path.take(2), crate::text::joined(path.skip(2), "::"@))
    } else if path.len() == 2 {
        type_value(rt, path[0], path[1])
    } else {
        None
    }
}

impl RuntimeRegistry {
    pub fn new() -> (r: Self)
        ensures
            r@ == empty_runtime(),
    {
        RuntimeRegistry {
            modules: Table::new(),
            types: Table::new(),
            type_ids: Table::new(),
            pattern_methods: Table::new(),
            pattern_aspect_methods: Table::new(),
            symbol_values: Table::new(),
            let_mut_def_ids: KeySet::new(),
            global_value_slots: Table::new(),
        }
    }

    pub fn register_symbol_value(&mut self, id: SymbolId, value: Value)
        ensures
            final(self)@ == (RuntimeModel {
                symbol_values: old(self)@.symbol_values.insert(id, value@),
                ..old(self)@
            }),
    {
        self.symbol_values.insert(id, value);
    }

    pub fn get_symbol_value(&self, id: SymbolId) -> (r: Option<&Value>)
        ensures
            r.deep_view() == self@.symbol_values.get(id),
    {
        self.symbol_values.get(&id)
    }

    /// Says that an identity is that of a module-level variable.
    pub fn mark_let_mut_def_id(&mut self, id: SymbolId)
        ensures
            final(self)@ == (RuntimeModel {
                variables: old(self)@.variables.insert(id),
                ..old(self)@
            }),
    {
        self.let_mut_def_ids.insert(id);
    }

    pub fn is_let_mut_def_id(&self, id: SymbolId) -> (b: bool)
        ensures
            b == self@.variables.contains(id),
    {
        self.let_mut_def_ids.contains(&id)
    }

    /// Makes the cell of a module-level variable known.
    pub fn register_global_slot(&mut self, id: SymbolId, cell: CellId)
        ensures
            final(self)@ == (RuntimeModel {
                globals: old(self)@.globals.insert(id, cell),
                ..old(self)@
            }),
    {
        self.global_value_slots.insert(id, cell);
    }

    /// The cell of a module-level variable whose declaration has run.
    pub fn global_slot(&self, id: SymbolId) -> (r: Option<CellId>)
        ensures
            r == self@.globals.get(id),
    {
        match self.global_value_slots.get(&id) {
            Some(cell) => Some(*cell),
            None => None,
        }
    }

    pub fn register_module_value(&mut self, module: Vec<String>, name: &str, value: Value)
        ensures
            final(self)@ == (RuntimeModel {
                modules: old(self)@.modules.insert(
                    module.deep_view(),
                    crate::table::map_at(old(self)@.modules, module.deep_view()).insert(
                        name@,
                        value@,
                    ),
                ),
                ..old(self)@
            }),
    {
        let ghost m = self@.modules;
        let mut entry = match self.modules.remove(&module) {
            Some(entry) => entry,
            None => RuntimeModuleEntry { values: Table::new() },
        };
        entry.values.insert(name.to_owned(), value);
        let ghost key = module.deep_view();
        let ghost held = entry.deep_view();
        self.modules.insert(module, entry);
        proof {
            assert(self@.modules =~= m.insert(key, held));
        }
    }

    pub fn register_std_core_value(&mut self, name: &str, value: Value)
        ensures
            final(self)@ == (RuntimeModel {
                modules: old(self)@.modules.insert(
                    seq!["std"@, "core"@],
                    crate::table::map_at(old(self)@.modules, seq!["std"@, "core"@]).insert(
                        name@,
                        value@,
                    ),
                ),
                ..old(self)@
            }),
    {
        let path = std_core_path();
        self.register_module_value(path, name, value);
    }

    /// Takes what is registered for a type out, to be put back changed.
    fn take_type(&mut self, id: SymbolId, name: &str) -> (r: RuntimeTypeEntry)
        ensures
            r.deep_view() == type_entry(old(self)@, id),
            final(self)@ == (RuntimeModel {
                type_ids: old(self)@.type_ids.insert(name@, id),
                types: old(self)@.types.remove(id),
                ..old(self)@
            }),
    {
        self.type_ids.insert(name.to_owned(), id);
        let ghost m = self.types@;
        match self.types.remove(&id) {
            Some(entry) => entry,
            None => {
                proof {
                    assert(self.types@ =~= m.remove(id));
                }
                RuntimeTypeEntry::bare()
            },
        }
    }

    fn put_type(&mut self, id: SymbolId, entry: RuntimeTypeEntry)
        ensures
            final(self)@ == (RuntimeModel {
                types: old(self)@.types.insert(id, entry.deep_view()),
                ..old(self)@
            }),
    {
        self.types.insert(id, entry);
    }

    /// The identity that a type name stands for.
    pub fn type_id_for_name(&self, named: &str) -> (r: Option<SymbolId>)
        ensures
            r == id_for_name(self@, named@),
    {
        let key = named.to_owned();
        match self.type_ids.get(&key) {
            Some(id) => Some(*id),
            None => None,
        }
    }

    pub fn register_type_value(
        &mut self,
        type_id: SymbolId,
        named: &str,
        name: &str,
        value: RuntimeMethod,
    )
        ensures
            final(self)@ == type_entered(
                old(self)@,
                type_id,
                named@,
                (TypeEntryModel {
                    values: type_entry(old(self)@, type_id).values.insert(name@, value.deep_view()),
                    ..type_entry(old(self)@, type_id)
                }),
            ),
    {
        let ghost m = self@.types;
        let mut entry = self.take_type(type_id, named);
        entry.associated_values.insert(name.to_owned(), value);
        let ghost held = entry.deep_view();
        self.put_type(type_id, entry);
        proof {
            assert(self@.types =~= m.insert(type_id, held));
        }
    }

    pub fn register_inherent_method(
        &mut self,
        type_id: SymbolId,
        named: &str,
        method_name: &str,
        value: RuntimeMethod,
    )
        ensures
            final(self)@ == type_entered(
                old(self)@,
                type_id,
                named@,
                (TypeEntryModel {
                    methods: type_entry(old(self)@, type_id).methods.insert(
                        method_name@,
                        value.deep_view(),
                    ),
                    ..type_entry(old(self)@, type_id)
                }),
            ),
    {
        let ghost m = self@.types;
        let mut entry = self.take_type(type_id, named);
        entry.inherent_methods.insert(method_name.to_owned(), value);
        let ghost held = entry.deep_view();
        self.put_type(type_id, entry);
        proof {
            assert(self@.types =~= m.insert(type_id, held));
        }
    }

    pub fn register_aspect_method(
        &mut self,
        type_id: SymbolId,
        named: &str,
        aspect_name: &str,
        aspect_id: Option<SymbolId>,
        type_args: Vec<String>,
        method_name: &str,
        value: RuntimeMethod,
    )
        ensures
            final(self)@ == type_entered(
                old(self)@,
                type_id,
                named@,
                (TypeEntryModel {
                    impls: impl_extended(
                        type_entry(old(self)@, type_id).impls,
                        aspect_name@,
                        aspect_id,
                        Some(type_args.deep_view()),
                        method_name@,
                        value.deep_view(),
                    ),
                    ..type_entry(old(self)@, type_id)
                }),
            ),
    {
        let ghost m = self@.types;
        let mut entry = self.take_type(type_id, named);
        extend_impls(
            &mut entry.aspect_impls,
            aspect_name,
            aspect_id,
            Some(type_args),
            method_name.to_owned(),
            value,
        );
        let ghost held = entry.deep_view();
        self.put_type(type_id, entry);
        proof {
            assert(self@.types =~= m.insert(type_id, held));
        }
    }

    /// A method that a certain aspect gives a type.
    pub fn get_aspect_method_by_id(
        &self,
        type_id: SymbolId,
        aspect_id: SymbolId,
        method_name: &str,
    ) -> (r: Option<RuntimeMethod>)
        ensures
            r.deep_view() == from_impls(
                type_entry(self@, type_id).impls,
                WantedModel::OfAspect(aspect_id),
                method_name@,
            ),
    {
        match self.types.get(&type_id) {
            Some(entry) => latest_offer(
                &entry.aspect_impls,
                &Wanted::OfAspect(aspect_id),
                &method_name.to_owned(),
            ),
            None => None,
        }
    }

    pub fn register_pattern_method(
        &mut self,
        pattern: RuntimeTypePattern,
        method_name: &str,
        value: RuntimeMethod,
    )
        ensures
            final(self)@ == (RuntimeModel {
                pattern_methods: old(self)@.pattern_methods.insert(
                    pattern.deep_view(),
                    crate::table::map_at(old(self)@.pattern_methods, pattern.deep_view()).insert(
                        method_name@,
                        value.deep_view(),
                    ),
                ),
                ..old(self)@
            }),
    {
        self.pattern_methods.insert_at(pattern, method_name.to_owned(), value);
    }

    pub fn register_pattern_aspect_method(
        &mut self,
        pattern: RuntimeTypePattern,
        aspect_name: &str,
        aspect_id: Option<SymbolId>,
        method_name: &str,
        value: RuntimeMethod,
    )
        ensures
            final(self)@ == (RuntimeModel {
                pattern_impls: old(self)@.pattern_impls.insert(
                    pattern.deep_view(),
                    impl_extended(
                        crate::table::list_at(old(self)@.pattern_impls, pattern.deep_view()),
                        aspect_name@,
                        aspect_id,
                        None,
                        method_name@,
                        value.deep_view(),
                    ),
                ),
                ..old(self)@
            }),
    {
        let ghost m = self@.pattern_impls;
        let ghost key = pattern.deep_view();
        let mut impls = match self.pattern_aspect_methods.remove(&pattern) {
            Some(impls) => impls,
            None => {
                let none: Vec<RuntimeAspectImpl> = Vec::new();
                assert(none.deep_view() =~= Seq::empty());
                none
            },
        };
        extend_impls(&mut impls, aspect_name, aspect_id, None, method_name.to_owned(), value);
        let ghost held = impls.deep_view();
        self.pattern_aspect_methods.insert(pattern, impls);
        proof {
            assert(self@.pattern_impls =~= m.insert(key, held));
        }
    }

    /// A method that a certain aspect gives the values of a shape.
    pub fn get_pattern_aspect_method_by_id(
        &self,
        pattern: &RuntimeTypePattern,
        aspect_id: SymbolId,
        method_name: &str,
    ) -> (r: Option<RuntimeMethod>)
        ensures
            r.deep_view() == from_impls(
                crate::table::list_at(self@.pattern_impls, pattern.deep_view()),
                WantedModel::OfAspect(aspect_id),
                method_name@,
            ),
    {
        match self.pattern_aspect_methods.get(pattern) {
            Some(impls) => latest_offer(
                impls,
                &Wanted::OfAspect(aspect_id),
                &method_name.to_owned(),
            ),
            None => None,
        }
    }

    pub fn get_module_value(&self, module: &Vec<String>, name: &str) -> (r: Option<Value>)
        ensures
            r.deep_view() == crate::table::map_at(self@.modules, module.deep_view()).get(
                name@,
            ),
    {
        match self.modules.get(module) {
            Some(entry) => match entry.values.get(&name.to_owned()) {
                Some(v) => Some(v.dup()),
                None => None,
            },
            None => None,
        }
    }

    /// A value that belongs to a type.
    pub fn get_type_value(&self, named: &str, name: &str) -> (r: Option<Value>)
        ensures
            r.deep_view() == type_value(self@, named@, name@),
    {
        let id = match self.type_id_for_name(named) {
            Some(id) => id,
            None => {
                return None;
            },
        };
        let name = name.to_owned();
        match self.types.get(&id) {
            Some(entry) => {
                let found = match entry.associated_values.get(&name) {
                    Some(m) => Some(m.dup()),
                    None => latest_offer(&entry.aspect_impls, &Wanted::WithoutReceiver, &name),
                };
                match found {
                    Some(m) => Some(Value::Callable(m.body)),
                    None => None,
                }
            },
            None => None,
        }
    }

    /// A method with a receiver that a type has of its own.
    pub fn get_inherent_method(&self, type_id: SymbolId, method_name: &str) -> (r: Option<
        RuntimeMethod,
    >)
        ensures
            r.deep_view() == own_method(self@, type_id, method_name@),
    {
        match self.types.get(&type_id) {
            Some(entry) => keep_with_receiver(entry.inherent_methods.get(&method_name.to_owned())),
            None => None,
        }
    }

    /// A method with a receiver: the type's own, or else one that an aspect gives it.
    pub fn get_regular_method(&self, type_id: SymbolId, method_name: &str) -> (r: Option<
        RuntimeMethod,
    >)
        ensures
            r.deep_view() == regular_method(self@, type_id, method_name@),
    {
        match self.get_inherent_method(type_id, method_name) {
            Some(m) => Some(m),
            None => match self.types.get(&type_id) {
                Some(entry) => latest_offer(
                    &entry.aspect_impls,
                    &Wanted::WithReceiver,
                    &method_name.to_owned(),
                ),
                None => None,
            },
        }
    }

    /// The identity of the type of a value.
    pub fn resolve_value_type_id(&self, value: &Value) -> (r: Option<SymbolId>)
        ensures
            r == type_id_of(self@, value@),
    {
        match value {
            Value::Struct { name: _, type_id: Some(id), fields: _ } => Some(*id),
            Value::Enum {
                name: _,
                type_id: Some(id),
                variant: _,
                variant_id: _,
                fields: _,
            } => Some(
                *id,
            ),
            Value::DynAspect {
                data: _,
                type_id,
                aspect_id: _,
                aspect_name: _,
                type_args: _,
            } => Some(
                *type_id,
            ),
            _ => match runtime_type_name(value) {
                Some(name) => self.type_id_for_name(name),
                None => None,
            },
        }
    }

    /// The method that a value has under a name.
    pub fn get_method_for_value(&self, value: &Value, method_name: &str) -> (r: Option<
        RuntimeMethod,
    >)
        ensures
            r.deep_view() == method_of(self@, value@, method_name@),
    {
        match self.resolve_value_type_id(value) {
            Some(id) => match self.get_regular_method(id, method_name) {
                Some(m) => {
                    return Some(m);
                },
                None => {},
            },
            None => {},
        }
        match runtime_type_pattern(value) {
            Some(pattern) => match self.pattern_methods.get(&pattern) {
                Some(methods) => keep_with_receiver(methods.get(&method_name.to_owned())),
                None => None,
            },
            None => None,
        }
    }

    /// The conversion to a type from another one.
    pub fn get_from_method(&self, target: &str, source: &str) -> (r: Option<RuntimeMethod>)
        ensures
            r.deep_view() == conversion(self@, target@, source@),
    {
        let id = match self.type_id_for_name(target) {
            Some(id) => id,
            None => {
                return None;
            },
        };
        let name = "from".to_owned();
        match self.types.get(&id) {
            Some(entry) => {
                let wanted = Wanted::ConversionFrom(source.to_owned());
                match latest_offer(&entry.aspect_impls, &wanted, &name) {
                    Some(m) => Some(m),
                    None => match entry.associated_values.get(&name) {
                        Some(m) => Some(m.dup()),
                        None => keep_without_receiver(entry.inherent_methods.get(&name)),
                    },
                }
            },
            None => None,
        }
    }

    /// What a module exports under a name.
    pub fn resolve_module_export(&self, module: &Vec<String>, local_name: &str) -> (r: Option<
        Value,
    >)
        ensures
            r.deep_view() == module_export(self@, module.deep_view(), local_name@),
    {
        match self.get_module_value(module, local_name) {
            Some(v) => Some(v),
            None => {
                let parts = split_segments(local_name);
                assert(parts.deep_view().len() == parts@.len());
                if parts.len() == 2 {
                    self.get_type_value(parts[0].as_str(), parts[1].as_str())
                } else {
                    None
                }
            },
        }
    }

    /// What a path stands for.
    pub fn resolve_path_value(&self, segments: &Vec<String>) -> (r: Option<Value>)
        ensures
            r.deep_view() == path_value(self@, segments.deep_view()),
    {
        let ghost path = segments.deep_view();
        assert(path.len() == segments@.len());
        if segments.len() >= 3 {
            let mut module: Vec<String> = Vec::new();
            module.push(segments[0].clone());
            module.push(segments[1].clone());
            let mut rest: Vec<String> = Vec::new();
            let mut i: usize = 2;
            while i < segments.len()
                invariant
                    2 <= i <= segments.len(),
                    rest@.len() == i - 2,
                    forall|j: int|
                        0 <= j < rest@.len() ==> (#[trigger] rest@[j])@ == segments@[j + 2]@,
                decreases segments.len() - i,
            {
                rest.push(segments[i].clone());
                i += 1;
            }
            proof {
                assert(module.deep_view() =~= path.take(2));
                assert(rest.deep_view() =~= path.skip(2));
            }
            let local_name = join(&rest, "::");
            return self.resolve_module_export(&module, local_name.as_str());
        }
        if segments.len() == 2 {
            return self.get_type_value(segments[0].as_str(), segments[1].as_str());
        }
        None
    }
}

/// The path of the module whose names are known everywhere.
pub fn std_core_path() -> (r: Vec<String>)
    ensures
        r.deep_view() == seq!["std"@, "core"@],
{
    let mut path: Vec<String> = Vec::new();
    path.push("std".to_owned());
    path.push("core".to_owned());
    proof {
        assert(path.deep_view() =~= seq!["std"@, "core"@]);
    }
    path
}

/// A name that is known everywhere.
pub open spec fn core_value(rt: RuntimeModel, name: Seq<char>) -> Option<ValueTerm> {
    crate::table::map_at(rt.modules, seq!["std"@, "core"@]).get(name)
}

/// A name that is known everywhere.
pub fn std_core_lookup(name: &str, runtime: &RuntimeRegistry) -> (r: Option<Value>)
    ensures
        r.deep_view() == core_value(runtime@, name@),
{
    let path = std_core_path();
    runtime.get_module_value(&path, name)
}

} // verus!
