//! Which declaration a name means in a module.

use crate::data::{Dup, Same};
use crate::definitions::{BindingKind, BindingModel, FieldEntry, GlobTier, ImportBinding};
use crate::paths::split_qualified_type_name;
use crate::registry::{RegistryModel, TypeDefinitionRegistry};
use crate::symbols::SymbolId;
use crate::table::Table;
use vstd::prelude::*;
use vstd::string::*;

verus! {

/// The declaration that a module provides under a name: its own, or one that
/// it passes on.
pub open spec fn provided(
    reg: RegistryModel,
    module: Seq<Seq<char>>,
    name: Seq<char>,
) -> Option<SymbolId> {
    if reg.symbols.contains_key((module, name)) {
        Some(reg.symbols[(module, name)])
    } else if reg.scopes.contains_key(module) && reg.scopes[module].re_exports.contains_key(
        name,
    ) {
        Some(reg.scopes[module].re_exports[name].symbol_id)
    } else {
        None
    }
}

/// The first import, from position `i` on, with a local name.
pub open spec fn import_named(
    imports: Seq<(Seq<char>, BindingModel)>,
    local: Seq<char>,
    i: int,
) -> Option<BindingModel>
    decreases imports.len() - i,
{
    if i < 0 || i >= imports.len() {
        None
    } else if imports[i].0 == local {
        Some(imports[i].1)
    } else {
        import_named(imports, local, i + 1)
    }
}

/// The first import, from position `i` on, of a name of another module.
pub open spec fn import_of(
    imports: Seq<(Seq<char>, BindingModel)>,
    source: Seq<char>,
    i: int,
) -> Option<BindingModel>
    decreases imports.len() - i,
{
    if i < 0 || i >= imports.len() {
        None
    } else if imports[i].1.source_name == source {
        Some(imports[i].1)
    } else {
        import_of(imports, source, i + 1)
    }
}

/// What the first glob import of a tier, from position `i` on, that provides a
/// name provides.
pub open spec fn glob_provided(
    reg: RegistryModel,
    globs: Seq<(GlobTier, Seq<Seq<char>>)>,
    tier: GlobTier,
    name: Seq<char>,
    i: int,
) -> Option<SymbolId>
    decreases globs.len() - i,
{
    if i < 0 || i >= globs.len() {
        None
    } else if globs[i].0 == tier && provided(reg, globs[i].1, name) is Some {
        provided(reg, globs[i].1, name)
    } else {
        glob_provided(reg, globs, tier, name, i + 1)
    }
}

/// Whether a path segment is a keyword for a place in the module tree.
pub open spec fn reserved(segment: Seq<char>) -> bool {
    segment == "root"@ || segment == "self"@ || segment == "super"@
}

/// The declaration that a name in a type position means in a module: a
/// declaration of the module, then an explicit import, then the globs, names
/// of the program before those of the standard library; then, for a qualified
/// name, what its module provides. A keyword in front stands for any module:
/// it means the import of that name, or the name on its own.
pub open spec fn resolved(
    reg: RegistryModel,
    module: Seq<Seq<char>>,
    name: Seq<char>,
) -> Option<SymbolId>
    decreases name.len(),
{
    if reg.symbols.contains_key((module, name)) {
        Some(reg.symbols[(module, name)])
    } else if !reg.scopes.contains_key(module) {
        None
    } else {
        let scope = reg.scopes[module];
        if import_named(scope.explicit, name, 0) is Some {
            Some(import_named(scope.explicit, name, 0)->Some_0.symbol_id)
        } else if glob_provided(reg, scope.globs, GlobTier::User, name, 0) is Some {
            glob_provided(reg, scope.globs, GlobTier::User, name, 0)
        } else if glob_provided(reg, scope.globs, GlobTier::Std, name, 0) is Some {
            glob_provided(reg, scope.globs, GlobTier::Std, name, 0)
        } else {
            match crate::paths::split_name(name) {
                None => None,
                Some((prefix, short)) => if reserved(prefix[0]) {
                    match import_of(scope.explicit, short, 0) {
                        Some(b) => Some(b.symbol_id),
                        None => if short.len() < name.len() {
                            resolved(reg, module, short)
                        } else {
                            None
                        },
                    }
                } else {
                    match import_named(scope.explicit, prefix[0], 0) {
                        Some(b) => if b.kind == BindingKind::Module {
                            provided(reg, b.source_module + prefix.skip(1), short)
                        } else {
                            None
                        },
                        None => None,
                    }
                },
            }
        }
    }
}

/// The declaration that a name means, block-local ones included.
pub open spec fn type_key(
    reg: RegistryModel,
    module: Seq<Seq<char>>,
    name: Seq<char>,
) -> Option<SymbolId> {
    match resolved(reg, module, name) {
        Some(id) => Some(id),
        None => reg.local_type_decl_ids.get(name),
    }
}

/// The declaration that a name means, or else any declaration of that name.
pub open spec fn type_key_broad(
    reg: RegistryModel,
    module: Seq<Seq<char>>,
    name: Seq<char>,
) -> Option<SymbolId> {
    match type_key(reg, module, name) {
        Some(id) => Some(id),
        None => reg.type_decl_ids.get(name),
    }
}

/// A module path of its own.
pub fn path_of(module: &[String]) -> (r: Vec<String>)
    ensures
        r.deep_view() == module.deep_view(),
{
    let mut out: Vec<String> = Vec::new();
    let mut i: usize = 0;
    while i < module.len()
        invariant
            i <= module@.len(),
            out@.len() == i,
            forall|j: int| 0 <= j < i ==> (#[trigger] out@[j])@ == module@[j]@,
        decreases module@.len() - i,
    {
        out.push(module[i].clone());
        i += 1;
    }
    proof {
        assert(out.deep_view() =~= module.deep_view());
    }
    out
}

/// Whether a string is a given text.
pub fn is_text(s: &String, t: &str) -> (b: bool)
    ensures
        b == (s@ == t@),
{
    *s == t.to_owned()
}

fn find_import<'a>(imports: &'a Vec<(String, ImportBinding)>, local: &String) -> (r: Option<
    &'a ImportBinding,
>)
    ensures
        r.deep_view() == import_named(imports.deep_view(), local@, 0),
{
    let mut i: usize = 0;
    while i < imports.len()
        invariant
            i <= imports.len(),
            import_named(imports.deep_view(), local@, 0) == import_named(
                imports.deep_view(),
                local@,
                i as int,
            ),
        decreases imports.len() - i,
    {
        if imports[i].0 == *local {
            return Some(&imports[i].1);
        }
        i += 1;
    }
    None
}

fn find_import_of<'a>(imports: &'a Vec<(String, ImportBinding)>, source: &String) -> (r: Option<
    &'a ImportBinding,
>)
    ensures
        r.deep_view() == import_of(imports.deep_view(), source@, 0),
{
    let mut i: usize = 0;
    while i < imports.len()
        invariant
            i <= imports.len(),
            import_of(imports.deep_view(), source@, 0) == import_of(
                imports.deep_view(),
                source@,
                i as int,
            ),
        decreases imports.len() - i,
    {
        if imports[i].1.source_name == *source {
            return Some(&imports[i].1);
        }
        i += 1;
    }
    None
}

fn is_reserved(segment: &String) -> (b: bool)
    ensures
        b == reserved(segment@),
{
    is_text(segment, "root") || is_text(segment, "self") || is_text(segment, "super")
}

impl TypeDefinitionRegistry {
    /// The declaration that a module provides under a name.
    fn name_provided_by_module(&self, module: &Vec<String>, name: &String) -> (r: Option<SymbolId>)
        ensures
            r == provided(self@, module.deep_view(), name@),
    {
        let key = (module.dup(), name.clone());
        if let Some(id) = self.symbols.get(&key) {
            return Some(*id);
        }
        match self.scopes.get(module) {
            Some(scope) => match scope.re_exports.get(name) {
                Some(binding) => Some(binding.symbol_id),
                None => None,
            },
            None => None,
        }
    }

    fn find_glob(&self, globs: &Vec<(GlobTier, Vec<String>)>, tier: GlobTier, name: &String) -> (r:
        Option<SymbolId>)
        ensures
            r == glob_provided(self@, globs.deep_view(), tier, name@, 0),
    {
        let mut i: usize = 0;
        while i < globs.len()
            invariant
                i <= globs.len(),
                glob_provided(self@, globs.deep_view(), tier, name@, 0) == glob_provided(
                    self@,
                    globs.deep_view(),
                    tier,
                    name@,
                    i as int,
                ),
            decreases globs.len() - i,
        {
            if globs[i].0 == tier {
                let hit = self.name_provided_by_module(&globs[i].1, name);
                if hit.is_some() {
                    return hit;
                }
            }
            i += 1;
        }
        None
    }

    /// The declaration that a name in a type position means in a module.
    pub fn resolve_in(&self, module: &Vec<String>, name: &String) -> (r: Option<SymbolId>)
        ensures
            r == resolved(self@, module.deep_view(), name@),
        decreases name@.len(),
    {
        let key = (module.dup(), name.clone());
        if let Some(id) = self.symbols.get(&key) {
            return Some(*id);
        }
        let scope = match self.scopes.get(module) {
            Some(scope) => scope,
            None => {
                return None;
            },
        };
        if let Some(binding) = find_import(&scope.explicit, name) {
            return Some(binding.symbol_id);
        }
        let user = self.find_glob(&scope.globs, GlobTier::User, name);
        if user.is_some() {
            return user;
        }
        let std_hit = self.find_glob(&scope.globs, GlobTier::Std, name);
        if std_hit.is_some() {
            return std_hit;
        }
        // A qualified annotation can name an imported module handle. Resolve
        // that handle, then consult either the module's declarations or what
        // it passes on.
        let (prefix, short) = match split_qualified_type_name(name.as_str()) {
            Some(split) => split,
            None => {
                return None;
            },
        };
        if is_reserved(&prefix[0]) {
            return match find_import_of(&scope.explicit, &short) {
                Some(binding) => Some(binding.symbol_id),
                None => self.resolve_in(module, &short),
            };
        }
        match find_import(&scope.explicit, &prefix[0]) {
            Some(binding) => {
                if binding.kind == BindingKind::Module {
                    let mut path = binding.source_module.dup();
                    let mut i: usize = 1;
                    while i < prefix.len()
                        invariant
                            1 <= i <= prefix@.len(),
                            path.deep_view() == binding.source_module.deep_view()
                                + prefix.deep_view().subrange(1, i as int),
                        decreases prefix.len() - i,
                    {
                        let ghost before = path@;
                        assert(path.deep_view().len() == before.len());
                        let ghost prev = path.deep_view();
                        path.push(prefix[i].clone());
                        proof {
                            assert(path.deep_view() =~= prev.push(prefix@[i as int]@));
                            assert(path.deep_view() =~= binding.source_module.deep_view()
                                + prefix.deep_view().subrange(1, i as int + 1));
                        }
                        i += 1;
                    }
                    proof {
                        assert(prefix.deep_view().subrange(1, prefix@.len() as int)
                            =~= prefix.deep_view().skip(1));
                    }
                    self.name_provided_by_module(&path, &short)
                } else {
                    None
                }
            },
            None => None,
        }
    }

    /// Resolve a type-position name (an impl's target type or aspect name) to
    /// its declaring `SymbolId`, from `current_module`'s point of view. `None`
    /// if `name` isn't visible in `current_module` at all.
    pub fn resolve_type_position_id(&self, current_module: &[String], name: &str) -> (r: Option<
        SymbolId,
    >)
        ensures
            r == resolved(self@, current_module.deep_view(), name@),
    {
        self.resolve_in(&path_of(current_module), &name.to_owned())
    }

    /// The declaration that `name` means in `current_module`, block-local ones
    /// included.
    pub fn resolve_type_id(&self, current_module: &[String], name: &str) -> (r: Option<SymbolId>)
        ensures
            r == type_key(self@, current_module.deep_view(), name@),
    {
        match self.resolve_type_position_id(current_module, name) {
            Some(id) => Some(id),
            None => match self.local_type_decl_ids.get(&name.to_owned()) {
                Some(id) => Some(*id),
                None => None,
            },
        }
    }

    /// Like `resolve_type_id` but, as a last resort, accepts a bare declared
    /// name from any module.
    pub fn resolve_type_key_broad(&self, current_module: &[String], name: &str) -> (r: Option<
        SymbolId,
    >)
        ensures
            r == type_key_broad(self@, current_module.deep_view(), name@),
    {
        match self.resolve_type_id(current_module, name) {
            Some(id) => Some(id),
            None => self.type_id_for_decl_name(name),
        }
    }

    /// Resolve a bare declared name with no module context. The last
    /// declaration of that name wins.
    pub fn type_id_for_decl_name(&self, name: &str) -> (r: Option<SymbolId>)
        ensures
            r == self@.type_decl_ids.get(name@),
    {
        match self.type_decl_ids.get(&name.to_owned()) {
            Some(id) => Some(*id),
            None => None,
        }
    }

    /// Give this registry the global symbol table and import scopes it needs to
    /// resolve names.
    pub fn set_symbol_resolution(
        &mut self,
        symbols: Table<(Vec<String>, String), SymbolId>,
        scopes: Table<Vec<String>, crate::definitions::ModuleScope>,
    )
        ensures
            final(self)@ == (RegistryModel { symbols: symbols@, scopes: scopes@, ..old(self)@ }),
    {
        self.symbols = symbols;
        self.scopes = scopes;
    }

    /// The declared short name of a type registered under `id`.
    pub fn declared_type_name(&self, id: SymbolId) -> (r: Option<&str>)
        ensures
            r.deep_view() == self@.type_decl_names.get(id),
    {
        match self.type_decl_names.get(&id) {
            Some(name) => Some(name.as_str()),
            None => None,
        }
    }
}

/// The name that a type annotation's spelling stands for, where it is a
/// qualified name after a keyword, or an imported name.
pub open spec fn canonical(
    reg: RegistryModel,
    module: Seq<Seq<char>>,
    name: Seq<char>,
) -> Option<Seq<char>> {
    let split = crate::paths::split_name(name);
    if split is Some && reserved(split->Some_0.0[0]) {
        if reg.scopes.contains_key(module) {
            let short = split->Some_0.1;
            let id = match import_of(reg.scopes[module].explicit, short, 0) {
                Some(b) => Some(b.symbol_id),
                None => resolved(reg, module, short),
            };
            match id {
                Some(id) => if reg.type_decl_names.contains_key(id) {
                    Some(reg.type_decl_names[id])
                } else {
                    Some(short)
                },
                None => Some(short),
            }
        } else {
            None
        }
    } else if split is None && reg.scopes.contains_key(module) {
        match import_named(reg.scopes[module].explicit, name, 0) {
            Some(b) => if reg.type_decl_names.contains_key(b.symbol_id) {
                Some(reg.type_decl_names[b.symbol_id])
            } else {
                Some(b.source_name)
            },
            None => None,
        }
    } else {
        None
    }
}

/// What kind of type a name means.
#[derive(Debug, Clone, Copy, PartialEq, Eq, Structural)]
pub enum VisibleTypeKind {
    Struct,
    Enum,
}

/// The kind of type that a name means in a module.
pub open spec fn kind_of(
    reg: RegistryModel,
    module: Seq<Seq<char>>,
    name: Seq<char>,
) -> Option<VisibleTypeKind> {
    match type_key(reg, module, name) {
        None => None,
        Some(id) => if reg.struct_env.contains_key(id) {
            Some(VisibleTypeKind::Struct)
        } else if reg.enum_env.contains_key(id) {
            Some(VisibleTypeKind::Enum)
        } else {
            None
        },
    }
}

impl TypeDefinitionRegistry {
    /// Canonicalize a type-annotation name to the same spelling a constructor
    /// expression for that type resolves to. Covers a name after `root`,
    /// `self` or `super`, and an imported name; `None` for anything else, in
    /// which case the caller keeps the original spelling.
    pub fn canonicalize_type_name(&self, current_module: &[String], name: &str) -> (r: Option<
        String,
    >)
        ensures
            r.deep_view() == canonical(self@, current_module.deep_view(), name@),
    {
        let module = path_of(current_module);
        match split_qualified_type_name(name) {
            Some((prefix, short)) => {
                if !is_reserved(&prefix[0]) {
                    return None;
                }
                let scope = match self.scopes.get(&module) {
                    Some(scope) => scope,
                    None => {
                        return None;
                    },
                };
                let id = match find_import_of(&scope.explicit, &short) {
                    Some(binding) => Some(binding.symbol_id),
                    None => self.resolve_in(&module, &short),
                };
                match id {
                    Some(id) => match self.type_decl_names.get(&id) {
                        Some(declared) => Some(declared.clone()),
                        None => Some(short),
                    },
                    None => Some(short),
                }
            },
            None => {
                let scope = match self.scopes.get(&module) {
                    Some(scope) => scope,
                    None => {
                        return None;
                    },
                };
                match find_import(&scope.explicit, &name.to_owned()) {
                    Some(binding) => match self.type_decl_names.get(&binding.symbol_id) {
                        Some(declared) => Some(declared.clone()),
                        None => Some(binding.source_name.clone()),
                    },
                    None => None,
                }
            },
        }
    }

    pub fn visible_type_kind(&self, current_module: &[String], ty_name: &str) -> (r: Option<
        VisibleTypeKind,
    >)
        ensures
            r == kind_of(self@, current_module.deep_view(), ty_name@),
    {
        match self.resolve_type_id(current_module, ty_name) {
            Some(id) => {
                if self.struct_env.contains_key(&id) {
                    Some(VisibleTypeKind::Struct)
                } else if self.enum_env.contains_key(&id) {
                    Some(VisibleTypeKind::Enum)
                } else {
                    None
                }
            },
            None => None,
        }
    }

    /// The resolved `(SymbolId, declared name, fields)` of the struct a
    /// projection spelling names in `current_module`, or `None` if it does not
    /// resolve to a visible struct.
    pub fn projection_struct_fields(&self, current_module: &[String], ty_name: &str) -> (r:
        Option<(SymbolId, &str, &Vec<FieldEntry>)>)
        ensures
            match r {
                Some((id, name, fields)) => {
                    &&& type_key(self@, current_module.deep_view(), ty_name@) == Some(id)
                    &&& self@.struct_env.get(id) == Some(fields.deep_view())
                    &&& self@.type_decl_names.get(id) == Some(name@)
                },
                None => match type_key(self@, current_module.deep_view(), ty_name@) {
                    Some(id) => !self@.struct_env.contains_key(id)
                        || !self@.type_decl_names.contains_key(id),
                    None => true,
                },
            },
    {
        match self.resolve_type_id(current_module, ty_name) {
            Some(id) => match (self.type_decl_names.get(&id), self.struct_env.get(&id)) {
                (Some(name), Some(fields)) => Some((id, name.as_str(), fields)),
                _ => None,
            },
            None => None,
        }
    }

    /// The `SymbolId` of the enum `name` names in `current_module`, if it is a
    /// visible enum. `None` for a non-enum or unresolvable name.
    pub fn enum_id(&self, current_module: &[String], name: &str) -> (r: Option<SymbolId>)
        ensures
            r == (match type_key(self@, current_module.deep_view(), name@) {
                Some(id) => if self@.enum_env.contains_key(id) {
                    Some(id)
                } else {
                    None
                },
                None => None,
            }),
    {
        match self.resolve_type_id(current_module, name) {
            Some(id) => {
                if self.enum_env.contains_key(&id) {
                    Some(id)
                } else {
                    None
                }
            },
            None => None,
        }
    }
}

} // verus!
