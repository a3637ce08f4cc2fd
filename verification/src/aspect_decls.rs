//! Aspect declarations.

use crate::ast::{AspectMethod, AssocTypeDecl};
use crate::data::{Dup, Same};
use crate::definitions::{AspectEntry, AspectModel};
use crate::registry::{RegistryModel, TypeDefinitionRegistry};
use crate::resolve::path_of;
use crate::symbols::SymbolId;
use vstd::prelude::*;

verus! {

/// The position of the first entry, from `i` on, of a module, or the length.
pub open spec fn entry_of_module(
    entries: Seq<AspectModel>,
    module: Seq<Seq<char>>,
    i: int,
) -> int
    decreases entries.len() - i,
{
    if i < 0 || i >= entries.len() {
        entries.len() as int
    } else if entries[i].declaring_module == module {
        i
    } else {
        entry_of_module(entries, module, i + 1)
    }
}

/// The entries after one has been registered: it takes the place of an earlier
/// one of its module.
pub open spec fn with_aspect(entries: Seq<AspectModel>, entry: AspectModel) -> Seq<AspectModel> {
    let i = entry_of_module(entries, entry.declaring_module, 0);
    if i < entries.len() {
        entries.update(i, entry)
    } else {
        entries.push(entry)
    }
}

/// The position of the first entry, from `i` on, whose declaration has an
/// identity, or the length.
pub open spec fn entry_with_id(
    reg: RegistryModel,
    entries: Seq<AspectModel>,
    name: Seq<char>,
    id: SymbolId,
    i: int,
) -> int
    decreases entries.len() - i,
{
    if i < 0 || i >= entries.len() {
        entries.len() as int
    } else if reg.symbols.get((entries[i].declaring_module, name)) == Some(id) {
        i
    } else {
        entry_with_id(reg, entries, name, id, i + 1)
    }
}

/// The aspect of a name, where only one module declares one.
pub open spec fn sole_aspect(reg: RegistryModel, name: Seq<char>) -> Option<AspectModel> {
    let entries = crate::table::list_at(reg.aspects, name);
    if entries.len() == 1 {
        Some(entries[0])
    } else {
        None
    }
}

/// The aspect that a name means in a module: the module's own, or the only one,
/// or the one that the name resolves to.
pub open spec fn aspect_in(
    reg: RegistryModel,
    module: Seq<Seq<char>>,
    name: Seq<char>,
) -> Option<AspectModel> {
    let entries = crate::table::list_at(reg.aspects, name);
    let local = entry_of_module(entries, module, 0);
    if local < entries.len() {
        Some(entries[local])
    } else if entries.len() == 1 {
        Some(entries[0])
    } else {
        match crate::resolve::resolved(reg, module, name) {
            Some(id) => {
                let i = entry_with_id(reg, entries, name, id, 0);
                if i < entries.len() {
                    Some(entries[i])
                } else {
                    None
                }
            },
            None => None,
        }
    }
}

/// Whether some declaration of an identity has the name of an aspect.
pub open spec fn names_aspect(reg: RegistryModel, id: SymbolId) -> bool {
    exists|key: (Seq<Seq<char>>, Seq<char>)|
        #[trigger] reg.symbols.contains_key(key) && reg.symbols[key] == id
            && reg.aspects.contains_key(key.1)
}

/// Whether an aspect is visible in a module under a name. Without symbols every
/// aspect is.
pub open spec fn visible_aspect(
    reg: RegistryModel,
    module: Seq<Seq<char>>,
    name: Seq<char>,
) -> bool {
    if reg.symbols.dom() == Set::<(Seq<Seq<char>>, Seq<char>)>::empty() {
        reg.aspects.contains_key(name)
    } else {
        match crate::resolve::resolved(reg, module, name) {
            Some(id) => names_aspect(reg, id),
            None => false,
        }
    }
}

pub proof fn lemma_entry_of_module(
    entries: Seq<AspectModel>,
    module: Seq<Seq<char>>,
    i: int,
)
    requires
        0 <= i <= entries.len(),
    ensures
        i <= entry_of_module(entries, module, i) <= entries.len(),
        entry_of_module(entries, module, i) < entries.len() ==> entries[entry_of_module(
            entries,
            module,
            i,
        )].declaring_module == module,
    decreases entries.len() - i,
{
    if i < entries.len() && entries[i].declaring_module != module {
        lemma_entry_of_module(entries, module, i + 1);
    }
}

/// The position of a module's entry.
pub fn find_module(entries: &Vec<AspectEntry>, module: &Vec<String>) -> (r: Option<usize>)
    ensures
        match r {
            Some(i) => i < entries@.len() && entry_of_module(
                entries.deep_view(),
                module.deep_view(),
                0,
            ) == i,
            None => entry_of_module(entries.deep_view(), module.deep_view(), 0)
                == entries@.len(),
        },
{
    let mut i: usize = 0;
    while i < entries.len()
        invariant
            i <= entries.len(),
            entry_of_module(entries.deep_view(), module.deep_view(), 0) == entry_of_module(
                entries.deep_view(),
                module.deep_view(),
                i as int,
            ),
        decreases entries.len() - i,
    {
        if entries[i].declaring_module.same(module) {
            return Some(i);
        }
        i += 1;
    }
    None
}

impl TypeDefinitionRegistry {
    /// Record everything the registry knows about one aspect declaration.
    /// Re-registering the same name and module replaces the earlier entry; a
    /// different declaring module adds a sibling entry under the same name.
    pub fn register_aspect_decl(
        &mut self,
        name: String,
        declaring_module: Vec<String>,
        method_names: Vec<String>,
        generics: Vec<String>,
        method_defs: Vec<AspectMethod>,
        assoc_type_decls: Vec<AssocTypeDecl>,
    )
        ensures
            final(self)@ == (RegistryModel {
                aspects: old(self)@.aspects.insert(
                    name@,
                    with_aspect(
                        crate::table::list_at(old(self)@.aspects, name@),
                        AspectModel {
                            declaring_module: declaring_module.deep_view(),
                            method_names: method_names.deep_view(),
                            generics: generics.deep_view(),
                            method_defs: method_defs.deep_view(),
                            assoc_type_decls: assoc_type_decls.deep_view(),
                        },
                    ),
                ),
                ..old(self)@
            }),
    {
        let entry = AspectEntry {
            declaring_module,
            method_names,
            generics,
            method_defs,
            assoc_type_decls,
        };
        let ghost m = self.aspects@;
        let ghost ev = entry.deep_view();
        let mut entries = match self.aspects.remove(&name) {
            Some(entries) => entries,
            None => Vec::new(),
        };
        let ghost list = entries.deep_view();
        let ghost before = entries@;
        proof {
            assert(list =~= crate::table::list_at(m, name@));
            assert(list.len() == before.len());
        }
        match find_module(&entries, &entry.declaring_module) {
            Some(i) => {
                entries.set(i, entry);
                proof {
                    assert(entries.deep_view() =~= list.update(i as int, ev));
                }
            },
            None => {
                entries.push(entry);
                proof {
                    assert(entries.deep_view() =~= list.push(ev));
                }
            },
        }
        let ghost kv = name@;
        let ghost nv = entries.deep_view();
        self.aspects.insert(name, entries);
        proof {
            assert(self.aspects@ =~= m.insert(kv, nv));
        }
    }

    /// The one aspect entry for `name`, when exactly one module declares it.
    pub fn aspect_entry(&self, name: &str) -> (r: Option<&AspectEntry>)
        ensures
            r.deep_view() == sole_aspect(self@, name@),
    {
        match self.aspects.get(&name.to_owned()) {
            Some(entries) => {
                if entries.len() == 1 {
                    Some(&entries[0])
                } else {
                    None
                }
            },
            None => None,
        }
    }

    /// The aspect entry for `name` as seen from `current_module`:
    ///
    /// 1. a declaration in `current_module` itself wins;
    /// 2. otherwise the sole entry, where there is only one;
    /// 3. otherwise the one whose declaration the name resolves to.
    pub fn aspect_entry_in(&self, current_module: &[String], name: &str) -> (r: Option<
        &AspectEntry,
    >)
        ensures
            r.deep_view() == aspect_in(self@, current_module.deep_view(), name@),
    {
        let key = name.to_owned();
        let module = path_of(current_module);
        let entries = match self.aspects.get(&key) {
            Some(entries) => entries,
            None => {
                return None;
            },
        };
        if let Some(i) = find_module(entries, &module) {
            return Some(&entries[i]);
        }
        if entries.len() == 1 {
            return Some(&entries[0]);
        }
        let id = match self.resolve_in(&module, &key) {
            Some(id) => id,
            None => {
                return None;
            },
        };
        let ghost all = entries.deep_view();
        let mut i: usize = 0;
        while i < entries.len()
            invariant
                i <= entries.len(),
                all == entries.deep_view(),
                key@ == name@,
                entry_with_id(self@, all, name@, id, 0) == entry_with_id(
                    self@,
                    all,
                    name@,
                    id,
                    i as int,
                ),
                all == crate::table::list_at(self@.aspects, name@),
                all.len() != 1,
                entry_of_module(all, current_module.deep_view(), 0) == all.len(),
                crate::resolve::resolved(self@, current_module.deep_view(), name@) == Some(id),
            decreases entries.len() - i,
        {
            let found = match self.symbols.get(&(entries[i].declaring_module.dup(), key.clone())) {
                Some(found) => found.0 == id.0,
                None => false,
            };
            if found {
                return Some(&entries[i]);
            }
            i += 1;
        }
        None
    }

    /// Whether an aspect name is visible from `current_module`.
    pub fn is_visible_aspect(&self, current_module: &[String], name: &str) -> (b: bool)
        ensures
            b == visible_aspect(self@, current_module.deep_view(), name@),
    {
        let n: usize = self.symbols.len();
        if n == 0 {
            proof {
                assert(self@.symbols.dom() =~= Set::empty());
            }
            return self.aspects.contains_key(&name.to_owned());
        }
        proof {
            assert(self.symbols.keys().contains(self.symbols.keys()[0]));
            assert(self@.symbols.contains_key(self.symbols.keys()[0]));
        }
        let id = match self.resolve_type_position_id(current_module, name) {
            Some(id) => id,
            None => {
                return false;
            },
        };
        let mut i: usize = 0;
        while i < n
            invariant
                i <= n,
                n == self.symbols.keys().len(),
                forall|j: int|
                    0 <= j < i ==> !(self@.symbols[#[trigger] self.symbols.keys()[j]] == id
                        && self@.aspects.contains_key(self.symbols.keys()[j].1)),
                self@.symbols.dom() != Set::<(Seq<Seq<char>>, Seq<char>)>::empty(),
                crate::resolve::resolved(self@, current_module.deep_view(), name@) == Some(id),
            decreases n - i,
        {
            let key = self.symbols.key_at(i);
            if self.symbols.value_at(i).0 == id.0 && self.aspects.contains_key(&key.1) {
                proof {
                    assert(self@.symbols.contains_key(self.symbols.keys()[i as int]));
                    assert(names_aspect(self@, id));
                }
                return true;
            }
            i += 1;
        }
        let again: usize = self.symbols.len();
        proof {
            if names_aspect(self@, id) {
                let key = choose|key: (Seq<Seq<char>>, Seq<char>)|
                    #[trigger] self@.symbols.contains_key(key) && self@.symbols[key] == id
                        && self@.aspects.contains_key(key.1);
                assert(self.symbols.keys().contains(key));
            }
        }
        false
    }

    /// Return the associated-type declarations for `aspect_name`, if any.
    pub fn aspect_assoc_type_decls(&self, aspect_name: &str) -> (r: Option<&Vec<AssocTypeDecl>>)
        ensures
            r.deep_view() == (match sole_aspect(self@, aspect_name@) {
                Some(e) => if e.assoc_type_decls.len() > 0 {
                    Some(e.assoc_type_decls)
                } else {
                    None
                },
                None => None,
            }),
    {
        match self.aspect_entry(aspect_name) {
            Some(e) => {
                if e.assoc_type_decls.len() > 0 {
                    Some(&e.assoc_type_decls)
                } else {
                    None
                }
            },
            None => None,
        }
    }

    /// `aspect_assoc_type_decls` scoped to `current_module`.
    pub fn aspect_assoc_type_decls_in(&self, current_module: &[String], aspect_name: &str) -> (r:
        Option<&Vec<AssocTypeDecl>>)
        ensures
            r.deep_view() == (match aspect_in(
                self@,
                current_module.deep_view(),
                aspect_name@,
            ) {
                Some(e) => if e.assoc_type_decls.len() > 0 {
                    Some(e.assoc_type_decls)
                } else {
                    None
                },
                None => None,
            }),
    {
        match self.aspect_entry_in(current_module, aspect_name) {
            Some(e) => {
                if e.assoc_type_decls.len() > 0 {
                    Some(&e.assoc_type_decls)
                } else {
                    None
                }
            },
            None => None,
        }
    }

    /// The generic parameters that the aspect declares, when unambiguous.
    pub fn aspect_generics(&self, name: &str) -> (r: Option<&Vec<String>>)
        ensures
            r.deep_view() == (match sole_aspect(self@, name@) {
                Some(e) => Some(e.generics),
                None => None,
            }),
    {
        match self.aspect_entry(name) {
            Some(e) => Some(&e.generics),
            None => None,
        }
    }

    /// `aspect_generics` scoped to `current_module`.
    pub fn aspect_generics_in(
        &self,
        current_module: &[String],
        name: &str,
    ) -> (r: Option<&Vec<String>>)
        ensures
            r.deep_view() == (match aspect_in(self@, current_module.deep_view(), name@) {
                Some(e) => Some(e.generics),
                None => None,
            }),
    {
        match self.aspect_entry_in(current_module, name) {
            Some(e) => Some(&e.generics),
            None => None,
        }
    }

    /// The module path that declared the aspect, when unambiguous.
    pub fn aspect_declaring_module(&self, name: &str) -> (r: Option<&Vec<String>>)
        ensures
            r.deep_view() == (match sole_aspect(self@, name@) {
                Some(e) => Some(e.declaring_module),
                None => None,
            }),
    {
        match self.aspect_entry(name) {
            Some(e) => Some(&e.declaring_module),
            None => None,
        }
    }

    /// `aspect_declaring_module` scoped to `current_module`.
    pub fn aspect_declaring_module_in(
        &self,
        current_module: &[String],
        name: &str,
    ) -> (r: Option<&Vec<String>>)
        ensures
            r.deep_view() == (match aspect_in(self@, current_module.deep_view(), name@) {
                Some(e) => Some(e.declaring_module),
                None => None,
            }),
    {
        match self.aspect_entry_in(current_module, name) {
            Some(e) => Some(&e.declaring_module),
            None => None,
        }
    }

    /// The methods that the aspect declares, when unambiguous.
    pub fn aspect_method_defs(&self, name: &str) -> (r: Option<&Vec<AspectMethod>>)
        ensures
            r.deep_view() == (match sole_aspect(self@, name@) {
                Some(e) => Some(e.method_defs),
                None => None,
            }),
    {
        match self.aspect_entry(name) {
            Some(e) => Some(&e.method_defs),
            None => None,
        }
    }

    /// `aspect_method_defs` scoped to `current_module`.
    pub fn aspect_method_defs_in(
        &self,
        current_module: &[String],
        name: &str,
    ) -> (r: Option<&Vec<AspectMethod>>)
        ensures
            r.deep_view() == (match aspect_in(self@, current_module.deep_view(), name@) {
                Some(e) => Some(e.method_defs),
                None => None,
            }),
    {
        match self.aspect_entry_in(current_module, name) {
            Some(e) => Some(&e.method_defs),
            None => None,
        }
    }

    /// Ordered method names the aspect declares, when unambiguous.
    pub fn aspect_method_names(&self, name: &str) -> (r: Option<&Vec<String>>)
        ensures
            r.deep_view() == (match sole_aspect(self@, name@) {
                Some(e) => Some(e.method_names),
                None => None,
            }),
    {
        match self.aspect_entry(name) {
            Some(e) => Some(&e.method_names),
            None => None,
        }
    }
}

} // verus!
