//! Interned identities of fields and variants.

use crate::data::Dup;
use crate::definitions::{EnumInfo, EnumModel, FieldEntry, FieldModel, VariantInfo, VariantModel};
use crate::registry::{RegistryModel, TypeDefinitionRegistry};
use crate::symbols::{FieldId, SymbolId, VariantId};
use crate::table::Table;
use vstd::prelude::*;
use vstd::string::*;

verus! {

/// The identities of all members of the program, by owner and name. A field of
/// a variant has the variant's name in front of its own.
pub struct MemberTable {
    pub fields: Table<(SymbolId, String), FieldId>,
    pub variants: Table<(SymbolId, String), VariantId>,
}

pub struct MemberModel {
    pub fields: Map<(SymbolId, Seq<char>), FieldId>,
    pub variants: Map<(SymbolId, Seq<char>), VariantId>,
}

impl DeepView for MemberTable {
    type V = MemberModel;

    open spec fn deep_view(&self) -> MemberModel {
        MemberModel { fields: self.fields@, variants: self.variants@ }
    }
}

impl MemberTable {
    pub fn field(&self, owner: SymbolId, name: &String) -> (r: Option<FieldId>)
        ensures
            r == self.deep_view().fields.get((owner, name@)),
    {
        match self.fields.get(&(owner, name.clone())) {
            Some(id) => Some(*id),
            None => None,
        }
    }

    pub fn variant(&self, owner: SymbolId, name: &String) -> (r: Option<VariantId>)
        ensures
            r == self.deep_view().variants.get((owner, name@)),
    {
        match self.variants.get(&(owner, name.clone())) {
            Some(id) => Some(*id),
            None => None,
        }
    }
}

/// Fields with their identities, which are interned under their names after a
/// prefix.
pub open spec fn stamped_fields(
    members: MemberModel,
    owner: SymbolId,
    prefix: Seq<char>,
    fields: Seq<FieldModel>,
) -> Seq<FieldModel> {
    Seq::new(
        fields.len(),
        |i: int|
            FieldModel {
                id: members.fields.get((owner, prefix + fields[i].name)),
                ..fields[i]
            },
    )
}

/// An enum with the identities of its variants and their fields.
pub open spec fn stamped_enum(members: MemberModel, owner: SymbolId, info: EnumModel) -> EnumModel {
    EnumModel {
        variants: Seq::new(
            info.variants.len(),
            |i: int|
                VariantModel {
                    id: members.variants.get((owner, info.variants[i].name)),
                    fields: stamped_fields(
                        members,
                        owner,
                        info.variants[i].name + "::"@,
                        info.variants[i].fields,
                    ),
                    ..info.variants[i]
                },
        ),
        ..info
    }
}

/// The registry with the identities of all members.
pub open spec fn stamped(reg: RegistryModel, members: MemberModel) -> RegistryModel {
    RegistryModel {
        struct_env: Map::new(
            |k: SymbolId| reg.struct_env.contains_key(k),
            |k: SymbolId| stamped_fields(members, k, Seq::empty(), reg.struct_env[k]),
        ),
        enum_env: Map::new(
            |k: SymbolId| reg.enum_env.contains_key(k),
            |k: SymbolId| stamped_enum(members, k, reg.enum_env[k]),
        ),
        ..reg
    }
}

fn stamp_fields(
    members: &MemberTable,
    owner: SymbolId,
    prefix: &str,
    fields: &Vec<FieldEntry>,
) -> (r: Vec<FieldEntry>)
    ensures
        r.deep_view() == stamped_fields(
            members.deep_view(),
            owner,
            prefix@,
            fields.deep_view(),
        ),
{
    let ghost want = stamped_fields(members.deep_view(), owner, prefix@, fields.deep_view());
    let mut out: Vec<FieldEntry> = Vec::new();
    let mut i: usize = 0;
    while i < fields.len()
        invariant
            i <= fields.len(),
            out@.len() == i,
            want == stamped_fields(members.deep_view(), owner, prefix@, fields.deep_view()),
            forall|j: int| 0 <= j < i ==> (#[trigger] out@[j]).deep_view() == want[j],
        decreases fields.len() - i,
    {
        let field = &fields[i];
        let mut name = prefix.to_owned();
        name.append(field.name.as_str());
        let id = members.field(owner, &name);
        let mut next = field.dup();
        next.id = id;
        proof {
            assert(field.deep_view() == fields.deep_view()[i as int]);
            assert(next.deep_view() == want[i as int]);
        }
        out.push(next);
        i += 1;
    }
    proof {
        assert(out.deep_view() =~= want);
    }
    out
}

fn stamp_enum(members: &MemberTable, owner: SymbolId, info: &EnumInfo) -> (r: EnumInfo)
    ensures
        r.deep_view() == stamped_enum(members.deep_view(), owner, info.deep_view()),
{
    let ghost want = stamped_enum(members.deep_view(), owner, info.deep_view());
    let mut variants: Vec<VariantInfo> = Vec::new();
    let mut i: usize = 0;
    while i < info.variants.len()
        invariant
            i <= info.variants.len(),
            variants@.len() == i,
            want == stamped_enum(members.deep_view(), owner, info.deep_view()),
            forall|j: int|
                0 <= j < i ==> (#[trigger] variants@[j]).deep_view() == want.variants[j],
        decreases info.variants.len() - i,
    {
        let variant = &info.variants[i];
        let id = members.variant(owner, &variant.name);
        let mut prefix = variant.name.clone();
        prefix.append("::");
        let fields = stamp_fields(members, owner, prefix.as_str(), &variant.fields);
        let next = VariantInfo { name: variant.name.clone(), fields, id };
        proof {
            assert(variant.deep_view() == info.variants.deep_view()[i as int]);
            assert(next.deep_view() == want.variants[i as int]);
        }
        variants.push(next);
        i += 1;
    }
    proof {
        assert(variants.deep_view() =~= want.variants);
    }
    EnumInfo { type_params: info.type_params.dup(), variants }
}

impl TypeDefinitionRegistry {
    /// Stamp every struct field and enum variant entry with its interned
    /// identity. Entries of block-local types, which have none, get `None`.
    /// Without a member table nothing changes.
    pub fn stamp_member_ids(&mut self, members: Option<&MemberTable>)
        ensures
            final(self)@ == (match members {
                Some(m) => stamped(old(self)@, m.deep_view()),
                None => old(self)@,
            }),
    {
        let members = match members {
            Some(members) => members,
            None => {
                return ;
            },
        };
        let ghost mm = members.deep_view();
        let mut structs: Table<SymbolId, Vec<FieldEntry>> = Table::new();
        let n: usize = self.struct_env.len();
        let mut i: usize = 0;
        while i < n
            invariant
                i <= n,
                self@ == old(self)@,
                mm == members.deep_view(),
                n == self.struct_env.keys().len(),
                forall|k: SymbolId| #[trigger]
                    structs@.contains_key(k) <==> self.struct_env.keys().take(
                        i as int,
                    ).contains(k),
                forall|k: SymbolId| #[trigger]
                    structs@.contains_key(k) ==> structs@[k] == stamped_fields(
                        mm,
                        k,
                        Seq::empty(),
                        self@.struct_env[k],
                    ),
            decreases n - i,
        {
            let owner = *self.struct_env.key_at(i);
            proof {
                crate::data::lemma_take_next(self.struct_env.keys(), i as int);
                reveal_strlit("");
                assert(""@ =~= Seq::<char>::empty());
            }
            structs.insert(owner, stamp_fields(members, owner, "", self.struct_env.value_at(i)));
            i += 1;
        }
        proof {
            assert(self.struct_env.keys().take(n as int) =~= self.struct_env.keys());
        }
        let again: usize = self.struct_env.len();
        let mut enums: Table<SymbolId, EnumInfo> = Table::new();
        let m: usize = self.enum_env.len();
        let mut j: usize = 0;
        while j < m
            invariant
                j <= m,
                self@ == old(self)@,
                mm == members.deep_view(),
                m == self.enum_env.keys().len(),
                forall|k: SymbolId| #[trigger]
                    enums@.contains_key(k) <==> self.enum_env.keys().take(j as int).contains(k),
                forall|k: SymbolId| #[trigger]
                    enums@.contains_key(k) ==> enums@[k] == stamped_enum(
                        mm,
                        k,
                        self@.enum_env[k],
                    ),
            decreases m - j,
        {
            let owner = *self.enum_env.key_at(j);
            proof {
                crate::data::lemma_take_next(self.enum_env.keys(), j as int);
            }
            enums.insert(owner, stamp_enum(members, owner, self.enum_env.value_at(j)));
            j += 1;
        }
        proof {
            assert(self.enum_env.keys().take(m as int) =~= self.enum_env.keys());
        }
        let again2: usize = self.enum_env.len();
        proof {
            assert(structs@ =~= stamped(self@, mm).struct_env);
            assert(enums@ =~= stamped(self@, mm).enum_env);
        }
        self.struct_env = structs;
        self.enum_env = enums;
    }
}

} // verus!
