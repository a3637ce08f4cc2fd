use metel::ast::{Span, Visibility};
use metel::definitions::{EnumInfo, FieldEntry, VariantInfo};
use metel::infer_type::InferType;
use metel::registry::TypeDefinitionRegistry;
use metel::symbols::SymbolId;
use metel::table::Table;
use metel::term::TypeVar;

fn field(name: &str) -> FieldEntry {
    FieldEntry {
        name: name.to_string(),
        ty: InferType::unit(),
        span: Span::new(0, 0, "test"),
        visibility: Visibility::Public,
        id: None,
    }
}

fn variant(name: &str) -> VariantInfo {
    VariantInfo {
        name: name.to_string(),
        fields: vec![],
        id: None,
    }
}

#[test]
fn same_named_structs_in_two_modules_keep_distinct_field_sets() {
    let alpha = SymbolId(1000);
    let beta = SymbolId(1001);
    let mut reg = TypeDefinitionRegistry::new();
    reg.register_struct_fields(
        alpha,
        "Config".to_string(),
        vec![field("retries")],
        vec!["alpha".to_string()],
        Visibility::Public,
    );
    reg.register_struct_fields(
        beta,
        "Config".to_string(),
        vec![field("timeout")],
        vec!["beta".to_string()],
        Visibility::Public,
    );

    let alpha_fields = reg.struct_fields_by_id(alpha).expect("alpha Config");
    let beta_fields = reg.struct_fields_by_id(beta).expect("beta Config");
    assert_eq!(alpha_fields.len(), 1);
    assert_eq!(alpha_fields[0].name, "retries");
    assert_eq!(beta_fields.len(), 1);
    assert_eq!(beta_fields[0].name, "timeout");
    assert_eq!(reg.declared_type_name(alpha), Some("Config"));
    assert_eq!(reg.declared_type_name(beta), Some("Config"));
}

#[test]
fn merge_from_does_not_collapse_same_named_structs() {
    let alpha = SymbolId(1000);
    let beta = SymbolId(1001);

    let mut base = TypeDefinitionRegistry::new();
    base.register_struct_fields(
        alpha,
        "Config".to_string(),
        vec![field("retries")],
        vec!["alpha".to_string()],
        Visibility::Public,
    );

    let mut reg = TypeDefinitionRegistry::new();
    reg.register_struct_fields(
        beta,
        "Config".to_string(),
        vec![field("timeout")],
        vec!["beta".to_string()],
        Visibility::Public,
    );
    reg.merge_from(&base);

    assert_eq!(
        reg.struct_fields_by_id(alpha).map(|f| f[0].name.as_str()),
        Some("retries"),
    );
    assert_eq!(
        reg.struct_fields_by_id(beta).map(|f| f[0].name.as_str()),
        Some("timeout"),
    );
}

#[test]
fn block_local_type_id_is_disjoint_from_name_resolver_ids() {
    let mut reg = TypeDefinitionRegistry::new();
    reg.push_struct_scope();
    reg.register_local_struct_fields(
        "Local".to_string(),
        vec![field("x")],
        vec!["m".to_string()],
        Visibility::Private,
    );
    // Reachable by bare name inside the scope, via the strict resolver.
    let fields = reg
        .struct_fields(&["m".to_string()], "Local")
        .expect("Local visible in scope");
    assert_eq!(fields[0].name, "x");
    reg.pop_struct_scope();
    assert!(reg.struct_fields(&["m".to_string()], "Local").is_none());
}

#[test]
fn same_named_enums_in_two_modules_keep_distinct_variant_sets() {
    let alpha = SymbolId(1000);
    let beta = SymbolId(1001);
    let mut base = TypeDefinitionRegistry::new();
    base.register_enum(
        alpha,
        "Mode".to_string(),
        EnumInfo {
            type_params: vec![],
            variants: vec![variant("Fast"), variant("Slow")],
        },
        vec!["alpha".to_string()],
    );

    let mut reg = TypeDefinitionRegistry::new();
    reg.register_enum(
        beta,
        "Mode".to_string(),
        EnumInfo {
            type_params: vec![],
            variants: vec![variant("Sync"), variant("Async")],
        },
        vec!["beta".to_string()],
    );
    reg.merge_from(&base);

    let alpha_variants: Vec<&str> = reg
        .enum_info_by_id(alpha)
        .expect("alpha Mode")
        .variants
        .iter()
        .map(|v| v.name.as_str())
        .collect();
    let beta_variants: Vec<&str> = reg
        .enum_info_by_id(beta)
        .expect("beta Mode")
        .variants
        .iter()
        .map(|v| v.name.as_str())
        .collect();
    assert_eq!(alpha_variants, ["Fast", "Slow"]);
    assert_eq!(beta_variants, ["Sync", "Async"]);
    assert_eq!(reg.declared_type_name(alpha), Some("Mode"));
    assert_eq!(reg.declared_type_name(beta), Some("Mode"));
}

#[test]
fn merging_keeps_what_is_there() {
    let id = SymbolId(7);
    let mut ours = TypeDefinitionRegistry::new();
    ours.register_struct_fields(
        id,
        "P".to_string(),
        vec![field("ours")],
        vec!["m".to_string()],
        Visibility::Public,
    );
    let mut theirs = TypeDefinitionRegistry::new();
    theirs.register_struct_fields(
        id,
        "P".to_string(),
        vec![field("theirs")],
        vec!["n".to_string()],
        Visibility::Private,
    );
    ours.merge_from(&theirs);
    assert_eq!(
        ours.struct_fields_by_id(id).map(|f| f[0].name.as_str()),
        Some("ours")
    );
}

#[test]
fn two_block_local_structs_of_one_name_differ() {
    let mut reg = TypeDefinitionRegistry::new();
    let m = ["m".to_string()];
    reg.push_struct_scope();
    reg.register_local_struct_fields(
        "L".to_string(),
        vec![field("first")],
        vec!["m".to_string()],
        Visibility::Private,
    );
    let first = reg.resolve_type_key_broad(&m, "L");
    reg.pop_struct_scope();
    reg.push_struct_scope();
    reg.register_local_struct_fields(
        "L".to_string(),
        vec![field("second")],
        vec!["m".to_string()],
        Visibility::Private,
    );
    let second = reg.resolve_type_key_broad(&m, "L");
    assert!(first.is_some());
    assert!(second.is_some());
    assert_ne!(first, second);
    assert_eq!(reg.struct_fields(&m, "L").map(|f| f[0].name.as_str()), Some("second"));
}

#[test]
fn merging_brings_what_is_missing() {
    let mut dep = TypeDefinitionRegistry::new();
    let mut kinds = Table::new();
    kinds.insert(TypeVar(1), true);
    dep.register_fun_record_kinds("f".to_string(), kinds);
    dep.register_type_param_record_kinds(SymbolId(1000), vec![true]);
    dep.register_type_param_record_kinds(SymbolId(1001), vec![true]);
    let mut reg = TypeDefinitionRegistry::new();
    reg.register_type_param_record_kinds(SymbolId(1001), vec![false]);
    reg.merge_from(&dep);
    assert_eq!(reg.fun_record_kinds_for("f").unwrap().get(&TypeVar(1)), Some(&true));
    assert_eq!(reg.type_param_record_kinds.get(&SymbolId(1000)), Some(&vec![true]));
    assert_eq!(reg.type_param_record_kinds.get(&SymbolId(1001)), Some(&vec![false]));
}
