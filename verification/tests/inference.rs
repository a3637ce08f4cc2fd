use metel::ast::{Span, Visibility};
use metel::constraints::{solve_constraints, Constraint};
use metel::context::InferContext;
use metel::definitions::{EnumInfo, FieldEntry, VariantInfo};
use metel::error::{MetelError, TypeErrorCode};
use metel::infer_type::InferType;
use metel::registry::TypeDefinitionRegistry;
use metel::render::render_types;
use metel::schemes::{generalize, instantiate, TypeScheme, TypeVarGenerator};
use metel::substitution::Substitution;
use metel::symbols::SymbolId;
use metel::table::{KeySet, Table};
use metel::term::TypeVar;
use metel::types::{CallMultiplicity, CallMutation, NominalId, Type, UseMultiplicity};
use metel::unify::unify;

fn sp() -> Span {
    Span::new(0, 0, "t")
}

fn v(n: u32) -> InferType {
    InferType::var(TypeVar(n))
}

fn i64_ty() -> InferType {
    InferType::Concrete(Type::I64)
}

fn fun(params: Vec<InferType>, ret: InferType) -> InferType {
    InferType::fun(params, ret)
}

fn type_error(e: &MetelError) -> (TypeErrorCode, String) {
    match e {
        MetelError::TypeError { code, message, .. } => (*code, message.clone()),
        other => panic!("{other:?}"),
    }
}

#[test]
fn unified_types_become_the_same() {
    let a = fun(vec![v(1), i64_ty()], v(2));
    let b = fun(vec![InferType::bool(), v(3)], InferType::Array(Box::new(v(1))));
    let s = unify(&a, &b).unwrap();
    assert_eq!(s.apply(&a).to_string(), s.apply(&b).to_string());
    assert_eq!(s.apply(&v(2)).to_string(), "boolean[]");
    assert_eq!(s.apply(&v(3)).to_string(), "i64");
}

#[test]
fn a_type_unifies_with_itself_and_binds_nothing() {
    let a = InferType::Tuple(vec![v(1), InferType::str()]);
    assert!(unify(&a, &a).unwrap().is_empty());
}

#[test]
fn a_variable_does_not_stand_for_a_type_that_contains_it() {
    assert!(unify(&v(1), &InferType::Array(Box::new(v(1)))).is_err());
}

#[test]
fn different_types_do_not_unify() {
    assert!(unify(&i64_ty(), &InferType::bool()).is_err());
    assert!(unify(&InferType::Tuple(vec![i64_ty()]), &InferType::Tuple(vec![])).is_err());
    assert!(unify(&InferType::never(), &i64_ty()).is_ok());
}

#[test]
fn substitutions_compose_one_after_the_other() {
    let mut first = Substitution::new();
    first.bind(TypeVar(1), InferType::Array(Box::new(v(2))));
    let mut second = Substitution::new();
    second.bind(TypeVar(2), i64_ty());
    let both = second.compose(&first);
    let t = InferType::Tuple(vec![v(1), v(2)]);
    assert_eq!(
        both.apply(&t).to_string(),
        second.apply(&first.apply(&t)).to_string()
    );
    assert_eq!(both.apply(&v(1)).to_string(), "i64[]");
    assert_eq!(both.apply(&both.apply(&t)).to_string(), both.apply(&t).to_string());
}

#[test]
fn solutions_satisfy_every_constraint() {
    let cs = vec![
        Constraint::new(v(1), v(2), sp()),
        Constraint::new(v(2), i64_ty(), sp()),
    ];
    let none: KeySet<TypeVar> = KeySet::new();
    let s = solve_constraints(cs, &none, &KeySet::new()).unwrap();
    assert_eq!(s.apply(&v(1)).to_string(), "i64");
    assert_eq!(s.apply(&v(2)).to_string(), "i64");
}

#[test]
fn mismatches_are_told_with_their_operator() {
    let none: KeySet<TypeVar> = KeySet::new();
    let plain = vec![Constraint::new(i64_ty(), InferType::bool(), sp())];
    let (code, text) = type_error(&solve_constraints(plain, &none, &KeySet::new()).err().unwrap());
    assert_eq!(code, TypeErrorCode::T0001);
    assert!(text.contains("i64") && text.contains("boolean"), "{text}");
    let operator = vec![Constraint::for_operator(i64_ty(), InferType::bool(), sp(), "+")];
    let (code, text) = type_error(&solve_constraints(operator, &none, &KeySet::new()).err().unwrap());
    assert_eq!(code, TypeErrorCode::T0005);
    assert!(text.contains('+'), "{text}");
}

#[test]
fn integer_literals_are_integers() {
    let mut ints: KeySet<TypeVar> = KeySet::new();
    ints.insert(TypeVar(1));
    let bad = vec![Constraint::new(v(1), InferType::str(), sp())];
    assert!(solve_constraints(bad, &ints, &KeySet::new()).is_err());
    let good = vec![Constraint::new(v(1), InferType::Concrete(Type::U8), sp())];
    assert!(solve_constraints(good, &ints, &KeySet::new()).is_ok());
}

#[test]
fn schemes_are_general_and_their_instances_fresh() {
    let id = fun(vec![v(0)], v(0));
    let scheme = generalize(id, &KeySet::new());
    assert_eq!(scheme.quantified_vars.len(), 1);
    let mut gen = TypeVarGenerator::with_counter(10);
    let first = instantiate(&scheme, &mut gen);
    let second = instantiate(&scheme, &mut gen);
    assert_ne!(first.to_string(), second.to_string());
    let s = unify(&first, &fun(vec![i64_ty()], v(99))).unwrap();
    assert_eq!(s.apply(&v(99)).to_string(), "i64");
}

#[test]
fn variables_of_the_environment_stay_as_they_are() {
    let mut held: KeySet<TypeVar> = KeySet::new();
    held.insert(TypeVar(0));
    let scheme = generalize(fun(vec![v(0)], v(1)), &held);
    assert_eq!(scheme.quantified_vars, vec![TypeVar(1)]);
    let mut gen = TypeVarGenerator::with_counter(5);
    let t = instantiate(&TypeScheme::mono(v(0)), &mut gen);
    assert_eq!(t.to_string(), v(0).to_string());
    assert_eq!(gen.counter(), 5);
}

fn context() -> InferContext {
    InferContext::new(
        TypeDefinitionRegistry::new(),
        TypeVarGenerator::new(),
        &Table::new(),
        vec!["m".to_string()],
    )
}

#[test]
fn bindings_end_with_their_scope() {
    let mut c = context();
    c.bind_mono("x".to_string(), i64_ty(), false);
    c.push_scope();
    c.bind_mono("x".to_string(), InferType::bool(), false);
    assert_eq!(c.lookup("x").unwrap().to_string(), "boolean");
    c.pop_scope();
    assert_eq!(c.lookup("x").unwrap().to_string(), "i64");
    assert!(c.lookup("y").is_none());
}

#[test]
fn only_variables_can_be_assigned_to() {
    let mut c = context();
    c.bind_mono("fixed".to_string(), i64_ty(), false);
    c.bind_mono("free".to_string(), i64_ty(), true);
    assert!(c.lookup_for_write("free", &sp()).is_ok());
    let (code, text) = type_error(&c.lookup_for_write("fixed", &sp()).unwrap_err());
    assert_eq!(code, TypeErrorCode::T0006);
    assert!(text.contains("fixed"), "{text}");
    let (code, _) = type_error(&c.lookup_for_write("missing", &sp()).unwrap_err());
    assert_eq!(code, TypeErrorCode::T0003);
}

#[test]
fn literals_get_their_defaults() {
    let mut c = context();
    let n = c.fresh_integer_literal_var();
    let x = c.fresh_float_literal_var();
    let s = c.solve().unwrap();
    let s = c.default_literal_vars(&s);
    assert_eq!(s.apply(&n).to_string(), "i64");
    assert_eq!(s.apply(&x).to_string(), "f64");
}

#[test]
fn a_checkpoint_undoes_a_failed_solve() {
    let mut c = context();
    let t = c.fresh_var();
    c.add_constraint(InferType::Tuple(vec![t.clone()]), InferType::Tuple(vec![i64_ty()]), sp());
    let mark = c.solve_checkpoint();
    c.add_constraint(i64_ty(), InferType::bool(), sp());
    assert!(c.solve().is_err());
    c.solve_restore(mark);
    assert_eq!(c.apply_cached_subst(&t).to_string(), t.to_string());
}

#[test]
fn names_that_two_modules_give_conflict_when_used() {
    let mut c = context();
    let mut conflicts: Table<String, Vec<Vec<String>>> = Table::new();
    conflicts.insert(
        "f".to_string(),
        vec![vec!["a".to_string()], vec!["b".to_string()]],
    );
    c.seed_glob_conflicts(conflicts);
    let (code, text) = type_error(&c.check_glob_conflict("f", &sp()).unwrap());
    assert_eq!(code, TypeErrorCode::T0011);
    assert!(text.contains('f'), "{text}");
    assert!(c.check_glob_conflict("g", &sp()).is_none());
}

fn field(name: &str, ty: InferType) -> FieldEntry {
    FieldEntry {
        name: name.to_string(),
        ty,
        span: sp(),
        visibility: Visibility::Public,
        id: None,
    }
}

#[test]
fn an_enum_with_one_inhabited_variant_is_taken_as_what_it_holds() {
    let mut reg = TypeDefinitionRegistry::new();
    reg.register_enum(
        SymbolId(300),
        "Only".to_string(),
        EnumInfo {
            type_params: vec![],
            variants: vec![
                VariantInfo {
                    name: "One".to_string(),
                    fields: vec![field("value", i64_ty())],
                    id: None,
                },
                VariantInfo {
                    name: "Other".to_string(),
                    fields: vec![field("error", InferType::never())],
                    id: None,
                },
            ],
        },
        vec!["m".to_string()],
    );
    let mut c = InferContext::new(reg, TypeVarGenerator::new(), &Table::new(), vec!["m".to_string()]);
    c.add_constraint(i64_ty(), InferType::Named("Only".to_string(), vec![]), sp());
    assert!(c.solve().is_ok());
    c.add_constraint(InferType::str(), InferType::Named("Only".to_string(), vec![]), sp());
    assert!(c.solve().is_err());
}

#[test]
fn opaque_results_are_not_named() {
    let mut c = context();
    let tv = c.fresh_type_var_raw();
    c.mark_opaque_return_var(tv);
    c.add_constraint(InferType::var(tv), i64_ty(), sp());
    let (code, text) = type_error(&c.solve().err().unwrap());
    assert_eq!(code, TypeErrorCode::T0018);
    assert!(text.contains("resolved to `i64`"), "{text}");
}

#[test]
fn function_types_are_written_with_their_results() {
    let f = InferType::Fun(
        vec![i64_ty()],
        Box::new(InferType::unit()),
        CallMultiplicity::Many,
        UseMultiplicity::Copy,
        CallMutation::Reading,
    );
    let text = f.to_string();
    assert!(text.contains("i64") && text.contains("->"), "{text}");
}

#[test]
fn solving_a_context_names_the_operator_too() {
    let mut c = context();
    c.add_operand_constraint(i64_ty(), InferType::str(), sp(), "*");
    let (code, text) = type_error(&c.solve().err().unwrap());
    assert_eq!(code, TypeErrorCode::T0005);
    assert_eq!(text, "operator `*` cannot be applied to `i64` and `String`");
}

#[test]
fn an_inner_variable_hides_an_outer_function() {
    let mut c = context();
    c.bind_poly("f".to_string(), generalize(fun(vec![v(0)], v(0)), &KeySet::new()));
    assert!(matches!(c.lookup("f"), Some(InferType::Fun(..))));
    c.push_scope();
    assert!(matches!(c.lookup("f"), Some(InferType::Fun(..))));
    c.bind_mono("f".to_string(), i64_ty(), false);
    assert_eq!(c.lookup("f").unwrap().to_string(), "i64");
    c.bind_poly("f".to_string(), TypeScheme::mono(InferType::bool()));
    assert_eq!(c.lookup("f").unwrap().to_string(), "boolean");
    c.pop_scope();
    assert!(matches!(c.lookup("f"), Some(InferType::Fun(..))));
}

#[test]
fn an_erased_type_meets_only_its_kind() {
    let erased = |name: &str| InferType::Dyn { aspect: name.to_string(), type_args: vec![] };
    let pair = InferType::Tuple(vec![v(1), v(2)]);
    assert!(unify(&erased("Show"), &pair).is_err());
    assert!(unify(&pair, &erased("Show")).is_err());
    let point = InferType::Named("Point".to_string(), vec![]);
    assert!(unify(&erased("Show"), &point).is_err());
    assert!(unify(&point, &erased("Show")).is_err());
    assert!(unify(&erased("Show"), &i64_ty()).is_err());
    assert!(unify(&erased("Show"), &InferType::never()).unwrap().is_empty());
    assert_eq!(unify(&v(1), &erased("Show")).unwrap().apply(&v(1)).to_string(), "dyn Show");
    assert!(unify(&erased("Show"), &erased("Show")).unwrap().is_empty());
    assert!(unify(&erased("Show"), &erased("Hash")).is_err());
}

#[test]
fn what_is_left_of_a_struct_is_no_record() {
    let fields = || vec![("x".to_string(), i64_ty())];
    let rest = |brand: &str| InferType::Residual { brand: brand.to_string(), fields: fields() };
    let record = InferType::Record(fields());
    assert!(unify(&rest("Point"), &record).is_err());
    assert!(unify(&record, &rest("Point")).is_err());
    assert!(unify(&rest("Point"), &InferType::Named("Point".to_string(), vec![])).is_err());
    assert!(unify(&rest("Point"), &rest("Size")).is_err());
    assert!(unify(&rest("Point"), &rest("Point")).is_ok());
}

#[test]
fn messages_number_the_variables_that_they_show() {
    let shown = |n: u32| {
        let left = InferType::Residual {
            brand: "Pair".to_string(),
            fields: vec![("a".to_string(), v(n))],
        };
        let right = InferType::Dyn { aspect: "Into".to_string(), type_args: vec![v(n + 1), v(n)] };
        render_types(&vec![&left, &right], &Table::new())
    };
    assert_eq!(shown(7), shown(40));
    assert_eq!(shown(7), vec!["Pair.{ a: ?1 }", "dyn Into<?2, ?1>"]);
}

#[test]
fn solved_constraints_can_be_solved_again() {
    let constraints = || {
        vec![
            Constraint::new(v(1), InferType::Tuple(vec![v(2), i64_ty()]), sp()),
            Constraint::new(v(2), InferType::Array(Box::new(v(3))), sp()),
            Constraint::new(v(3), InferType::str(), sp()),
        ]
    };
    let once = solve_constraints(constraints(), &KeySet::new(), &KeySet::new()).unwrap();
    let twice: Vec<Constraint> = constraints().into_iter().chain(constraints()).collect();
    let again = solve_constraints(twice, &KeySet::new(), &KeySet::new()).unwrap();
    for n in 1..4 {
        assert_eq!(once.apply(&v(n)).to_string(), again.apply(&v(n)).to_string());
    }
    assert_eq!(once.apply(&v(1)).to_string(), "(String[], i64)");
}

#[test]
fn identities_do_not_tell_types_apart() {
    let named = |name: &str, id: NominalId| {
        InferType::Concrete(Type::Named(name.to_string(), vec![], id))
    };
    let known = named("Point", NominalId::some(SymbolId(1)));
    assert!(unify(&known, &named("Point", NominalId::some(SymbolId(2)))).unwrap().is_empty());
    assert!(unify(&known, &named("Point", NominalId::default())).unwrap().is_empty());
    assert!(unify(&known, &named("Size", NominalId::some(SymbolId(1)))).is_err());
    assert!(unify(&known, &InferType::never()).unwrap().is_empty());
}

#[test]
fn unification_commits_to_no_more_than_it_must() {
    let a = InferType::Tuple(vec![v(1), v(2)]);
    let b = InferType::Tuple(vec![v(2), InferType::Array(Box::new(v(3)))]);
    let s = unify(&a, &b).unwrap();
    assert_eq!(s.apply(&a).to_string(), "(?t3[], ?t3[])");
    assert_eq!(s.apply(&b).to_string(), "(?t3[], ?t3[])");
    let mut narrower = Substitution::new();
    narrower.bind(TypeVar(1), InferType::Array(Box::new(i64_ty())));
    narrower.bind(TypeVar(2), InferType::Array(Box::new(i64_ty())));
    narrower.bind(TypeVar(3), i64_ty());
    let t = InferType::Tuple(vec![v(1), v(3), v(4)]);
    assert_eq!(
        narrower.apply(&s.apply(&t)).to_string(),
        narrower.apply(&t).to_string()
    );
}

#[test]
fn early_constraints_hold_in_the_end() {
    let cs = vec![
        Constraint::new(v(1), InferType::Array(Box::new(v(2))), sp()),
        Constraint::new(InferType::Tuple(vec![v(2), v(3)]), v(4), sp()),
        Constraint::new(v(4), InferType::Tuple(vec![i64_ty(), v(1)]), sp()),
    ];
    let s = solve_constraints(cs, &KeySet::new(), &KeySet::new()).unwrap();
    assert_eq!(s.apply(&v(1)).to_string(), "i64[]");
    assert_eq!(s.apply(&v(4)).to_string(), "(i64, i64[])");
    assert_eq!(s.apply(&InferType::Tuple(vec![v(2), v(3)])).to_string(), "(i64, i64[])");
}

#[test]
fn bindings_are_followed_to_their_ends() {
    let mut first = Substitution::new();
    first.bind(TypeVar(1), InferType::Array(Box::new(v(2))));
    first.bind(TypeVar(2), InferType::Tuple(vec![v(3)]));
    let mut second = Substitution::new();
    second.bind(TypeVar(3), v(4));
    second.bind(TypeVar(4), i64_ty());
    let once = first.apply(&v(1));
    assert_eq!(once.to_string(), "(?t3)[]");
    assert_eq!(first.apply(&once).to_string(), "(?t3)[]");
    let both = first.compose(&second);
    assert_eq!(both.apply(&v(1)).to_string(), "(i64)[]");
    assert_eq!(second.apply(&once).to_string(), "(i64)[]");
}

#[test]
fn no_variable_is_bound_to_itself() {
    let mut s = Substitution::new();
    s.bind(TypeVar(1), i64_ty());
    s.bind(TypeVar(1), v(1));
    assert!(s.lookup(TypeVar(1)).is_none());
    assert!(s.is_empty());
}

#[test]
fn projections_have_placeholders_of_their_own() {
    let mut c = InferContext::new(
        TypeDefinitionRegistry::new(),
        TypeVarGenerator::new(),
        &Table::new(),
        vec![],
    );
    let item = c.fresh_assoc_projection_var(TypeVar(0), "Iterable", "Item");
    let other = c.fresh_assoc_projection_var(TypeVar(0), "Iterable", "Other");
    let field = c.fresh_row_field_var(TypeVar(0), "x");
    let again = c.fresh_assoc_projection_var(TypeVar(0), "Iterable", "Item");
    let elsewhere = c.fresh_assoc_projection_var(TypeVar(1), "Iterable", "Item");
    assert_eq!(item, again);
    assert_ne!(item, other);
    assert_ne!(item, elsewhere);
    assert_ne!(other, elsewhere);
    assert_eq!(c.fresh_row_field_var(TypeVar(0), "x"), field);
    assert_ne!(c.fresh_row_field_var(TypeVar(0), "y"), field);
    let log = c.take_recorded_assoc_projections();
    let recorded: Vec<TypeVar> = log.iter().map(|p| p.3).collect();
    assert_eq!(recorded, [item, other, elsewhere]);
    assert_eq!(log[1].2, "Other");
}

#[test]
fn two_instances_share_what_is_not_quantified() {
    let ty = InferType::Tuple(vec![v(1), v(2), v(1)]);
    let mut env: KeySet<TypeVar> = KeySet::new();
    env.insert(TypeVar(2));
    let scheme = generalize(ty, &env);
    let mut gen = TypeVarGenerator::with_counter(10);
    let first = instantiate(&scheme, &mut gen);
    let second = instantiate(&scheme, &mut gen);
    assert_eq!(first.to_string(), "(?t10, ?t2, ?t10)");
    assert_eq!(second.to_string(), "(?t11, ?t2, ?t11)");
    assert_eq!(gen.counter(), 12);
}

#[test]
fn variables_are_given_out_once() {
    let mut gen = TypeVarGenerator::new();
    let drawn: Vec<u32> = (0..4).map(|_| gen.fresh().0).collect();
    assert_eq!(drawn, [0, 1, 2, 3]);
}

#[test]
fn a_scope_leaves_nothing_behind() {
    let mut c = context();
    c.bind_mono("x".to_string(), v(7), true);
    c.push_scope();
    c.bind_mono("x".to_string(), v(8), false);
    c.bind_mono("y".to_string(), i64_ty(), true);
    c.bind_poly("f".to_string(), TypeScheme::mono(i64_ty()));
    c.bind_poly_if_absent("g".to_string(), TypeScheme::mono(i64_ty()));
    assert!(c.lookup_for_write("x", &sp()).is_err());
    c.pop_scope();
    assert_eq!(c.lookup_for_write("x", &sp()).unwrap().to_string(), "?t7");
    assert!(c.lookup_mono_raw("y").is_none());
    assert!(c.poly_scheme("f").is_none());
    assert!(!c.has_binding("g"));
    let vars = c.env_free_vars();
    assert!(vars.contains(&TypeVar(7)) && !vars.contains(&TypeVar(8)));
}

#[test]
fn solving_again_without_news_counts_nothing() {
    let mut c = context();
    c.add_constraint(v(1), i64_ty(), sp());
    c.add_constraint(v(2), v(1), sp());
    assert_eq!(c.solve().unwrap().apply(&v(2)).to_string(), "i64");
    assert_eq!(c.solve_stats().constraints_processed, 2);
    assert_eq!(c.solve().unwrap().apply(&v(2)).to_string(), "i64");
    let stats = c.solve_stats();
    assert_eq!((stats.solve_calls, stats.constraints_processed), (2, 2));
    c.add_constraint(v(2), InferType::str(), sp());
    assert!(c.solve().is_err());
    assert!(c.solve().is_err());
    let stats = c.solve_stats();
    assert_eq!((stats.solve_calls, stats.constraints_processed), (4, 2));
}

#[test]
fn variables_are_numbered_as_they_are_met() {
    let a = InferType::Tuple(vec![v(30), InferType::Array(Box::new(v(5))), v(30)]);
    let b = InferType::Named("Map".to_string(), vec![v(7), v(5)]);
    let shown = render_types(&vec![&a, &b], &Table::new());
    assert_eq!(shown, ["(?1, ?2[], ?1)", "Map<?3, ?2>"]);
}
