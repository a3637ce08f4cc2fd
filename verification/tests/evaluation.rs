use metel::ast::{ReceiverKind, Span};
use metel::calling::{body_answer, CalledBody};
use metel::display::{FloatText, Piece};
use metel::environment::Stop;
use metel::error::{MetelError, RuntimeErrorCode};
use metel::evaluator::{eval_expr, float_answer, Signal};
use metel::host::{History, Host, IoValue, Reply, Task};
use metel::inspect::inspect;
use metel::machine::Machine;
use metel::native_keys::NativeKey;
use metel::operators::FloatTask;
use metel::program::{
    evaluate_graph, evaluate_graph_with_options, main_answer, EvaluationOptions,
    ResolvedImportRef, TypedModule,
};
use metel::runtime::RuntimeRegistry;
use metel::store::{Environment, Store};
use metel::symbols::{SymbolId, VariantId, OVERLOAD_SYM_START};
use metel::type_expr::TypeExpr;
use metel::typed_ast::{
    AssignOp, BinOp, BindingId, CaptureSpec, ClosureBody, FunBody, GenericBody, Literal,
    MethodDispatch, Param, TypedBinding, TypedBlock, TypedClosure, TypedDecl, TypedExpr, TypedFor,
    TypedForIn, TypedForInit, TypedFunDecl, TypedImplBlock, TypedMatch, TypedMatchArm,
    TypedPattern, TypedPlace, TypedStmt, TypedWhile, UnaryOp,
};
use metel::types::{CallMutation, Type};
use metel::values::{FloatKind, LocalId, Value};
use std::rc::Rc;

const FUEL: u64 = 10_000;

struct Console {
    out: String,
    errors: String,
    nanos: u64,
    bodies: Vec<(String, Rc<TypedBlock>)>,
}

fn console() -> Console {
    Console {
        out: String::new(),
        errors: String::new(),
        nanos: 0,
        bodies: vec![],
    }
}

fn float_text(f: &FloatText) -> String {
    match f.kind {
        FloatKind::F64 => {
            let x = f64::from_bits(f.bits);
            if f.whole && x.fract() == 0.0 && x.is_finite() {
                format!("{x:.0}")
            } else {
                format!("{x}")
            }
        }
        FloatKind::F32 => format!("{}", f32::from_bits(f.bits as u32)),
    }
}

fn text(pieces: &[Piece]) -> String {
    pieces
        .iter()
        .map(|p| match p {
            Piece::Text(s) => s.clone(),
            Piece::Float(f) => float_text(f),
        })
        .collect()
}

fn float_op(t: &FloatTask) -> u64 {
    let a = f64::from_bits(t.left);
    let b = f64::from_bits(t.right);
    match t.op {
        BinOp::Add => (a + b).to_bits(),
        BinOp::Sub => (a - b).to_bits(),
        BinOp::Mul => (a * b).to_bits(),
        BinOp::Div => (a / b).to_bits(),
        _ => (a % b).to_bits(),
    }
}

impl Host for Console {
    // Only contracts speak of this.
    fn history(&self) -> History {
        unreachable!()
    }

    fn perform(&mut self, _store: &Store, task: Task) -> Reply {
        match task {
            Task::Print { text: pieces, newline } => {
                self.out.push_str(&text(&pieces));
                if newline {
                    self.out.push('\n');
                }
                Reply::Done
            }
            Task::PrintError(pieces) => {
                self.errors.push_str(&text(&pieces));
                self.errors.push('\n');
                Reply::Done
            }
            Task::Text(pieces) => Reply::Text(text(&pieces)),
            Task::Clock => Reply::Int(1234),
            Task::Nanos => {
                self.nanos += 10;
                Reply::Bits(self.nanos)
            }
            Task::EnvVar(name) => Reply::MaybeText(if name == "HOME" {
                Some("/home".to_string())
            } else {
                None
            }),
            Task::ReadToString(path) => Reply::Io(if path == "there" {
                Ok(IoValue::Text("contents".to_string()))
            } else {
                Err("no such file".to_string())
            }),
            Task::FloatOp(t) => Reply::Bits(float_op(&t)),
            Task::Construct(call) => Reply::Body(
                self.bodies
                    .iter()
                    .find(|(n, _)| *n == call.name)
                    .map(|(_, b)| Ok(b.clone())),
            ),
            _ => Reply::Done,
        }
    }
}

fn sp() -> Span {
    Span::new(0, 0, "t")
}

fn num(n: i64) -> Rc<TypedExpr> {
    Rc::new(TypedExpr::Literal(Literal::Int(n), Type::I64, sp()))
}

fn unsigned(n: i128) -> Rc<TypedExpr> {
    Rc::new(TypedExpr::Literal(
        Literal::SizedInt {
            value: n,
            kind: metel::values::IntKind::U64,
        },
        Type::U64,
        sp(),
    ))
}

fn string(s: &str) -> Rc<TypedExpr> {
    Rc::new(TypedExpr::Literal(Literal::Str(s.to_string()), Type::Str, sp()))
}

fn boolean(b: bool) -> Rc<TypedExpr> {
    Rc::new(TypedExpr::Literal(Literal::Boolean(b), Type::Boolean, sp()))
}

fn name(n: &str) -> Rc<TypedExpr> {
    Rc::new(TypedExpr::Ident(n.to_string(), None, Type::I64, sp()))
}

fn local(n: &str, id: u64) -> Rc<TypedExpr> {
    Rc::new(TypedExpr::Ident(
        n.to_string(),
        Some(BindingId::Local(LocalId(id))),
        Type::I64,
        sp(),
    ))
}

fn bin(a: Rc<TypedExpr>, op: BinOp, b: Rc<TypedExpr>) -> Rc<TypedExpr> {
    Rc::new(TypedExpr::BinOp(a, op, b, Type::I64, sp()))
}

fn call(f: Rc<TypedExpr>, args: Vec<Rc<TypedExpr>>) -> Rc<TypedExpr> {
    Rc::new(TypedExpr::Call {
        callee: f,
        args,
        ty: Type::I64,
        callee_id: None,
        span: sp(),
    })
}

fn stmt(e: Rc<TypedExpr>) -> TypedDecl {
    TypedDecl::Stmt(TypedStmt::Expr(e))
}

fn var(n: &str, id: u64, value: Rc<TypedExpr>) -> TypedDecl {
    TypedDecl::Mut(TypedBinding {
        name: n.to_string(),
        value,
        def_id: None,
        local_id: Some(LocalId(id)),
    })
}

fn block(stmts: Vec<TypedDecl>, tail: Option<Rc<TypedExpr>>) -> Rc<TypedBlock> {
    Rc::new(TypedBlock { stmts, tail })
}

fn body(stmts: Vec<TypedDecl>, tail: Rc<TypedExpr>) -> Rc<TypedExpr> {
    Rc::new(TypedExpr::If {
        condition: boolean(true),
        then_branch: block(stmts, Some(tail)),
        else_branch: None,
        ty: Type::I64,
        span: sp(),
    })
}

fn assign(place: TypedPlace, op: AssignOp, value: Rc<TypedExpr>) -> TypedDecl {
    stmt(Rc::new(TypedExpr::Assign {
        target: Rc::new(place),
        op,
        value,
        span: sp(),
    }))
}

fn place(n: &str, id: u64) -> TypedPlace {
    TypedPlace::Ident(n.to_string(), Some(BindingId::Local(LocalId(id))), sp())
}

fn param(n: &str) -> Param {
    Param {
        name: n.to_string(),
        type_ann: None,
        receiver: None,
    }
}

fn fun(n: &str, params: Vec<&str>, b: FunBody) -> TypedFunDecl {
    TypedFunDecl {
        name: n.to_string(),
        param_ids: params.iter().map(|_| None).collect(),
        params: params.into_iter().map(param).collect(),
        return_type: None,
        body: b,
        symbol_id: None,
        def_id: None,
        local_id: None,
    }
}

fn run(e: Rc<TypedExpr>) -> Result<Value, String> {
    run_in(e, &mut console())
}

fn run_in(e: Rc<TypedExpr>, host: &mut Console) -> Result<Value, String> {
    let mut m = Machine::new(false);
    let mut env = Environment::new();
    let runtime = RuntimeRegistry::new();
    match eval_expr(&e, &mut env, &runtime, &mut m, host, FUEL) {
        Ok(Signal::Value(v)) => Ok(v),
        Ok(other) => Err(format!("{other:?}")),
        Err(e) => Err(format!("{e:?}")),
    }
}

fn number(e: Rc<TypedExpr>) -> i64 {
    match run(e) {
        Ok(Value::I64(n)) => n,
        other => panic!("{other:?}"),
    }
}

fn fails_with(e: Rc<TypedExpr>, what: &str) {
    match run(e) {
        Err(text) => assert!(text.contains(what), "{text}"),
        Ok(v) => panic!("{v:?}"),
    }
}

#[test]
fn arithmetic_is_done_on_integers() {
    assert_eq!(number(bin(num(2), BinOp::Add, bin(num(3), BinOp::Mul, num(4)))), 14);
    assert_eq!(number(bin(num(-7), BinOp::Div, num(2))), -3);
    assert_eq!(number(bin(num(-7), BinOp::Rem, num(2))), -1);
}

#[test]
fn dividing_by_nothing_is_an_error() {
    fails_with(bin(num(1), BinOp::Div, num(0)), "R0007");
}

#[test]
fn floats_are_the_hosts_business() {
    let half = Rc::new(TypedExpr::Literal(
        Literal::Float {
            double: 0.5f64.to_bits(),
            single: 0.5f32.to_bits(),
        },
        Type::F64,
        sp(),
    ));
    match run(bin(half.clone(), BinOp::Add, half)) {
        Ok(Value::F64(bits)) => assert_eq!(f64::from_bits(bits), 1.0),
        other => panic!("{other:?}"),
    }
}

#[test]
fn logical_operators_stop_early() {
    let broken = bin(num(1), BinOp::Div, num(0));
    assert!(matches!(
        run(bin(boolean(false), BinOp::And, broken.clone())),
        Ok(Value::Boolean(false))
    ));
    assert!(matches!(
        run(bin(boolean(true), BinOp::Or, broken.clone())),
        Ok(Value::Boolean(true))
    ));
    fails_with(bin(boolean(true), BinOp::And, broken), "R0007");
    fails_with(
        bin(num(1), BinOp::And, boolean(true)),
        "&&: expected boolean (typechecker should have caught this)",
    );
}

#[test]
fn unknown_names_are_errors() {
    fails_with(name("nothing"), "R0003");
}

#[test]
fn variables_are_found_by_identity_before_name() {
    let e = body(
        vec![var("n", 1, num(10)), var("n", 2, num(20))],
        bin(local("n", 1), BinOp::Sub, local("n", 2)),
    );
    assert_eq!(number(e), -10);
}

#[test]
fn loops_go_round_until_they_are_left() {
    let count = TypedWhile {
        condition: bin(name("i"), BinOp::Lt, num(5)),
        body: block(
            vec![
                assign(place("sum", 2), AssignOp::AddAssign, name("i")),
                assign(place("i", 1), AssignOp::AddAssign, num(1)),
            ],
            None,
        ),
    };
    let e = body(
        vec![
            var("i", 1, num(0)),
            var("sum", 2, num(0)),
            TypedDecl::Stmt(TypedStmt::While(Rc::new(count))),
        ],
        name("sum"),
    );
    assert_eq!(number(e), 10);
}

#[test]
fn a_loop_has_the_value_that_it_is_left_with() {
    let e = Rc::new(TypedExpr::Loop {
        body: block(
            vec![stmt(Rc::new(TypedExpr::Break(Some(num(42)), sp())))],
            None,
        ),
        ty: Type::I64,
        span: sp(),
    });
    assert_eq!(number(e), 42);
}

#[test]
fn a_loop_without_end_is_told() {
    let e = Rc::new(TypedExpr::Loop {
        body: block(vec![], None),
        ty: Type::I64,
        span: sp(),
    });
    fails_with(e, "Endless");
}

#[test]
fn for_loops_have_a_scope_of_their_own() {
    let f = TypedFor {
        init: Some(TypedForInit::Mut(TypedBinding {
            name: "i".to_string(),
            value: num(0),
            def_id: None,
            local_id: Some(LocalId(7)),
        })),
        condition: Some(bin(name("i"), BinOp::Lt, num(4))),
        step: Some(Rc::new(TypedExpr::Assign {
            target: Rc::new(place("i", 7)),
            op: AssignOp::AddAssign,
            value: num(1),
            span: sp(),
        })),
        body: block(
            vec![assign(place("sum", 2), AssignOp::AddAssign, name("i"))],
            None,
        ),
    };
    let sum = body(
        vec![var("sum", 2, num(0)), TypedDecl::Stmt(TypedStmt::For(Rc::new(f)))],
        name("sum"),
    );
    assert_eq!(number(sum), 6);
}

fn for_in(over: Rc<TypedExpr>) -> Rc<TypedExpr> {
    let f = TypedForIn {
        binding: "x".to_string(),
        binding_id: None,
        iterable: over,
        body: block(
            vec![assign(place("sum", 2), AssignOp::AddAssign, name("x"))],
            None,
        ),
        span: sp(),
    };
    body(
        vec![var("sum", 2, num(0)), TypedDecl::Stmt(TypedStmt::ForIn(Rc::new(f)))],
        name("sum"),
    )
}

#[test]
fn arrays_and_ranges_are_gone_through() {
    let array = Rc::new(TypedExpr::Array(
        vec![num(1), num(2), num(3)],
        Type::Array(Box::new(Type::I64)),
        sp(),
    ));
    assert_eq!(number(for_in(array)), 6);
    assert_eq!(number(for_in(bin(num(1), BinOp::Range, num(4)))), 6);
    assert_eq!(number(for_in(bin(num(1), BinOp::RangeInclusive, num(4)))), 10);
    fails_with(for_in(num(3)), "for-in: expected Array, Range, or Iterable value");
}

#[test]
fn indexes_are_checked() {
    let array = || {
        Rc::new(TypedExpr::Array(
            vec![num(1), num(2)],
            Type::Array(Box::new(Type::I64)),
            sp(),
        ))
    };
    let at = |i: Rc<TypedExpr>| {
        Rc::new(TypedExpr::Index {
            object: array(),
            index: i,
            ty: Type::I64,
            span: sp(),
        })
    };
    assert_eq!(number(at(unsigned(1))), 2);
    fails_with(at(unsigned(2)), "index 2 out of bounds (len 2)");
    fails_with(at(num(1)), "index: expected u64 index");
}

#[test]
fn tuples_have_elements() {
    let access = |i: usize| {
        Rc::new(TypedExpr::TupleAccess {
            object: Rc::new(TypedExpr::Tuple(vec![num(4), num(5)], Type::Unit, sp())),
            index: i,
            ty: Type::I64,
            span: sp(),
        })
    };
    assert_eq!(number(access(1)), 5);
    fails_with(access(2), "tuple index 2 out of bounds");
}

fn point(x: i64) -> Rc<TypedExpr> {
    Rc::new(TypedExpr::StructLiteral {
        path: vec!["Point".to_string()],
        fields: vec![("x".to_string(), num(x)), ("y".to_string(), num(0))],
        type_id: Some(SymbolId(100)),
        variant_id: None,
        ty: Type::Unit,
        span: sp(),
    })
}

fn field(object: Rc<TypedExpr>, f: &str) -> Rc<TypedExpr> {
    Rc::new(TypedExpr::FieldAccess {
        object,
        field: f.to_string(),
        ty: Type::I64,
        span: sp(),
    })
}

#[test]
fn fields_are_read_and_assigned() {
    assert_eq!(number(field(point(3), "x")), 3);
    fails_with(field(point(3), "z"), "no field `z` on value");
    fails_with(field(num(3), "z"), "field access on non-record/struct/enum");
    let e = body(
        vec![
            var("p", 1, point(3)),
            assign(
                TypedPlace::Field {
                    object: Rc::new(place("p", 1)),
                    field: "x".to_string(),
                    span: sp(),
                },
                AssignOp::MulAssign,
                num(5),
            ),
        ],
        field(name("p"), "x"),
    );
    assert_eq!(number(e), 15);
}

#[test]
fn references_lead_to_one_cell() {
    let e = body(
        vec![
            var("n", 1, num(1)),
            var(
                "r",
                2,
                Rc::new(TypedExpr::UnaryOp(UnaryOp::RefMut, local("n", 1), Type::I64, sp())),
            ),
            assign(
                TypedPlace::Deref {
                    object: name("r"),
                    span: sp(),
                },
                AssignOp::Assign,
                num(9),
            ),
        ],
        name("n"),
    );
    assert_eq!(number(e), 9);
}

#[test]
fn arrays_are_values() {
    let array = Rc::new(TypedExpr::Array(
        vec![num(1), num(2)],
        Type::Array(Box::new(Type::I64)),
        sp(),
    ));
    let e = body(
        vec![
            var("a", 1, array),
            var("b", 2, local("a", 1)),
            assign(
                TypedPlace::Index {
                    object: Rc::new(place("b", 2)),
                    index: unsigned(0),
                    span: sp(),
                },
                AssignOp::Assign,
                num(50),
            ),
        ],
        bin(
            Rc::new(TypedExpr::Index {
                object: name("a"),
                index: unsigned(0),
                ty: Type::I64,
                span: sp(),
            }),
            BinOp::Add,
            Rc::new(TypedExpr::Index {
                object: name("b"),
                index: unsigned(0),
                ty: Type::I64,
                span: sp(),
            }),
        ),
    );
    assert_eq!(number(e), 51);
}

fn matching(v: Rc<TypedExpr>, arms: Vec<(TypedPattern, Option<Rc<TypedExpr>>, i64)>) -> Rc<TypedExpr> {
    Rc::new(TypedExpr::Match(Rc::new(TypedMatch {
        scrutinee: v,
        arms: arms
            .into_iter()
            .map(|(pattern, guard, n)| TypedMatchArm {
                pattern,
                guard,
                body: block(vec![], Some(num(n))),
            })
            .collect(),
        ty: Type::I64,
        span: sp(),
    })))
}

#[test]
fn the_first_arm_that_fits_is_taken() {
    let literal = |n: i64| TypedPattern::Literal(Literal::Int(n), sp());
    let bound = || TypedPattern::Binding("x".to_string(), None, sp());
    let arms = || {
        vec![
            (literal(1), None, 10),
            (bound(), Some(bin(name("x"), BinOp::Gt, num(5))), 20),
            (bound(), Some(bin(name("x"), BinOp::Lt, num(4))), 30),
        ]
    };
    assert_eq!(number(matching(num(1), arms())), 10);
    assert_eq!(number(matching(num(6), arms())), 20);
    assert_eq!(number(matching(num(2), arms())), 30);
    fails_with(matching(num(5), arms()), "match: no arm matched scrutinee");
}

#[test]
fn a_variant_with_one_field_can_be_taken_as_that() {
    let variant = Rc::new(TypedExpr::StructLiteral {
        path: vec!["Only".to_string(), "One".to_string()],
        fields: vec![("value".to_string(), num(8))],
        type_id: None,
        variant_id: Some(VariantId(3)),
        ty: Type::Unit,
        span: sp(),
    });
    let e = Rc::new(TypedExpr::SingletonCoerce {
        inner: variant,
        field: "value".to_string(),
        ty: Type::I64,
        span: sp(),
    });
    assert_eq!(number(e), 8);
}

fn closure(captures: Vec<CaptureSpec>, ids: Vec<Option<LocalId>>, b: Rc<TypedBlock>, mutation: CallMutation) -> Rc<TypedExpr> {
    Rc::new(TypedExpr::Closure(Rc::new(TypedClosure {
        name: None,
        captures,
        capture_ids: ids,
        call_mutation: mutation,
        params: vec![],
        param_ids: vec![],
        body: ClosureBody::Typed(b),
        ty: None,
        span: sp(),
    })))
}

#[test]
fn closures_capture_by_value_or_by_reference() {
    let by = |capture: CaptureSpec| {
        let c = closure(
            vec![capture],
            vec![Some(LocalId(1))],
            block(
                vec![assign(place("n", 1), AssignOp::AddAssign, num(1))],
                Some(name("n")),
            ),
            CallMutation::Mutating,
        );
        body(
            vec![
                var("n", 1, num(0)),
                var("f", 2, c),
                stmt(call(name("f"), vec![])),
                stmt(call(name("f"), vec![])),
            ],
            name("n"),
        )
    };
    assert_eq!(
        number(by(CaptureSpec::MutRef {
            name: "n".to_string(),
            span: sp()
        })),
        2
    );
    assert_eq!(
        number(by(CaptureSpec::Owned {
            name: "n".to_string(),
            span: sp()
        })),
        0
    );
}

#[test]
fn a_closure_that_changes_its_state_is_not_entered_twice() {
    let again = closure(
        vec![],
        vec![],
        block(vec![], Some(call(name("f"), vec![]))),
        CallMutation::Mutating,
    );
    let e = body(
        vec![
            var("f", 1, num(0)),
            assign(place("f", 1), AssignOp::Assign, again),
            assign(
                place("f", 1),
                AssignOp::Assign,
                closure(
                    vec![CaptureSpec::MutRef {
                        name: "f".to_string(),
                        span: sp(),
                    }],
                    vec![Some(LocalId(1))],
                    block(vec![], Some(call(name("f"), vec![]))),
                    CallMutation::Mutating,
                ),
            ),
        ],
        call(name("f"), vec![]),
    );
    fails_with(e, "re-entrant call to a mutating closure");
}

#[test]
fn what_is_no_function_cannot_be_called() {
    fails_with(call(num(1), vec![]), "call: expected a closure or builtin, got Discriminant(0)");
    fails_with(
        call(Rc::new(TypedExpr::Tuple(vec![], Type::Unit, sp())), vec![]),
        "Discriminant(14)",
    );
    let unit = Rc::new(TypedExpr::Literal(Literal::Unit, Type::Unit, sp()));
    fails_with(call(unit, vec![]), "call: target is Unit, not a function");
}

fn nested(decls: Vec<TypedDecl>, tail: Rc<TypedExpr>) -> Rc<TypedExpr> {
    body(decls, tail)
}

#[test]
fn functions_of_a_block_see_each_other() {
    let mut even = fun(
        "even",
        vec!["n"],
        FunBody::Typed(block(
            vec![],
            Some(Rc::new(TypedExpr::If {
                condition: bin(name("n"), BinOp::Eq, num(0)),
                then_branch: block(vec![], Some(num(1))),
                else_branch: Some(block(
                    vec![],
                    Some(call(name("odd"), vec![bin(name("n"), BinOp::Sub, num(1))])),
                )),
                ty: Type::I64,
                span: sp(),
            })),
        )),
    );
    even.local_id = Some(LocalId(1));
    let mut odd = fun(
        "odd",
        vec!["n"],
        FunBody::Typed(block(
            vec![],
            Some(Rc::new(TypedExpr::If {
                condition: bin(name("n"), BinOp::Eq, num(0)),
                then_branch: block(vec![], Some(num(0))),
                else_branch: Some(block(
                    vec![],
                    Some(call(name("even"), vec![bin(name("n"), BinOp::Sub, num(1))])),
                )),
                ty: Type::I64,
                span: sp(),
            })),
        )),
    );
    odd.local_id = Some(LocalId(2));
    let e = nested(
        vec![TypedDecl::Fun(Rc::new(even)), TypedDecl::Fun(Rc::new(odd))],
        call(name("even"), vec![num(7)]),
    );
    assert_eq!(number(e), 0);
}

#[test]
fn a_function_beside_variables_is_made_when_it_is_called() {
    let mut later = fun("later", vec![], FunBody::Typed(block(vec![], Some(name("n")))));
    later.local_id = Some(LocalId(9));
    let e = nested(
        vec![
            var("n", 1, num(33)),
            var("early", 2, call(local("later", 9), vec![])),
            TypedDecl::Fun(Rc::new(later)),
        ],
        name("early"),
    );
    assert_eq!(number(e), 33);
}

#[test]
fn return_leaves_the_function_only() {
    let f = fun(
        "f",
        vec![],
        FunBody::Typed(block(
            vec![stmt(Rc::new(TypedExpr::Return(Some(num(5)), sp())))],
            Some(num(6)),
        )),
    );
    let e = nested(
        vec![TypedDecl::Fun(Rc::new(f))],
        bin(call(name("f"), vec![]), BinOp::Add, num(1)),
    );
    assert_eq!(number(e), 6);
}

fn module(path: &str, decls: Vec<TypedDecl>) -> TypedModule {
    TypedModule {
        path: vec![path.to_string()],
        decls,
        import_aliases: vec![],
        imported_names: vec![],
    }
}

fn native(n: &str, key: NativeKey) -> TypedDecl {
    TypedDecl::Fun(Rc::new(fun(n, vec!["x"], FunBody::Native(key))))
}

fn main_of(stmts: Vec<TypedDecl>) -> TypedDecl {
    TypedDecl::Fun(Rc::new(fun("main", vec![], FunBody::Typed(block(stmts, None)))))
}

fn run_program(modules: &Vec<TypedModule>, host: &mut Console) -> Result<(), Stop> {
    let core = vec![native("println", NativeKey::StdCorePrintln)];
    let mut m = Machine::new(false);
    evaluate_graph(modules, &core, &mut m, host, FUEL)
}

#[test]
fn programs_print() {
    let mut host = console();
    let modules = vec![module(
        "app",
        vec![main_of(vec![stmt(call(name("println"), vec![string("hello")]))])],
    )];
    run_program(&modules, &mut host).unwrap();
    assert_eq!(host.out, "hello\n");
}

#[test]
fn modules_are_initialised_in_order_and_import_from_each_other() {
    let mut lib = module("lib", vec![]);
    lib.decls.push(TypedDecl::Let(TypedBinding {
        name: "answer".to_string(),
        value: num(42),
        def_id: Some(SymbolId(500)),
        local_id: None,
    }));
    let mut app = module(
        "app",
        vec![main_of(vec![stmt(call(
            name("println"),
            vec![Rc::new(TypedExpr::If {
                condition: bin(name("theirs"), BinOp::Eq, name("again")),
                then_branch: block(vec![], Some(string("same"))),
                else_branch: None,
                ty: Type::Str,
                span: sp(),
            })],
        ))])],
    );
    app.imported_names.push((
        "theirs".to_string(),
        ResolvedImportRef {
            source_module: vec!["lib".to_string()],
            canonical_name: "answer".to_string(),
        },
    ));
    app.import_aliases.push(("again".to_string(), "theirs".to_string()));
    let mut host = console();
    run_program(&vec![lib, app], &mut host).unwrap();
    assert_eq!(host.out, "same\n");
}

#[test]
fn a_program_needs_a_main() {
    let mut host = console();
    let text = format!("{:?}", run_program(&vec![module("app", vec![])], &mut host));
    assert!(text.contains("no main() function defined"), "{text}");
    assert!(text.contains("R0001"), "{text}");
    let text = format!("{:?}", run_program(&vec![], &mut host));
    assert!(text.contains("root module not found"), "{text}");
    let odd = module(
        "app",
        vec![TypedDecl::Let(TypedBinding {
            name: "main".to_string(),
            value: num(1),
            def_id: None,
            local_id: None,
        })],
    );
    let text = format!("{:?}", run_program(&vec![odd], &mut host));
    assert!(text.contains("`main` is not a function"), "{text}");
}

#[test]
fn errors_carry_the_calls_that_led_to_them() {
    let f = fun(
        "f",
        vec![],
        FunBody::Typed(block(vec![], Some(bin(num(1), BinOp::Div, num(0))))),
    );
    let g = fun("g", vec![], FunBody::Typed(block(vec![], Some(call(name("f"), vec![])))));
    let modules = vec![module(
        "app",
        vec![
            TypedDecl::Fun(Rc::new(f)),
            TypedDecl::Fun(Rc::new(g)),
            main_of(vec![stmt(call(name("g"), vec![]))]),
        ],
    )];
    match run_program(&modules, &mut console()) {
        Err(Stop::Error(MetelError::RuntimePanic { code, stack, .. })) => {
            assert_eq!(code, RuntimeErrorCode::R0007);
            let names: Vec<&str> = stack.iter().map(|f| f.fn_name.as_str()).collect();
            assert_eq!(names, ["g", "f"]);
        }
        other => panic!("{other:?}"),
    }
}

#[test]
fn a_generic_body_is_typed_by_the_host() {
    let generic = fun("id", vec!["x"], FunBody::Generic(GenericBody(0)));
    let modules = vec![module(
        "app",
        vec![
            TypedDecl::Fun(Rc::new(generic)),
            main_of(vec![stmt(call(
                name("println"),
                vec![call(name("id"), vec![string("generic")])],
            ))]),
        ],
    )];
    let mut host = console();
    let text = format!("{:?}", run_program(&modules, &mut host));
    assert!(
        text.contains("generic closure `id` has no type context — construction-at-call-time unavailable"),
        "{text}"
    );
    host.bodies.push(("id".to_string(), block(vec![], Some(name("x")))));
    run_program(&modules, &mut host).unwrap();
    assert_eq!(host.out, "generic\n");
}

#[test]
fn methods_are_found_by_the_type_of_the_receiver() {
    let mut receiver = param("self");
    receiver.receiver = Some(ReceiverKind::RefMut);
    let bump = TypedFunDecl {
        name: "bump".to_string(),
        params: vec![receiver],
        param_ids: vec![Some(LocalId(70))],
        return_type: None,
        body: FunBody::Typed(block(
            vec![assign(
                TypedPlace::Field {
                    object: Rc::new(TypedPlace::Ident(
                        "self".to_string(),
                        Some(BindingId::Local(LocalId(70))),
                        sp(),
                    )),
                    field: "x".to_string(),
                    span: sp(),
                },
                AssignOp::AddAssign,
                num(1),
            )],
            None,
        )),
        symbol_id: None,
        def_id: None,
        local_id: None,
    };
    let imp = TypedImplBlock {
        target_type: TypeExpr::Named("Point".to_string(), vec![]),
        target_type_id: Some(SymbolId(100)),
        aspect_name: None,
        aspect_id: None,
        aspect_type_args: vec![],
        methods: vec![Rc::new(bump)],
    };
    let method = |n: &str| {
        Rc::new(TypedExpr::MethodCall {
            receiver: local("p", 1),
            method: n.to_string(),
            args: vec![],
            ty: Type::Unit,
            dispatch: MethodDispatch::Inherent,
            span: sp(),
        })
    };
    let program = |n: &str| {
        vec![module(
            "app",
            vec![
                TypedDecl::Impl(Rc::new(TypedImplBlock {
                    target_type: TypeExpr::Named("Point".to_string(), vec![]),
                    target_type_id: imp.target_type_id,
                    aspect_name: None,
                    aspect_id: None,
                    aspect_type_args: vec![],
                    methods: imp.methods.clone(),
                })),
                main_of(vec![
                    var("p", 1, point(4)),
                    stmt(method(n)),
                    stmt(method(n)),
                    stmt(call(
                        name("println"),
                        vec![Rc::new(TypedExpr::If {
                            condition: bin(field(name("p"), "x"), BinOp::Eq, num(6)),
                            then_branch: block(vec![], Some(string("six"))),
                            else_branch: None,
                            ty: Type::Str,
                            span: sp(),
                        })],
                    )),
                ]),
            ],
        )]
    };
    let mut host = console();
    run_program(&program("bump"), &mut host).unwrap();
    assert_eq!(host.out, "six\n");
    let text = format!("{:?}", run_program(&program("jump"), &mut host));
    assert!(text.contains("method `jump` not found on this value"), "{text}");
}

#[test]
fn calls_by_identity_need_a_registered_function() {
    let by_id = |id: u32| {
        Rc::new(TypedExpr::Call {
            callee: name("f"),
            args: vec![],
            ty: Type::I64,
            callee_id: Some(SymbolId(id)),
            span: sp(),
        })
    };
    fails_with(
        by_id(77),
        "no runtime value registered for callable symbol SymbolId(77)",
    );
    fails_with(
        by_id(OVERLOAD_SYM_START),
        "no runtime value registered for overload symbol SymbolId(1073741824)",
    );
}

#[test]
fn profiles_count_calls() {
    let f = fun("f", vec![], FunBody::Typed(block(vec![], None)));
    let modules = vec![module(
        "app",
        vec![
            TypedDecl::Fun(Rc::new(f)),
            main_of(vec![stmt(call(name("f"), vec![])), stmt(call(name("f"), vec![]))]),
        ],
    )];
    let mut m = Machine::new(false);
    let report = evaluate_graph_with_options(
        &modules,
        &vec![],
        EvaluationOptions {
            collect_profile: true,
        },
        &mut m,
        &mut console(),
        FUEL,
    )
    .unwrap();
    let profile = report.profile.unwrap();
    let names: Vec<&str> = profile.functions.iter().map(|f| f.function.as_str()).collect();
    assert_eq!(names, ["f", "main"]);
    assert_eq!(profile.functions[0].calls, 2);
    assert_eq!(profile.functions[0].inclusive_ns, 20);
    assert_eq!(profile.functions[1].calls, 1);
    assert_eq!(profile.functions[1].inclusive_ns, 50);
    assert_eq!(profile.functions[1].self_ns, 30);
    assert_eq!(profile.edges.len(), 2);
    assert_eq!(profile.edges[0].caller, None);
    assert_eq!(profile.edges[1].caller.as_deref(), Some("main"));
    assert_eq!(profile.edges[1].calls, 2);
}

#[test]
fn without_asking_there_is_no_profile() {
    let modules = vec![module("app", vec![main_of(vec![])])];
    let mut m = Machine::new(true);
    let report = evaluate_graph_with_options(
        &modules,
        &vec![],
        EvaluationOptions::default(),
        &mut m,
        &mut console(),
        FUEL,
    )
    .unwrap();
    assert!(report.profile.is_none());
}

#[test]
fn a_jump_out_of_main_is_an_error() {
    let modules = vec![module(
        "app",
        vec![main_of(vec![stmt(Rc::new(TypedExpr::Continue(sp())))])],
    )];
    let text = format!("{:?}", run_program(&modules, &mut console()));
    assert!(text.contains("unexpected signal from main(): Continue"), "{text}");
    let modules = vec![module(
        "app",
        vec![main_of(vec![stmt(Rc::new(TypedExpr::Break(Some(num(3)), sp())))])],
    )];
    let text = format!("{:?}", run_program(&modules, &mut console()));
    assert!(text.contains("unexpected signal from main(): Break(I64(3))"), "{text}");
}

#[test]
fn module_level_variables_are_shared_with_functions() {
    let bump = fun(
        "bump",
        vec![],
        FunBody::Typed(block(
            vec![stmt(Rc::new(TypedExpr::Assign {
                target: Rc::new(TypedPlace::Ident(
                    "counter".to_string(),
                    Some(BindingId::Global(SymbolId(900))),
                    sp(),
                )),
                op: AssignOp::AddAssign,
                value: num(1),
                span: sp(),
            }))],
            None,
        )),
    );
    let counter = TypedDecl::Mut(TypedBinding {
        name: "counter".to_string(),
        value: num(0),
        def_id: Some(SymbolId(900)),
        local_id: None,
    });
    let modules = vec![module(
        "app",
        vec![
            TypedDecl::Fun(Rc::new(bump)),
            counter,
            main_of(vec![
                stmt(call(name("bump"), vec![])),
                stmt(call(name("bump"), vec![])),
                stmt(call(
                    name("println"),
                    vec![Rc::new(TypedExpr::If {
                        condition: bin(name("counter"), BinOp::Eq, num(2)),
                        then_branch: block(vec![], Some(string("two"))),
                        else_branch: None,
                        ty: Type::Str,
                        span: sp(),
                    })],
                )),
            ]),
        ],
    )];
    let mut host = console();
    run_program(&modules, &mut host).unwrap();
    assert_eq!(host.out, "two\n");
}

#[test]
fn deeper_runs_come_to_the_same_end() {
    let mut e = num(1);
    for k in 2..12 {
        e = bin(e, BinOp::Add, num(k));
    }
    let at = |fuel: u64| {
        let mut m = Machine::new(false);
        let mut env = Environment::new();
        let runtime = RuntimeRegistry::new();
        match eval_expr(&e, &mut env, &runtime, &mut m, &mut console(), fuel) {
            Ok(Signal::Value(Value::I64(n))) => Some(n),
            Ok(other) => panic!("{other:?}"),
            Err(stop) => {
                assert_eq!(format!("{stop:?}"), "Endless");
                None
            }
        }
    };
    assert_eq!(at(5), None);
    assert_eq!(at(11), Some(66));
    assert_eq!(at(12), Some(66));
    assert_eq!(at(FUEL), Some(66));
}

#[test]
fn calls_that_return_leave_nothing_open() {
    let f = fun("f", vec![], FunBody::Typed(block(vec![], Some(num(1)))));
    let modules = vec![module(
        "app",
        vec![
            TypedDecl::Fun(Rc::new(f)),
            main_of(vec![stmt(call(name("f"), vec![]))]),
        ],
    )];
    let mut m = Machine::new(false);
    evaluate_graph(&modules, &vec![], &mut m, &mut console(), FUEL).unwrap();
    assert!(m.stack.is_empty());
}

fn code_of(e: Rc<TypedExpr>) -> RuntimeErrorCode {
    let mut m = Machine::new(false);
    let mut env = Environment::new();
    match eval_expr(&e, &mut env, &RuntimeRegistry::new(), &mut m, &mut console(), FUEL) {
        Err(Stop::Error(MetelError::RuntimePanic { code, .. })) => code,
        other => panic!("{other:?}"),
    }
}

#[test]
fn each_failure_has_its_code() {
    let unit = Rc::new(TypedExpr::Literal(Literal::Unit, Type::Unit, sp()));
    assert_eq!(code_of(call(unit, vec![])), RuntimeErrorCode::R0002);
    assert_eq!(code_of(name("nothing")), RuntimeErrorCode::R0003);
    let array = Rc::new(TypedExpr::Array(
        vec![num(1)],
        Type::Array(Box::new(Type::I64)),
        sp(),
    ));
    let past_the_end = Rc::new(TypedExpr::Index {
        object: array,
        index: unsigned(1),
        ty: Type::I64,
        span: sp(),
    });
    assert_eq!(code_of(past_the_end), RuntimeErrorCode::R0004);
    let no_element = Rc::new(TypedExpr::TupleAccess {
        object: Rc::new(TypedExpr::Tuple(vec![num(4)], Type::Unit, sp())),
        index: 1,
        ty: Type::I64,
        span: sp(),
    });
    assert_eq!(code_of(no_element), RuntimeErrorCode::R0005);
    assert_eq!(code_of(matching(num(1), vec![])), RuntimeErrorCode::R0006);
    assert_eq!(code_of(bin(num(1), BinOp::Rem, num(0))), RuntimeErrorCode::R0007);
    assert_eq!(code_of(field(point(1), "nowhere")), RuntimeErrorCode::R0008);
    assert_eq!(code_of(call(num(1), vec![])), RuntimeErrorCode::R0010);
    assert_eq!(code_of(for_in(num(1))), RuntimeErrorCode::R0011);
}

#[test]
fn the_least_number_has_no_remainder_by_minus_one() {
    let e = bin(num(i64::MIN), BinOp::Rem, num(-1));
    let mut m = Machine::new(false);
    let mut env = Environment::new();
    let out = eval_expr(&e, &mut env, &RuntimeRegistry::new(), &mut m, &mut console(), FUEL);
    assert!(matches!(out, Err(Stop::Undefined)), "{out:?}");
}

#[test]
fn answers_about_numbers_and_bodies_are_read() {
    assert!(matches!(
        float_answer(FloatKind::F64, Reply::Bits(7)),
        Ok(Value::F64(7))
    ));
    assert!(matches!(
        float_answer(FloatKind::F32, Reply::Bits(7)),
        Ok(Value::F32(7))
    ));
    assert!(float_answer(FloatKind::F64, Reply::Done).is_err());
    let empty = block(vec![], None);
    assert!(matches!(
        body_answer(Reply::Body(Some(Ok(empty.clone()))), Stop::Endless),
        CalledBody::Block(_)
    ));
    assert!(matches!(
        body_answer(Reply::Body(None), Stop::Endless),
        CalledBody::Fails(Stop::Endless)
    ));
    let wrong = MetelError::internal("wrong".to_string());
    assert!(matches!(
        body_answer(Reply::Body(Some(Err(wrong))), Stop::Endless),
        CalledBody::Ends(Stop::Error(_))
    ));
    assert!(main_answer(Reply::Body(Some(Ok(empty)))).is_ok());
    let text = format!("{:?}", main_answer(Reply::Body(None)));
    assert!(text.contains("main() body could not be typed"), "{text}");
}

#[test]
fn operators_name_the_operands_that_they_do_not_apply_to() {
    fails_with(
        bin(num(1), BinOp::Add, boolean(true)),
        "binop: unsupported operand types (I64(1), Boolean(true)) (typechecker should have caught this)",
    );
    let pair = Rc::new(TypedExpr::Tuple(vec![num(-2), unsigned(3)], Type::Unit, sp()));
    fails_with(
        bin(pair, BinOp::Eq, point(4)),
        "(Tuple([I64(-2), U64(3)]), Struct { name: ",
    );
}

#[test]
fn a_shared_reference_gives_no_way_to_write() {
    let unary = |op: UnaryOp, e: Rc<TypedExpr>| {
        Rc::new(TypedExpr::UnaryOp(op, e, Type::I64, sp()))
    };
    let e = body(
        vec![
            var("n", 1, num(1)),
            var("r", 2, unary(UnaryOp::Ref, local("n", 1))),
        ],
        unary(UnaryOp::RefMut, unary(UnaryOp::Deref, name("r"))),
    );
    fails_with(e, "cannot take `&var` through a shared reference: Reference(CellId(");
}

#[test]
fn values_can_be_looked_into() {
    let shown = |v: Value| inspect(&v);
    assert_eq!(shown(Value::Char('a')), format!("{:?}", Value::Char('a')));
    assert_eq!(shown(Value::Char('\n')), format!("{:?}", Value::Char('\n')));
    assert_eq!(shown(Value::Str("a\"b".to_string())), "Str(\"a\\\"b\")");
    assert_eq!(shown(Value::Unit), "Unit");
    assert_eq!(shown(Value::U8(255)), "U8(255)");
    assert_eq!(shown(Value::F64(7)), "F64(bits 7)");
    let fields = vec![("x".to_string(), Value::I8(-1))];
    assert_eq!(shown(Value::Record { fields }), "Record { fields: {\"x\": I8(-1)} }");
    let some = Value::Enum {
        name: "Perhaps".to_string(),
        type_id: Some(SymbolId(3)),
        variant: "Some".to_string(),
        variant_id: None,
        fields: vec![("value".to_string(), Value::Boolean(false))],
    };
    assert_eq!(
        shown(some),
        "Enum { name: \"Perhaps\", type_id: Some(SymbolId(3)), variant: \"Some\", fields: {\"value\": Boolean(false)} }"
    );
    let mut store = Store::new();
    let cell = store.make_cell(Value::Unit);
    assert_eq!(shown(Value::MutReference(cell)), "MutReference(CellId(0))");
}
