use std::sync::Arc;

use skald::ast::Expression;
use skald::env::Env;
use skald::error::RuntimeError;
use skald::pattern::Pattern;
use skald::value::{Applicative, NativeProc, Primitive, Value};

fn boolean(b: bool) -> Value {
    Value::Simple(Primitive::Boolean(b))
}

fn constant(b: bool) -> Expression {
    Expression::Constant(Primitive::Boolean(b))
}

fn variable(name: &str) -> Expression {
    Expression::Variable(name.to_string())
}

fn application(fun: Expression, args: Vec<Expression>) -> Expression {
    Expression::Application { fun: Box::new(fun), expr_argv: args }
}

fn lambda(params: &[&str], body: Expression) -> Expression {
    Expression::Abstraction {
        params: params.iter().map(|s| s.to_string()).collect(),
        body: Arc::new(body),
    }
}

fn native(op: NativeProc) -> Value {
    Value::Function(Applicative::Primitive(op))
}

fn globals() -> Arc<Env> {
    Env::global()
        .bind_one("and".to_string(), native(NativeProc::And))
        .bind_one("or".to_string(), native(NativeProc::Or))
        .bind_one("not".to_string(), native(NativeProc::Not))
        .build()
}

fn eval_ok(expr: &Expression, env: &Arc<Env>) -> Value {
    expr.eval(env, 100).expect("fuel").expect("value")
}

fn eval_err(expr: &Expression, env: &Arc<Env>) -> RuntimeError {
    expr.eval(env, 100).expect("fuel").expect_err("error")
}

#[test]
fn lambda_application_with_native_and() {
    // ((lambda (x y) (and x y)) false true) evaluates to false.
    let expr = application(
        lambda(&["x", "y"], application(variable("and"), vec![variable("x"), variable("y")])),
        vec![constant(false), constant(true)],
    );
    assert_eq!(eval_ok(&expr, &globals()), boolean(false));
}

#[test]
fn tuple_constructor_evaluates_elements_in_scope() {
    let env = Env::global()
        .bind_one("x".to_string(), boolean(false))
        .bind_one("y".to_string(), boolean(true))
        .build();
    let expr = Expression::TupleConstructor(vec![variable("x"), variable("y")]);
    assert_eq!(eval_ok(&expr, &env), Value::Tuple(vec![boolean(false), boolean(true)]));
}

#[test]
fn match_implements_exclusive_or_truth_table() {
    let clause = |a: bool, b: bool, out: bool| {
        (
            Pattern::PTupleConstructor(vec![
                Pattern::PConstant(boolean(a)),
                Pattern::PConstant(boolean(b)),
            ]),
            constant(out),
        )
    };
    let expr = Expression::Match {
        term: Box::new(Expression::TupleConstructor(vec![variable("x"), variable("y")])),
        clauses: vec![
            clause(true, false, true),
            clause(true, true, false),
            clause(false, false, false),
            clause(false, true, true),
        ],
    };
    let env = Env::global()
        .bind_one("x".to_string(), boolean(false))
        .bind_one("y".to_string(), boolean(true))
        .build();
    assert_eq!(eval_ok(&expr, &env), boolean(true));
}

#[test]
fn unbound_identifier_reports_undefined() {
    let err = eval_err(&variable("z"), &Env::global().build());
    assert!(matches!(err, RuntimeError::Undefined { identifier } if identifier == "z"));
}

#[test]
fn applying_a_boolean_reports_not_applicative() {
    let expr = application(constant(true), vec![]);
    assert!(matches!(eval_err(&expr, &globals()), RuntimeError::NotApplicative));
}

#[test]
fn pattern_destructures_tuple_and_binds_variable() {
    let pattern = Pattern::PTupleConstructor(vec![
        Pattern::PConstant(boolean(true)),
        Pattern::PVariable("x".to_string()),
    ]);
    let matched = pattern
        .matches(&Value::Tuple(vec![boolean(true), boolean(false)]))
        .expect("should match");
    assert_eq!(matched.len(), 1);
    assert_eq!(matched[0].0, "x");
    assert_eq!(matched[0].1, boolean(false));
    assert!(pattern.matches(&Value::Tuple(vec![boolean(false), boolean(false)])).is_none());
}

#[test]
fn lookup_prefers_the_child_binding() {
    let parent = Env::global().bind_one("x".to_string(), boolean(true)).build();
    let child = Env::inside(&parent).bind_one("x".to_string(), boolean(false)).build();
    assert_eq!(child.get("x"), Some(boolean(false)));
    assert_eq!(parent.get("x"), Some(boolean(true)));
}

#[test]
fn later_binding_in_one_frame_wins() {
    let env = Env::global()
        .bind(vec![
            ("x".to_string(), boolean(true)),
            ("x".to_string(), boolean(false)),
        ])
        .build();
    assert_eq!(env.get("x"), Some(boolean(false)));
}

#[test]
fn lambda_arity_mismatch_reports_num_args() {
    let expr = application(
        lambda(&["x", "y"], variable("x")),
        vec![constant(true), constant(true), constant(true)],
    );
    let err = eval_err(&expr, &globals());
    assert!(matches!(err, RuntimeError::NumArgs { expected: 2, found: 3 }));
}

#[test]
fn applicative_apply_checks_arity_directly() {
    let f = eval_ok(&lambda(&["x"], variable("x")), &globals());
    let proc = f.get_applicative().expect("a function");
    let err = proc.apply(vec![], 100).expect("fuel").expect_err("arity error");
    assert!(matches!(err, RuntimeError::NumArgs { expected: 1, found: 0 }));
}

#[test]
fn native_and_rejects_non_boolean_argument() {
    let expr = application(
        variable("and"),
        vec![Expression::TupleConstructor(vec![]), constant(true)],
    );
    let err = eval_err(&expr, &globals());
    assert!(matches!(err, RuntimeError::TypeMismatch { argn: 0 }));
}

#[test]
fn native_and_rejects_wrong_arity() {
    let expr = application(variable("and"), vec![constant(true)]);
    let err = eval_err(&expr, &globals());
    assert!(matches!(err, RuntimeError::NumArgs { expected: 2, found: 1 }));
}

#[test]
fn native_or_and_not_compute() {
    let or_expr = application(variable("or"), vec![constant(false), constant(true)]);
    assert_eq!(eval_ok(&or_expr, &globals()), boolean(true));
    let not_expr = application(variable("not"), vec![constant(true)]);
    assert_eq!(eval_ok(&not_expr, &globals()), boolean(false));
    let second_arg_bad = application(
        variable("or"),
        vec![constant(false), Expression::TupleConstructor(vec![])],
    );
    assert!(matches!(eval_err(&second_arg_bad, &globals()), RuntimeError::TypeMismatch { argn: 1 }));
}

#[test]
fn unmatched_subject_reports_the_value() {
    let expr = Expression::Match {
        term: Box::new(constant(true)),
        clauses: vec![(Pattern::PConstant(boolean(false)), constant(false))],
    };
    let err = eval_err(&expr, &globals());
    assert!(matches!(err, RuntimeError::UnmatchedPattern { found } if found == boolean(true)));
}

#[test]
fn first_matching_clause_wins() {
    // The second clause also matches, but its body would fail with an
    // undefined variable if it were ever evaluated.
    let expr = Expression::Match {
        term: Box::new(constant(true)),
        clauses: vec![
            (Pattern::PConstant(boolean(true)), constant(false)),
            (Pattern::PVariable("b".to_string()), variable("never_bound")),
        ],
    };
    assert_eq!(eval_ok(&expr, &globals()), boolean(false));
}

#[test]
fn closure_ignores_sibling_scope_bindings() {
    // Capture a closure while x is true, then stack a sibling scope that
    // rebinds x to false and call the closure from there: it still sees
    // the frozen frame it captured.
    let defining = Env::global().bind_one("x".to_string(), boolean(true)).build();
    let closure = eval_ok(&lambda(&[], variable("x")), &defining);
    let sibling = Env::inside(&defining)
        .bind_one("x".to_string(), boolean(false))
        .bind_one("f".to_string(), closure)
        .build();
    let call = application(variable("f"), vec![]);
    assert_eq!(eval_ok(&call, &sibling), boolean(true));
    assert_eq!(eval_ok(&variable("x"), &sibling), boolean(false));
}

#[test]
fn abstraction_does_not_evaluate_its_body() {
    let expr = lambda(&[], variable("never_bound"));
    let v = eval_ok(&expr, &globals());
    assert!(v.get_applicative().is_some());
}

#[test]
fn zero_argument_application_is_valid() {
    let expr = application(lambda(&[], constant(true)), vec![]);
    assert_eq!(eval_ok(&expr, &globals()), boolean(true));
}

#[test]
fn tuple_equality_is_elementwise_and_length_aware() {
    let ab = Value::Tuple(vec![boolean(true), boolean(false)]);
    let ab2 = Value::Tuple(vec![boolean(true), boolean(false)]);
    let ba = Value::Tuple(vec![boolean(false), boolean(true)]);
    let a = Value::Tuple(vec![boolean(true)]);
    assert_eq!(ab, ab2);
    assert_ne!(ab, ba);
    assert_ne!(ab, a);
    let nested = Value::Tuple(vec![Value::Tuple(vec![boolean(true)]), boolean(false)]);
    let nested2 = Value::Tuple(vec![Value::Tuple(vec![boolean(true)]), boolean(false)]);
    assert_eq!(nested, nested2);
}

#[test]
fn function_values_never_compare_equal() {
    let f = eval_ok(&lambda(&[], constant(true)), &globals());
    let g = f.clone();
    assert_ne!(f, g);
    assert_ne!(boolean(true), f);
}

#[test]
fn non_function_has_no_applicative() {
    assert!(boolean(true).get_applicative().is_none());
    assert!(Value::Tuple(vec![]).get_applicative().is_none());
}

#[test]
fn pattern_matching_is_total_over_shape_mismatches() {
    let tuple_pattern = Pattern::PTupleConstructor(vec![Pattern::PVariable("a".to_string())]);
    assert!(tuple_pattern.matches(&boolean(true)).is_none());
    let f = eval_ok(&lambda(&[], constant(true)), &globals());
    assert!(tuple_pattern.matches(&f).is_none());
    assert!(Pattern::PConstant(boolean(true)).matches(&f).is_none());
    let wrong_arity = Pattern::PTupleConstructor(vec![]);
    assert!(wrong_arity.matches(&Value::Tuple(vec![boolean(true)])).is_none());
}

#[test]
fn evaluation_runs_out_of_fuel_on_divergence() {
    // ((lambda (x) (x x)) (lambda (x) (x x))) never reduces to a value.
    let omega1 = lambda(&["x"], application(variable("x"), vec![variable("x")]));
    let omega2 = lambda(&["x"], application(variable("x"), vec![variable("x")]));
    let expr = application(omega1, vec![omega2]);
    assert!(expr.eval(&globals(), 50).is_none());
    // A fuel-free evaluation still finishes when no application occurs.
    let v = constant(true).eval(&globals(), 0).expect("no application").expect("value");
    assert_eq!(v, boolean(true));
}

#[test]
fn duplicate_parameters_take_the_last_argument() {
    let expr = application(
        lambda(&["x", "x"], variable("x")),
        vec![constant(true), constant(false)],
    );
    assert_eq!(eval_ok(&expr, &globals()), boolean(false));
}
