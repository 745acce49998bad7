//! The mathematical model of evaluation.
//!
//! Executable values, environments and errors are mirrored by spec-level
//! counterparts built from `Seq` and views ([`SpecValue`], [`SpecEnv`],
//! [`SpecError`]), and evaluation itself is defined as the fuel-indexed
//! big-step function [`eval_spec`]. The executable evaluator's contracts
//! state that it returns exactly what these functions denote; `None` stands
//! for an evaluation that exhausts its fuel budget before finishing.

use vstd::prelude::*;

use std::sync::Arc;

use crate::ast::Expression;
use crate::env::Env;
use crate::error::RuntimeError;
use crate::pattern::Pattern;
use crate::value::{Applicative, NativeProc, Primitive, Value};

verus! {

/// The spec-level counterpart of [`Value`].
pub enum SpecValue {
    Prim(Primitive),
    Func(SpecProc),
    Tup(Seq<SpecValue>),
}

/// The spec-level counterpart of [`Applicative`]. A closure keeps the
/// expression tree of its body and the model of its captured environment.
pub enum SpecProc {
    Closure { params: Seq<Seq<char>>, body: Expression, env: SpecEnv },
    Native(NativeProc),
}

/// The spec-level counterpart of [`Env`]: a frame of bindings keyed by
/// identifier characters, plus an optional parent scope.
pub struct SpecEnv {
    pub frame: Seq<(Seq<char>, SpecValue)>,
    pub parent: Option<Box<SpecEnv>>,
}

/// The spec-level counterpart of [`RuntimeError`].
pub enum SpecError {
    Undefined(Seq<char>),
    NotApplicative,
    NumArgs { expected: nat, found: nat },
    TypeMismatch { argn: nat },
    UnmatchedPattern(SpecValue),
}

/// The model of an executable value.
pub open spec fn value_model(v: Value) -> SpecValue
    decreases v,
{
    match v {
        Value::Simple(p) => SpecValue::Prim(p),
        Value::Function(a) => SpecValue::Func(proc_model(a)),
        Value::Tuple(vs) => SpecValue::Tup(values_model(vs@, 0)),
    }
}

/// The models of the values of `vs` from position `i` on.
pub open spec fn values_model(vs: Seq<Value>, i: int) -> Seq<SpecValue>
    decreases vs, vs.len() - i,
{
    if i < 0 || i >= vs.len() {
        Seq::empty()
    } else {
        seq![value_model(vs[i])] + values_model(vs, i + 1)
    }
}

/// The model of an executable applicative.
pub open spec fn proc_model(a: Applicative) -> SpecProc
    decreases a,
{
    match a {
        Applicative::Lambda { params, body, closure } => SpecProc::Closure {
            params: params.deep_view(),
            body: *body,
            env: env_model(*closure),
        },
        Applicative::Primitive(op) => SpecProc::Native(op),
    }
}

/// The model of an executable environment chain.
pub open spec fn env_model(e: Env) -> SpecEnv
    decreases e,
{
    SpecEnv {
        frame: bindings_model(e.bindings@, 0),
        parent: match e.parent {
            Option::None => Option::None,
            Option::Some(p) => Option::Some(Box::new(env_model(*p))),
        },
    }
}

/// The models of the bindings of `bs` from position `i` on.
pub open spec fn bindings_model(bs: Seq<(String, Value)>, i: int) -> Seq<(Seq<char>, SpecValue)>
    decreases bs, bs.len() - i,
{
    if i < 0 || i >= bs.len() {
        Seq::empty()
    } else {
        seq![(bs[i].0@, value_model(bs[i].1))] + bindings_model(bs, i + 1)
    }
}

/// Pushing one binding onto a frame extends the frame's model by the
/// binding's model.
pub proof fn lemma_bindings_model_push(bs: Seq<(String, Value)>, k: String, v: Value)
    ensures
        bindings_model(bs.push((k, v)), 0) == bindings_model(bs, 0).push((k@, value_model(v))),
{
    lemma_bindings_model(bs, 0);
    lemma_bindings_model(bs.push((k, v)), 0);
    assert(bindings_model(bs.push((k, v)), 0) =~= bindings_model(bs, 0).push(
        (k@, value_model(v)),
    ));
}

/// The model of a shared environment handle.
pub open spec fn env_model_of(e: &Arc<Env>) -> SpecEnv {
    env_model(**e)
}

/// The model of a borrowed value.
pub open spec fn value_model_of(v: &Value) -> SpecValue {
    value_model(*v)
}

/// The model of an evaluation result.
pub open spec fn res_model(r: Result<Value, RuntimeError>) -> Result<SpecValue, SpecError> {
    match r {
        Result::Ok(v) => Result::Ok(value_model(v)),
        Result::Err(e) => Result::Err(error_model(e)),
    }
}

/// The model of an evaluation outcome; `None` is an exhausted fuel budget.
pub open spec fn outcome_model(r: Option<Result<Value, RuntimeError>>) -> Option<
    Result<SpecValue, SpecError>,
> {
    match r {
        Option::None => Option::None,
        Option::Some(x) => Option::Some(res_model(x)),
    }
}

/// The model of a runtime error.
pub open spec fn error_model(e: RuntimeError) -> SpecError {
    match e {
        RuntimeError::Undefined { identifier } => SpecError::Undefined(identifier@),
        RuntimeError::NotApplicative => SpecError::NotApplicative,
        RuntimeError::NumArgs { expected, found } => SpecError::NumArgs {
            expected: expected as nat,
            found: found as nat,
        },
        RuntimeError::TypeMismatch { argn } => SpecError::TypeMismatch { argn: argn as nat },
        RuntimeError::UnmatchedPattern { found } => SpecError::UnmatchedPattern(
            value_model(found),
        ),
    }
}

/// `values_model(vs, i)` lists, in order, the model of every value from
/// position `i` on.
pub proof fn lemma_values_model(vs: Seq<Value>, i: int)
    requires
        0 <= i <= vs.len(),
    ensures
        values_model(vs, i).len() == vs.len() - i,
        forall|j: int| 0 <= j < vs.len() - i ==> values_model(vs, i)[j] == value_model(vs[i + j]),
    decreases vs.len() - i,
{
    if i < vs.len() {
        lemma_values_model(vs, i + 1);
        assert forall|j: int| 0 <= j < vs.len() - i implies values_model(vs, i)[j] == value_model(
            vs[i + j],
        ) by {
            if j > 0 {
                assert(values_model(vs, i)[j] == values_model(vs, i + 1)[j - 1]);
            }
        }
    }
}

/// A structural size of an expression tree; the termination measure of the
/// evaluator within one fuel level.
pub open spec fn esize(e: Expression) -> nat
    decreases e,
{
    match e {
        Expression::Constant(_) => 1,
        Expression::Variable(_) => 1,
        Expression::TupleConstructor(es) => 1 + esize_sum(es@, 0),
        Expression::Application { fun, expr_argv } => 1 + esize(*fun) + esize_sum(expr_argv@, 0),
        Expression::Abstraction { params: _, body: _ } => 1,
        Expression::Match { term, clauses } => 1 + esize(*term) + clause_sum(clauses@, 0),
    }
}

/// The combined size of the expressions of `es` from position `i` on.
pub open spec fn esize_sum(es: Seq<Expression>, i: int) -> nat
    decreases es, es.len() - i,
{
    if i < 0 || i >= es.len() {
        0
    } else {
        1 + esize(es[i]) + esize_sum(es, i + 1)
    }
}

/// The combined size of the clause bodies of `cls` from position `i` on.
pub open spec fn clause_sum(cls: Seq<(Pattern, Expression)>, i: int) -> nat
    decreases cls, cls.len() - i,
{
    if i < 0 || i >= cls.len() {
        0
    } else {
        1 + esize(cls[i].1) + clause_sum(cls, i + 1)
    }
}

/// Every listed expression is strictly smaller than the combined size of the
/// list from any earlier position.
pub proof fn lemma_esize_sum_index(es: Seq<Expression>, i: int, j: int)
    requires
        0 <= i <= j < es.len(),
    ensures
        esize(es[j]) < esize_sum(es, i),
    decreases j - i,
{
    if i < j {
        lemma_esize_sum_index(es, i + 1, j);
    }
}

/// Every clause body is strictly smaller than the combined size of the
/// clause list from any earlier position.
pub proof fn lemma_clause_sum_index(cls: Seq<(Pattern, Expression)>, i: int, j: int)
    requires
        0 <= i <= j < cls.len(),
    ensures
        esize(cls[j].1) < clause_sum(cls, i),
    decreases j - i,
{
    if i < j {
        lemma_clause_sum_index(cls, i + 1, j);
    }
}

/// A structural size of a value; the termination measure of value cloning
/// and value comparison.
pub open spec fn vsize(v: Value) -> nat
    decreases v,
{
    match v {
        Value::Simple(_) => 1,
        Value::Function(_) => 1,
        Value::Tuple(vs) => 1 + vsize_sum(vs@, 0),
    }
}

/// The combined size of the values of `vs` from position `i` on.
pub open spec fn vsize_sum(vs: Seq<Value>, i: int) -> nat
    decreases vs, vs.len() - i,
{
    if i < 0 || i >= vs.len() {
        0
    } else {
        1 + vsize(vs[i]) + vsize_sum(vs, i + 1)
    }
}

/// Every listed value is strictly smaller than the combined size of the list
/// from any earlier position.
pub proof fn lemma_vsize_sum_index(vs: Seq<Value>, i: int, j: int)
    requires
        0 <= i <= j < vs.len(),
    ensures
        vsize(vs[j]) < vsize_sum(vs, i),
    decreases j - i,
{
    if i < j {
        lemma_vsize_sum_index(vs, i + 1, j);
    }
}

/// A structural size of a pattern tree; the termination measure of the
/// matcher.
pub open spec fn psize(p: Pattern) -> nat
    decreases p,
{
    match p {
        Pattern::PConstant(_) => 1,
        Pattern::PVariable(_) => 1,
        Pattern::PTupleConstructor(ps) => 1 + psize_sum(ps@, 0),
    }
}

/// The combined size of the patterns of `ps` from position `i` on.
pub open spec fn psize_sum(ps: Seq<Pattern>, i: int) -> nat
    decreases ps, ps.len() - i,
{
    if i < 0 || i >= ps.len() {
        0
    } else {
        1 + psize(ps[i]) + psize_sum(ps, i + 1)
    }
}

/// Every listed pattern is strictly smaller than the combined size of the
/// list from any earlier position.
pub proof fn lemma_psize_sum_index(ps: Seq<Pattern>, i: int, j: int)
    requires
        0 <= i <= j < ps.len(),
    ensures
        psize(ps[j]) < psize_sum(ps, i),
    decreases j - i,
{
    if i < j {
        lemma_psize_sum_index(ps, i + 1, j);
    }
}

/// A prefix of a prefix is a prefix.
pub proof fn lemma_prefix_trans<T>(a: Seq<T>, b: Seq<T>, c: Seq<T>)
    requires
        a.is_prefix_of(b),
        b.is_prefix_of(c),
    ensures
        a.is_prefix_of(c),
{
    assert(a =~= c.subrange(0, a.len() as int));
}

/// Lookup within one frame: the last binding staged for `name` wins; `None`
/// when the frame holds no binding for it.
pub open spec fn frame_lookup(frame: Seq<(Seq<char>, SpecValue)>, name: Seq<char>) -> Option<
    SpecValue,
>
    decreases frame.len(),
{
    if frame.len() == 0 {
        Option::None
    } else if frame.last().0 == name {
        Option::Some(frame.last().1)
    } else {
        frame_lookup(frame.drop_last(), name)
    }
}

/// Lookup through the environment chain: the local frame first, then the
/// parent; `None` only when the chain is exhausted.
pub open spec fn lookup_spec(env: SpecEnv, name: Seq<char>) -> Option<SpecValue>
    decreases env,
{
    match frame_lookup(env.frame, name) {
        Option::Some(v) => Option::Some(v),
        Option::None => match env.parent {
            Option::Some(p) => lookup_spec(*p, name),
            Option::None => Option::None,
        },
    }
}

/// Value equality: scalars by value, tuples element-wise with the length
/// part of their identity, and function values never equal to anything.
pub open spec fn spec_value_eq(a: SpecValue, b: SpecValue) -> bool
    decreases a,
{
    match (a, b) {
        (SpecValue::Prim(x), SpecValue::Prim(y)) => x == y,
        (SpecValue::Tup(xs), SpecValue::Tup(ys)) => xs.len() == ys.len() && tup_eq(xs, ys, 0),
        _ => false,
    }
}

/// Element-wise value equality of two equally long tuples from position `i`
/// on.
pub open spec fn tup_eq(xs: Seq<SpecValue>, ys: Seq<SpecValue>, i: int) -> bool
    decreases xs, xs.len() - i,
{
    i < 0 || i >= xs.len() || (spec_value_eq(xs[i], ys[i]) && tup_eq(xs, ys, i + 1))
}

/// `tup_eq` holds from position `i` exactly when every later pair of
/// elements is value-equal.
pub proof fn lemma_tup_eq(xs: Seq<SpecValue>, ys: Seq<SpecValue>, i: int)
    requires
        0 <= i <= xs.len(),
        xs.len() == ys.len(),
    ensures
        tup_eq(xs, ys, i) <==> (forall|j: int| i <= j < xs.len() ==> spec_value_eq(xs[j], ys[j])),
    decreases xs.len() - i,
{
    if i < xs.len() {
        lemma_tup_eq(xs, ys, i + 1);
    }
}

/// Matching a pattern against a value: `None` on failure, otherwise the
/// ordered bindings the match produces. Matching is total; it never errors.
pub open spec fn match_spec(p: Pattern, v: SpecValue) -> Option<Seq<(Seq<char>, SpecValue)>>
    decreases p,
{
    match p {
        Pattern::PConstant(pv) => if spec_value_eq(value_model(pv), v) {
            Option::Some(Seq::empty())
        } else {
            Option::None
        },
        Pattern::PVariable(s) => Option::Some(seq![(s@, v)]),
        Pattern::PTupleConstructor(ps) => match v {
            SpecValue::Tup(vs) => if ps@.len() == vs.len() {
                match_list_spec(ps@, vs, 0)
            } else {
                Option::None
            },
            _ => Option::None,
        },
    }
}

/// Positional matching of equally long pattern and value lists from
/// position `i` on; bindings are concatenated left to right.
pub open spec fn match_list_spec(ps: Seq<Pattern>, vs: Seq<SpecValue>, i: int) -> Option<
    Seq<(Seq<char>, SpecValue)>,
>
    decreases ps, ps.len() - i,
{
    if i < 0 || i >= ps.len() {
        Option::Some(Seq::empty())
    } else {
        match match_spec(ps[i], vs[i]) {
            Option::None => Option::None,
            Option::Some(bs) => match match_list_spec(ps, vs, i + 1) {
                Option::None => Option::None,
                Option::Some(rest) => Option::Some(bs + rest),
            },
        }
    }
}

/// The boolean carried by a value, when it is a boolean scalar.
pub open spec fn as_bool(v: SpecValue) -> Option<bool> {
    match v {
        SpecValue::Prim(Primitive::Boolean(b)) => Option::Some(b),
        _ => Option::None,
    }
}

/// How many arguments a native procedure requires.
pub open spec fn native_arity(op: NativeProc) -> nat {
    match op {
        NativeProc::And => 2,
        NativeProc::Or => 2,
        NativeProc::Not => 1,
    }
}

/// What a native procedure computes once its arguments have passed the
/// arity and shape checks; `y` is ignored by the unary natives.
pub open spec fn native_result(op: NativeProc, x: bool, y: bool) -> bool {
    match op {
        NativeProc::And => x && y,
        NativeProc::Or => x || y,
        NativeProc::Not => !x,
    }
}

/// What a native procedure returns on a given argument list. Each native
/// checks its own arity, then the shape of each argument left to right.
pub open spec fn native_spec(op: NativeProc, args: Seq<SpecValue>) -> Result<SpecValue, SpecError> {
    if args.len() != native_arity(op) {
        Result::Err(SpecError::NumArgs { expected: native_arity(op), found: args.len() })
    } else {
        match as_bool(args[0]) {
            Option::None => Result::Err(SpecError::TypeMismatch { argn: 0 }),
            Option::Some(x) => if native_arity(op) == 1 {
                Result::Ok(SpecValue::Prim(Primitive::Boolean(native_result(op, x, false))))
            } else {
                match as_bool(args[1]) {
                    Option::None => Result::Err(SpecError::TypeMismatch { argn: 1 }),
                    Option::Some(y) => Result::Ok(
                        SpecValue::Prim(Primitive::Boolean(native_result(op, x, y))),
                    ),
                }
            },
        }
    }
}

/// The frame that binds each parameter to its positional argument.
pub open spec fn zip_frame(params: Seq<Seq<char>>, args: Seq<SpecValue>) -> Seq<
    (Seq<char>, SpecValue),
>
    recommends
        params.len() == args.len(),
{
    Seq::new(params.len(), |i: int| (params[i], args[i]))
}

/// A fresh scope holding `frame`, whose parent is `env`.
pub open spec fn child_env(env: SpecEnv, frame: Seq<(Seq<char>, SpecValue)>) -> SpecEnv {
    SpecEnv { frame, parent: Option::Some(Box::new(env)) }
}

/// The big-step semantics of one expression under an environment, indexed by
/// the number of lambda applications the evaluation may still perform.
/// `None` means the fuel budget was exhausted.
pub open spec fn eval_spec(e: Expression, env: SpecEnv, fuel: nat) -> Option<
    Result<SpecValue, SpecError>,
>
    decreases fuel, esize(e),
{
    match e {
        Expression::Constant(p) => Option::Some(Result::Ok(SpecValue::Prim(p))),
        Expression::Variable(sym) => match lookup_spec(env, sym@) {
            Option::Some(v) => Option::Some(Result::Ok(v)),
            Option::None => Option::Some(Result::Err(SpecError::Undefined(sym@))),
        },
        Expression::TupleConstructor(es) => match eval_list_spec(es@, 0, env, fuel) {
            Option::None => Option::None,
            Option::Some(Result::Err(err)) => Option::Some(Result::Err(err)),
            Option::Some(Result::Ok(vals)) => Option::Some(Result::Ok(SpecValue::Tup(vals))),
        },
        Expression::Application { fun, expr_argv } => match eval_spec(*fun, env, fuel) {
            Option::None => Option::None,
            Option::Some(Result::Err(err)) => Option::Some(Result::Err(err)),
            Option::Some(Result::Ok(callee)) => match callee {
                SpecValue::Func(p) => match eval_list_spec(expr_argv@, 0, env, fuel) {
                    Option::None => Option::None,
                    Option::Some(Result::Err(err)) => Option::Some(Result::Err(err)),
                    Option::Some(Result::Ok(vals)) => apply_spec(p, vals, fuel),
                },
                _ => Option::Some(Result::Err(SpecError::NotApplicative)),
            },
        },
        Expression::Abstraction { params, body } => Option::Some(
            Result::Ok(
                SpecValue::Func(
                    SpecProc::Closure { params: params.deep_view(), body: *body, env },
                ),
            ),
        ),
        Expression::Match { term, clauses } => match eval_spec(*term, env, fuel) {
            Option::None => Option::None,
            Option::Some(Result::Err(err)) => Option::Some(Result::Err(err)),
            Option::Some(Result::Ok(subject)) => clauses_spec(clauses@, 0, subject, env, fuel),
        },
    }
}

/// Left-to-right evaluation of the expressions of `es` from position `i` on,
/// short-circuiting on the first error (or exhausted fuel).
pub open spec fn eval_list_spec(es: Seq<Expression>, i: int, env: SpecEnv, fuel: nat) -> Option<
    Result<Seq<SpecValue>, SpecError>,
>
    decreases fuel, esize_sum(es, i),
{
    if i < 0 || i >= es.len() {
        Option::Some(Result::Ok(Seq::empty()))
    } else {
        match eval_spec(es[i], env, fuel) {
            Option::None => Option::None,
            Option::Some(Result::Err(err)) => Option::Some(Result::Err(err)),
            Option::Some(Result::Ok(v)) => match eval_list_spec(es, i + 1, env, fuel) {
                Option::None => Option::None,
                Option::Some(Result::Err(err)) => Option::Some(Result::Err(err)),
                Option::Some(Result::Ok(rest)) => Option::Some(Result::Ok(seq![v] + rest)),
            },
        }
    }
}

/// When every expression before position `i` evaluates to the listed value
/// models, evaluating the whole list is evaluating the rest and, on success,
/// prefixing those models.
pub proof fn lemma_eval_list_prefix(
    es: Seq<Expression>,
    env: SpecEnv,
    fuel: nat,
    i: int,
    ms: Seq<SpecValue>,
)
    requires
        0 <= i <= es.len(),
        ms.len() == i,
        forall|j: int|
            0 <= j < i ==> eval_spec(es[j], env, fuel) == Option::Some(
                Result::<SpecValue, SpecError>::Ok(ms[j]),
            ),
    ensures
        eval_list_spec(es, 0, env, fuel) == match eval_list_spec(es, i, env, fuel) {
            Option::None => Option::<Result<Seq<SpecValue>, SpecError>>::None,
            Option::Some(Result::Err(err)) => Option::Some(
                Result::<Seq<SpecValue>, SpecError>::Err(err),
            ),
            Option::Some(Result::Ok(rest)) => Option::Some(
                Result::<Seq<SpecValue>, SpecError>::Ok(ms + rest),
            ),
        },
    decreases i,
{
    if i == 0 {
        match eval_list_spec(es, 0, env, fuel) {
            Option::Some(Result::Ok(rest)) => {
                assert(ms + rest =~= rest);
            },
            _ => {},
        }
    } else {
        lemma_eval_list_prefix(es, env, fuel, i - 1, ms.take(i - 1));
        assert(eval_spec(es[i - 1], env, fuel) == Option::Some(
            Result::<SpecValue, SpecError>::Ok(ms[i - 1]),
        ));
        match eval_list_spec(es, i, env, fuel) {
            Option::None => {},
            Option::Some(Result::Err(_)) => {},
            Option::Some(Result::Ok(rest)) => {
                assert(eval_list_spec(es, i - 1, env, fuel) == Option::Some(
                    Result::<Seq<SpecValue>, SpecError>::Ok(seq![ms[i - 1]] + rest),
                ));
                assert(ms.take(i - 1) + (seq![ms[i - 1]] + rest) =~= ms + rest);
            },
        }
    }
}

/// Clause selection of a `match`: the first clause (in listed order) whose
/// pattern matches the subject wins, and its body is evaluated in a fresh
/// child scope holding the produced bindings. When no clause matches, the
/// whole expression fails with `UnmatchedPattern`.
pub open spec fn clauses_spec(
    cls: Seq<(Pattern, Expression)>,
    i: int,
    subject: SpecValue,
    env: SpecEnv,
    fuel: nat,
) -> Option<Result<SpecValue, SpecError>>
    decreases fuel, clause_sum(cls, i),
{
    if i < 0 || i >= cls.len() {
        Option::Some(Result::Err(SpecError::UnmatchedPattern(subject)))
    } else {
        match match_spec(cls[i].0, subject) {
            Option::Some(bs) => eval_spec(cls[i].1, child_env(env, bs), fuel),
            Option::None => clauses_spec(cls, i + 1, subject, env, fuel),
        }
    }
}

/// The call protocol. A native procedure judges its own arguments. A closure
/// first checks its arity exactly (no partial application, no variadic
/// matching), then spends one unit of fuel and evaluates its body in a fresh
/// child scope of its captured environment that binds each parameter to its
/// positional argument.
pub open spec fn apply_spec(p: SpecProc, args: Seq<SpecValue>, fuel: nat) -> Option<
    Result<SpecValue, SpecError>,
>
    decreases fuel, 0nat,
{
    match p {
        SpecProc::Native(op) => Option::Some(native_spec(op, args)),
        SpecProc::Closure { params, body, env } => if params.len() != args.len() {
            Option::Some(
                Result::Err(SpecError::NumArgs { expected: params.len(), found: args.len() }),
            )
        } else if fuel == 0 {
            Option::None
        } else {
            eval_spec(body, child_env(env, zip_frame(params, args)), (fuel - 1) as nat)
        },
    }
}

/// `bindings_model(bs, i)` lists, in order, the model of every binding from
/// position `i` on.
pub proof fn lemma_bindings_model(bs: Seq<(String, Value)>, i: int)
    requires
        0 <= i <= bs.len(),
    ensures
        bindings_model(bs, i).len() == bs.len() - i,
        forall|j: int|
            0 <= j < bs.len() - i ==> bindings_model(bs, i)[j] == (
            bs[i + j].0@,
            value_model(bs[i + j].1),
            ),
    decreases bs.len() - i,
{
    if i < bs.len() {
        lemma_bindings_model(bs, i + 1);
        assert forall|j: int| 0 <= j < bs.len() - i implies bindings_model(bs, i)[j] == (
        bs[i + j].0@,
        value_model(bs[i + j].1),
        ) by {
            if j > 0 {
                assert(bindings_model(bs, i)[j] == bindings_model(bs, i + 1)[j - 1]);
            }
        }
    }
}

} // verus!
