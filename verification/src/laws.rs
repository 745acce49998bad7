//! Theorems about the evaluation semantics: scoping, arity, value equality,
//! closure isolation, and clause selection.

use vstd::prelude::*;

use std::sync::Arc;

use crate::ast::Expression;
use crate::pattern::Pattern;
use crate::semantics::apply_spec;
use crate::semantics::child_env;
use crate::semantics::clauses_spec;
use crate::semantics::eval_list_spec;
use crate::semantics::eval_spec;
use crate::semantics::frame_lookup;
use crate::semantics::lemma_tup_eq;
use crate::semantics::lookup_spec;
use crate::semantics::match_spec;
use crate::semantics::spec_value_eq;
use crate::semantics::SpecEnv;
use crate::semantics::SpecError;
use crate::semantics::SpecProc;
use crate::semantics::SpecValue;

verus! {

/// Lookup shadowing: when an identifier is bound in a scope's own frame,
/// lookup from that scope returns the frame's own binding, whatever any
/// ancestor binds for the same identifier; and when the frame does not bind
/// it, lookup delegates to the parent unchanged, so dropping the child
/// frame and asking the ancestor directly returns the ancestor's binding.
pub proof fn lemma_lookup_shadowing(child: SpecEnv, parent: SpecEnv, name: Seq<char>)
    requires
        child.parent == Option::Some(Box::new(parent)),
    ensures
        forall|vc: SpecValue|
            frame_lookup(child.frame, name) == Option::Some(vc) ==> lookup_spec(child, name)
                == Option::Some(vc),
        frame_lookup(child.frame, name) is None ==> lookup_spec(child, name) == lookup_spec(
            parent,
            name,
        ),
{
}

/// Arity invariant: applying a closure of `k` parameters to `n != k`
/// arguments always fails with `NumArgs { expected: k, found: n }`, whatever
/// the fuel budget; no parameter is bound and the body is never entered.
pub proof fn lemma_apply_arity(
    params: Seq<Seq<char>>,
    body: Expression,
    env: SpecEnv,
    args: Seq<SpecValue>,
    fuel: nat,
)
    requires
        params.len() != args.len(),
    ensures
        apply_spec(SpecProc::Closure { params, body, env }, args, fuel) == Option::Some(
            Result::<SpecValue, SpecError>::Err(
                SpecError::NumArgs { expected: params.len(), found: args.len() },
            ),
        ),
{
}

/// Tuple equality: two tuple values are equal exactly when they have the
/// same length and their elements are equal position by position; in
/// particular, tuples of different length are never equal.
pub proof fn lemma_tuple_equality(a: Seq<SpecValue>, b: Seq<SpecValue>)
    ensures
        spec_value_eq(SpecValue::Tup(a), SpecValue::Tup(b)) <==> (a.len() == b.len() && (forall|
            i: int,
        |
            0 <= i < a.len() ==> spec_value_eq(a[i], b[i]))),
{
    if a.len() == b.len() {
        lemma_tup_eq(a, b, 0);
    }
}

/// Closure capture: evaluating an abstraction captures the scope current at
/// its definition site, as it then is, inside the returned closure; the
/// body is not evaluated.
pub proof fn lemma_closure_capture(
    params: Vec<String>,
    body: Arc<Expression>,
    env: SpecEnv,
    fuel: nat,
)
    ensures
        eval_spec(Expression::Abstraction { params, body }, env, fuel) == Option::Some(
            Result::<SpecValue, SpecError>::Ok(
                SpecValue::Func(
                    SpecProc::Closure { params: params.deep_view(), body: *body, env },
                ),
            ),
        ),
{
}

/// Closure isolation, the frozen-frame invariant at work: the outcome of a
/// function call is fixed by the closure value and the argument values
/// alone. Whenever the callee and the arguments of an application evaluate
/// to the same values under two scopes - say the scope a closure was
/// captured in and a sibling scope stacked over the same parent afterwards
/// - the application evaluates to the same outcome under both. Bindings
/// visible at the call site never reach the closure's body, which runs in a
/// child of its own captured environment.
pub proof fn lemma_closure_isolation(
    fun: Box<Expression>,
    expr_argv: Vec<Expression>,
    env_a: SpecEnv,
    env_b: SpecEnv,
    fuel: nat,
)
    requires
        eval_spec(*fun, env_a, fuel) == eval_spec(*fun, env_b, fuel),
        eval_list_spec(expr_argv@, 0, env_a, fuel) == eval_list_spec(expr_argv@, 0, env_b, fuel),
    ensures
        eval_spec(Expression::Application { fun, expr_argv }, env_a, fuel) == eval_spec(
            Expression::Application { fun, expr_argv },
            env_b,
            fuel,
        ),
{
}

/// Clause selection from position `k` on: when every clause in `[k, i)`
/// fails to match the subject and clause `i` matches with bindings `bs`,
/// the selection evaluates clause `i`'s body in a fresh child scope holding
/// `bs`.
pub proof fn lemma_match_clause_from(
    cls: Seq<(Pattern, Expression)>,
    k: int,
    i: int,
    subject: SpecValue,
    env: SpecEnv,
    fuel: nat,
    bs: Seq<(Seq<char>, SpecValue)>,
)
    requires
        0 <= k <= i < cls.len(),
        forall|j: int| k <= j < i ==> match_spec(cls[j].0, subject) is None,
        match_spec(cls[i].0, subject) == Option::Some(bs),
    ensures
        clauses_spec(cls, k, subject, env, fuel) == eval_spec(cls[i].1, child_env(env, bs), fuel),
    decreases i - k,
{
    if k < i {
        lemma_match_clause_from(cls, k + 1, i, subject, env, fuel, bs);
    }
}

/// Match clause order: among the clauses of a `match`, the first one (in
/// listed order) whose pattern matches the subject wins; its body is
/// evaluated in a fresh child scope holding the produced bindings, and the
/// clauses after it are never consulted, whether or not they would match.
pub proof fn lemma_match_first_clause(
    cls: Seq<(Pattern, Expression)>,
    i: int,
    subject: SpecValue,
    env: SpecEnv,
    fuel: nat,
    bs: Seq<(Seq<char>, SpecValue)>,
)
    requires
        0 <= i < cls.len(),
        forall|j: int| 0 <= j < i ==> match_spec(cls[j].0, subject) is None,
        match_spec(cls[i].0, subject) == Option::Some(bs),
    ensures
        clauses_spec(cls, 0, subject, env, fuel) == eval_spec(cls[i].1, child_env(env, bs), fuel),
{
    lemma_match_clause_from(cls, 0, i, subject, env, fuel, bs);
}

} // verus!
