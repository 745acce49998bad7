//! The abstract syntax tree. An [`Expression`] is an immutable tree, built
//! once by a front end and never mutated during evaluation.

use vstd::prelude::*;

use std::sync::Arc;

use crate::env::Env;
use crate::error::EvalResult;
use crate::error::RuntimeError;
use crate::pattern::Pattern;
use crate::semantics::bindings_model;
use crate::semantics::child_env;
use crate::semantics::clauses_spec;
use crate::semantics::env_model;
use crate::semantics::env_model_of;
use crate::semantics::esize;
use crate::semantics::eval_spec;
use crate::semantics::lemma_clause_sum_index;
use crate::semantics::lemma_esize_sum_index;
use crate::semantics::lemma_eval_list_prefix;
use crate::semantics::lemma_values_model;
use crate::semantics::outcome_model;
use crate::semantics::value_model;
use crate::semantics::value_model_of;
use crate::semantics::values_model;
use crate::semantics::SpecError;
use crate::semantics::SpecValue;
use crate::value::clone_params;
use crate::value::Applicative;
use crate::value::Primitive;
use crate::value::Value;

verus! {

/// One node of the expression tree.
#[derive(Debug)]
pub enum Expression {
    /// A literal; evaluates to its contained scalar.
    Constant(Primitive),
    /// A variable; evaluates to the value bound to the identifier.
    Variable(String),
    /// Evaluates each element left to right and wraps the results in a tuple.
    TupleConstructor(Vec<Expression>),
    /// Evaluates the callee, then each argument left to right, then applies.
    Application { fun: Box<Expression>, expr_argv: Vec<Expression> },
    /// Captures the current environment and yields a closure; the body is
    /// not evaluated.
    Abstraction { params: Vec<String>, body: Arc<Expression> },
    /// Evaluates the term once, then tries each clause in listed order.
    Match { term: Box<Expression>, clauses: Vec<(Pattern, Expression)> },
}

impl Expression {
    /// Reduces this expression to a value under `env`, or to the first
    /// runtime error encountered, exactly as the big-step semantics
    /// prescribes. `fuel` bounds how many lambda applications the
    /// evaluation may perform; `None` reports that the budget ran out.
    #[verifier::loop_isolation(false)]
    pub fn eval(&self, env: &Arc<Env>, fuel: u64) -> (r: Option<EvalResult>)
        ensures
            outcome_model(r) == eval_spec(*self, env_model(**env), fuel as nat),
        decreases fuel, esize(*self),
    {
        let ghost em = env_model_of(env);
        match self {
            Expression::Constant(primitive) => Option::Some(
                Result::Ok(Value::Simple(*primitive)),
            ),
            Expression::Variable(sym) => match env.get(sym.as_str()) {
                Option::Some(value) => Option::Some(Result::Ok(value)),
                Option::None => Option::Some(
                    Result::Err(RuntimeError::Undefined { identifier: sym.clone() }),
                ),
            },
            Expression::TupleConstructor(exprs) => {
                let ghost eseq = exprs@;
                let mut elements: Vec<Value> = Vec::new();
                let n = exprs.len();
                let mut i: usize = 0;
                while i < n
                    invariant
                        i <= n,
                        elements@.len() == i,
                        forall|j: int|
                            0 <= j < i ==> eval_spec(eseq[j], em, fuel as nat) == Option::Some(
                                Result::<SpecValue, SpecError>::Ok(value_model(elements@[j])),
                            ),
                    decreases n - i,
                {
                    proof {
                        lemma_esize_sum_index(eseq, 0, i as int);
                        lemma_values_model(elements@, 0);
                    }
                    match exprs[i].eval(env, fuel) {
                        Option::None => {
                            proof {
                                lemma_eval_list_prefix(
                                    eseq,
                                    em,
                                    fuel as nat,
                                    i as int,
                                    values_model(elements@, 0),
                                );
                            }
                            return Option::None;
                        },
                        Option::Some(Result::Err(err)) => {
                            proof {
                                lemma_eval_list_prefix(
                                    eseq,
                                    em,
                                    fuel as nat,
                                    i as int,
                                    values_model(elements@, 0),
                                );
                            }
                            return Option::Some(Result::Err(err));
                        },
                        Option::Some(Result::Ok(element)) => {
                            elements.push(element);
                        },
                    }
                    i = i + 1;
                }
                proof {
                    lemma_values_model(elements@, 0);
                    lemma_eval_list_prefix(eseq, em, fuel as nat, n as int, values_model(
                        elements@,
                        0,
                    ));
                    assert(values_model(elements@, 0) + Seq::<SpecValue>::empty() =~= values_model(
                        elements@,
                        0,
                    ));
                }
                Option::Some(Result::Ok(Value::Tuple(elements)))
            },
            Expression::Application { fun, expr_argv } => {
                let callee = fun.eval(env, fuel);
                match callee {
                    Option::None => Option::None,
                    Option::Some(Result::Err(err)) => Option::Some(Result::Err(err)),
                    Option::Some(Result::Ok(applicative)) => match applicative.get_applicative() {
                        Option::None => Option::Some(Result::Err(RuntimeError::NotApplicative)),
                        Option::Some(procedure) => {
                            let ghost eseq = expr_argv@;
                            let mut argv: Vec<Value> = Vec::new();
                            let n = expr_argv.len();
                            let mut i: usize = 0;
                            while i < n
                                invariant
                                    i <= n,
                                    argv@.len() == i,
                                    forall|j: int|
                                        0 <= j < i ==> eval_spec(eseq[j], em, fuel as nat)
                                            == Option::Some(
                                            Result::<SpecValue, SpecError>::Ok(
                                                value_model(argv@[j]),
                                            ),
                                        ),
                                decreases n - i,
                            {
                                proof {
                                    lemma_esize_sum_index(eseq, 0, i as int);
                                    lemma_values_model(argv@, 0);
                                }
                                match expr_argv[i].eval(env, fuel) {
                                    Option::None => {
                                        proof {
                                            lemma_eval_list_prefix(
                                                eseq,
                                                em,
                                                fuel as nat,
                                                i as int,
                                                values_model(argv@, 0),
                                            );
                                        }
                                        return Option::None;
                                    },
                                    Option::Some(Result::Err(err)) => {
                                        proof {
                                            lemma_eval_list_prefix(
                                                eseq,
                                                em,
                                                fuel as nat,
                                                i as int,
                                                values_model(argv@, 0),
                                            );
                                        }
                                        return Option::Some(Result::Err(err));
                                    },
                                    Option::Some(Result::Ok(arg)) => {
                                        argv.push(arg);
                                    },
                                }
                                i = i + 1;
                            }
                            proof {
                                lemma_values_model(argv@, 0);
                                lemma_eval_list_prefix(eseq, em, fuel as nat, n as int, values_model(
                                    argv@,
                                    0,
                                ));
                                assert(values_model(argv@, 0) + Seq::<SpecValue>::empty()
                                    =~= values_model(argv@, 0));
                            }
                            procedure.apply(argv, fuel)
                        },
                    },
                }
            },
            Expression::Abstraction { params, body } => Option::Some(
                Result::Ok(
                    Value::Function(
                        Applicative::Lambda {
                            params: clone_params(params),
                            body: arc_expr_clone(body),
                            closure: crate::env::arc_env_clone(env),
                        },
                    ),
                ),
            ),
            Expression::Match { term, clauses } => {
                let evaluated = term.eval(env, fuel);
                match evaluated {
                    Option::None => Option::None,
                    Option::Some(Result::Err(err)) => Option::Some(Result::Err(err)),
                    Option::Some(Result::Ok(value)) => {
                        let ghost cls = clauses@;
                        let ghost subj = value_model_of(&value);
                        let n = clauses.len();
                        let mut i: usize = 0;
                        while i < n
                            invariant
                                i <= n,
                                clauses_spec(cls, 0, subj, em, fuel as nat) == clauses_spec(
                                    cls,
                                    i as int,
                                    subj,
                                    em,
                                    fuel as nat,
                                ),
                            decreases n - i,
                        {
                            match clauses[i].0.matches(&value) {
                                Option::Some(bindings) => {
                                    let ghost bs = bindings_model(bindings@, 0);
                                    let scope = Env::inside(env).bind(bindings).build();
                                    proof {
                                        lemma_clause_sum_index(cls, 0, i as int);
                                        assert(Seq::<(Seq<char>, SpecValue)>::empty() + bs =~= bs);
                                        assert(env_model(*scope) == child_env(em, bs));
                                    }
                                    return clauses[i].1.eval(&scope, fuel);
                                },
                                Option::None => {},
                            }
                            i = i + 1;
                        }
                        Option::Some(
                            Result::Err(RuntimeError::UnmatchedPattern { found: value }),
                        )
                    },
                }
            },
        }
    }
}

/// Relies on `Arc::clone`: the clone is a new handle to the same shared
/// expression tree.
#[verifier::external_body]
pub(crate) fn arc_expr_clone(e: &Arc<Expression>) -> (r: Arc<Expression>)
    ensures
        r == *e,
{
    Arc::clone(e)
}

} // verus!
