//! The value model: primitive scalars, tuples, and functions, together with
//! the applicative call protocol shared by closures and native procedures.

use vstd::prelude::*;

use std::sync::Arc;

use crate::ast::arc_expr_clone;
use crate::ast::Expression;
use crate::env::arc_env_clone;
use crate::env::Env;
use crate::error::EvalResult;
use crate::error::RuntimeError;
use crate::semantics::apply_spec;
use crate::semantics::bindings_model;
use crate::semantics::child_env;
use crate::semantics::env_model;
use crate::semantics::lemma_bindings_model;
use crate::semantics::lemma_tup_eq;
use crate::semantics::outcome_model;
use crate::semantics::zip_frame;
use crate::semantics::lemma_values_model;
use crate::semantics::lemma_vsize_sum_index;
use crate::semantics::native_arity;
use crate::semantics::native_result;
use crate::semantics::native_spec;
use crate::semantics::proc_model;
use crate::semantics::res_model;
use crate::semantics::spec_value_eq;
use crate::semantics::value_model;
use crate::semantics::values_model;
use crate::semantics::vsize;
use crate::semantics::SpecValue;

verus! {

/// An immutable scalar, compared by value.
#[derive(Copy, Clone, Debug, PartialEq, Eq, Structural)]
pub enum Primitive {
    Boolean(bool),
}

/// A native procedure of the embedding environment. Each one validates its
/// own arity and argument shapes and reports `NumArgs` / `TypeMismatch`
/// itself.
#[derive(Copy, Clone, Debug)]
pub enum NativeProc {
    /// Boolean conjunction of exactly two boolean arguments.
    And,
    /// Boolean disjunction of exactly two boolean arguments.
    Or,
    /// Boolean negation of exactly one boolean argument.
    Not,
}

/// A value produced by evaluation: a primitive scalar, a function, or an
/// ordered fixed-length tuple of values.
#[derive(Debug)]
pub enum Value {
    Simple(Primitive),
    Function(Applicative),
    Tuple(Vec<Value>),
}

/// Something that can be applied to an argument list: a user-defined closure
/// or a native procedure.
#[derive(Debug)]
pub enum Applicative {
    /// A lambda abstraction paired with the environment captured at its
    /// definition site.
    Lambda { params: Vec<String>, body: Arc<Expression>, closure: Arc<Env> },
    /// A built-in procedure.
    Primitive(NativeProc),
}

/// A copy of a parameter list whose strings equal the originals.
pub(crate) fn clone_params(params: &Vec<String>) -> (r: Vec<String>)
    ensures
        r@ == params@,
{
    let mut out: Vec<String> = Vec::new();
    let mut i: usize = 0;
    while i < params.len()
        invariant
            i <= params@.len(),
            out@.len() == i,
            forall|j: int| 0 <= j < i ==> out@[j] == params@[j],
        decreases params@.len() - i,
    {
        out.push(params[i].clone());
        i = i + 1;
    }
    proof {
        assert(out@ =~= params@);
    }
    out
}

/// A copy of an applicative with the same model: parameter strings equal the
/// originals, and the body and captured environment are shared.
pub fn applicative_clone(a: &Applicative) -> (r: Applicative)
    ensures
        proc_model(r) == proc_model(*a),
{
    match a {
        Applicative::Primitive(op) => Applicative::Primitive(*op),
        Applicative::Lambda { params, body, closure } => Applicative::Lambda {
            params: clone_params(params),
            body: arc_expr_clone(body),
            closure: arc_env_clone(closure),
        },
    }
}

/// A copy of a value with the same model. Compound shapes share their
/// function bodies and captured environments; tuples are copied element-wise.
pub fn value_clone(v: &Value) -> (r: Value)
    ensures
        value_model(r) == value_model(*v),
    decreases vsize(*v),
{
    match v {
        Value::Simple(p) => Value::Simple(*p),
        Value::Function(a) => Value::Function(applicative_clone(a)),
        Value::Tuple(vs) => {
            let mut out: Vec<Value> = Vec::new();
            let mut i: usize = 0;
            while i < vs.len()
                invariant
                    i <= vs@.len(),
                    out@.len() == i,
                    vsize(*v) == 1 + crate::semantics::vsize_sum(vs@, 0),
                    forall|j: int| 0 <= j < i ==> value_model(out@[j]) == value_model(vs@[j]),
                decreases vs@.len() - i,
            {
                proof {
                    lemma_vsize_sum_index(vs@, 0, i as int);
                }
                out.push(value_clone(&vs[i]));
                i = i + 1;
            }
            proof {
                lemma_values_model(out@, 0);
                lemma_values_model(vs@, 0);
                assert(values_model(out@, 0) =~= values_model(vs@, 0));
            }
            Value::Tuple(out)
        },
    }
}

impl Clone for Value {
    /// The copy has the same model as the original.
    fn clone(&self) -> (r: Self)
        ensures
            value_model(r) == value_model(*self),
    {
        value_clone(self)
    }
}

/// Whether two values are equal under the language's value equality:
/// scalars by value, tuples element-wise, functions never.
pub fn value_eq(a: &Value, b: &Value) -> (r: bool)
    ensures
        r == spec_value_eq(value_model(*a), value_model(*b)),
    decreases vsize(*a),
{
    match (a, b) {
        (Value::Simple(x), Value::Simple(y)) => x == y,
        (Value::Tuple(xs), Value::Tuple(ys)) => {
            proof {
                lemma_values_model(xs@, 0);
                lemma_values_model(ys@, 0);
            }
            if xs.len() != ys.len() {
                return false;
            }
            let mut i: usize = 0;
            while i < xs.len()
                invariant
                    i <= xs@.len(),
                    xs@.len() == ys@.len(),
                    vsize(*a) == 1 + crate::semantics::vsize_sum(xs@, 0),
                    value_model(*a) == SpecValue::Tup(values_model(xs@, 0)),
                    value_model(*b) == SpecValue::Tup(values_model(ys@, 0)),
                    forall|j: int|
                        0 <= j < i ==> spec_value_eq(
                            value_model(xs@[j]),
                            value_model(ys@[j]),
                        ),
                decreases xs@.len() - i,
            {
                proof {
                    lemma_vsize_sum_index(xs@, 0, i as int);
                }
                if !value_eq(&xs[i], &ys[i]) {
                    proof {
                        lemma_values_model(xs@, 0);
                        lemma_values_model(ys@, 0);
                        assert(values_model(xs@, 0)[i as int] == value_model(xs@[i as int]));
                        assert(values_model(ys@, 0)[i as int] == value_model(ys@[i as int]));
                        lemma_tup_eq(values_model(xs@, 0), values_model(ys@, 0), 0);
                    }
                    return false;
                }
                i = i + 1;
            }
            proof {
                lemma_values_model(xs@, 0);
                lemma_values_model(ys@, 0);
                lemma_tup_eq(values_model(xs@, 0), values_model(ys@, 0), 0);
            }
            true
        },
        _ => false,
    }
}

impl PartialEq for Value {
    /// Value equality of the language; function values never compare equal.
    fn eq(&self, other: &Self) -> (r: bool)
        ensures
            r == spec_value_eq(value_model(*self), value_model(*other)),
    {
        value_eq(self, other)
    }
}

impl vstd::std_specs::cmp::PartialEqSpecImpl for Value {
    open spec fn obeys_eq_spec() -> bool {
        true
    }

    open spec fn eq_spec(&self, other: &Value) -> bool {
        spec_value_eq(value_model(*self), value_model(*other))
    }
}

impl Value {
    /// The stored applicative procedure, when the value is a function.
    pub fn get_applicative(&self) -> (r: Option<&Applicative>)
        ensures
            match r {
                Option::Some(a) => value_model(*self) == SpecValue::Func(proc_model(*a)),
                Option::None => !(value_model(*self) is Func),
            },
    {
        match self {
            Value::Function(applicative) => Option::Some(applicative),
            _ => Option::None,
        }
    }
}

impl Applicative {
    /// Applies this procedure to an argument list. A native procedure
    /// judges its own arguments directly. A closure first checks that the
    /// argument count equals its parameter count exactly (no partial
    /// application, no variadic matching), failing with `NumArgs`
    /// otherwise; on a match it binds each parameter positionally in a
    /// fresh child scope of its captured environment and evaluates its body
    /// there. `None` reports an exhausted fuel budget.
    #[verifier::loop_isolation(false)]
    pub fn apply(&self, args: Vec<Value>, fuel: u64) -> (r: Option<EvalResult>)
        ensures
            outcome_model(r) == apply_spec(proc_model(*self), values_model(args@, 0), fuel as nat),
        decreases fuel, 0nat,
    {
        proof {
            lemma_values_model(args@, 0);
        }
        match self {
            Applicative::Primitive(op) => Option::Some(op.invoke(&args)),
            Applicative::Lambda { params, body, closure } => {
                proof {
                    assert(params.deep_view().len() == params@.len());
                }
                let nparams = params.len();
                let nargs = args.len();
                if nparams != nargs {
                    return Option::Some(
                        Result::Err(RuntimeError::NumArgs { expected: nparams, found: nargs }),
                    );
                }
                if fuel == 0 {
                    return Option::None;
                }
                let mut bindings: Vec<(String, Value)> = Vec::new();
                let mut i: usize = 0;
                while i < nparams
                    invariant
                        i <= nparams,
                        bindings@.len() == i,
                        forall|j: int|
                            0 <= j < i ==> bindings@[j].0 == params@[j] && value_model(
                                bindings@[j].1,
                            ) == value_model(args@[j]),
                    decreases nparams - i,
                {
                    bindings.push((params[i].clone(), args[i].clone()));
                    i = i + 1;
                }
                proof {
                    lemma_bindings_model(bindings@, 0);
                    assert(bindings_model(bindings@, 0) =~= zip_frame(
                        params.deep_view(),
                        values_model(args@, 0),
                    ));
                }
                let env2 = Env::inside(closure).bind(bindings).build();
                proof {
                    assert(Seq::<(Seq<char>, SpecValue)>::empty() + bindings_model(bindings@, 0)
                        =~= bindings_model(bindings@, 0));
                    assert(env_model(*env2) == child_env(
                        env_model(**closure),
                        zip_frame(params.deep_view(), values_model(args@, 0)),
                    ));
                }
                body.eval(&env2, fuel - 1)
            },
        }
    }
}

impl NativeProc {
    /// The number of arguments this native procedure requires.
    pub fn arity(&self) -> (n: usize)
        ensures
            n as nat == native_arity(*self),
    {
        match self {
            NativeProc::And => 2,
            NativeProc::Or => 2,
            NativeProc::Not => 1,
        }
    }

    /// The boolean this native procedure computes from checked arguments.
    fn compute(&self, x: bool, y: bool) -> (b: bool)
        ensures
            b == native_result(*self, x, y),
    {
        match self {
            NativeProc::And => x && y,
            NativeProc::Or => x || y,
            NativeProc::Not => !x,
        }
    }

    /// What this native procedure returns on the given argument list; it
    /// validates its own arity and argument shapes and reports `NumArgs` or
    /// `TypeMismatch` itself.
    pub fn invoke(&self, args: &Vec<Value>) -> (r: EvalResult)
        ensures
            res_model(r) == native_spec(*self, values_model(args@, 0)),
    {
        proof {
            lemma_values_model(args@, 0);
        }
        let arity = self.arity();
        if args.len() != arity {
            return Result::Err(RuntimeError::NumArgs { expected: arity, found: args.len() });
        }
        let x = match &args[0] {
            Value::Simple(Primitive::Boolean(b)) => *b,
            _ => {
                return Result::Err(RuntimeError::TypeMismatch { argn: 0 });
            },
        };
        if arity == 2 {
            let y = match &args[1] {
                Value::Simple(Primitive::Boolean(b)) => *b,
                _ => {
                    return Result::Err(RuntimeError::TypeMismatch { argn: 1 });
                },
            };
            Result::Ok(Value::Simple(Primitive::Boolean(self.compute(x, y))))
        } else {
            Result::Ok(Value::Simple(Primitive::Boolean(self.compute(x, false))))
        }
    }
}

} // verus!
