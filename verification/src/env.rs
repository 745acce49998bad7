//! The lexical environment chain: immutable-once-built scope records mapping
//! identifiers to values, each linked to an optional parent.
//!
//! A frame is assembled through [`EnvBuilder`] and frozen by
//! [`EnvBuilder::build`]; after that no operation mutates it, which is what
//! makes frames safe to share (through `Arc`) between closures and nested
//! scopes. Within one frame, a binding staged later shadows an earlier one
//! for the same identifier: lookup takes the last write.

use vstd::prelude::*;

use std::sync::Arc;

use crate::semantics::bindings_model;
use crate::semantics::child_env;
use crate::semantics::env_model;
use crate::semantics::frame_lookup;
use crate::semantics::lemma_bindings_model;
use crate::semantics::lookup_spec;
use crate::semantics::value_model;
use crate::semantics::SpecEnv;
use crate::semantics::SpecValue;
use crate::value::Value;

verus! {

/// One scope record: a frame of bindings plus an optional parent scope.
#[derive(Debug)]
pub struct Env {
    pub bindings: Vec<(String, Value)>,
    pub parent: Option<Arc<Env>>,
}

/// Accumulates bindings for a frame that is not yet published.
pub struct EnvBuilder {
    pub env: Env,
}

impl Env {
    /// Begins constructing a new child frame whose parent is `outer`; the
    /// child shares `outer` rather than copying it.
    pub fn inside(outer: &Arc<Env>) -> (b: EnvBuilder)
        ensures
            env_model(b.env) == child_env(env_model(**outer), Seq::empty()),
    {
        let scope = Env { bindings: Vec::new(), parent: Option::Some(arc_env_clone(outer)) };
        proof {
            assert(scope.bindings@.len() == 0);
            assert(bindings_model(scope.bindings@, 0) == Seq::<(Seq<char>, SpecValue)>::empty());
        }
        EnvBuilder { env: scope }
    }

    /// Begins constructing a root scope, one with no parent.
    pub fn global() -> (b: EnvBuilder)
        ensures
            env_model(b.env) == (SpecEnv { frame: Seq::empty(), parent: Option::None }),
    {
        let global_scope = Env { bindings: Vec::new(), parent: Option::None };
        proof {
            assert(global_scope.bindings@.len() == 0);
            assert(bindings_model(global_scope.bindings@, 0) == Seq::<
                (Seq<char>, SpecValue),
            >::empty());
        }
        EnvBuilder { env: global_scope }
    }

    /// The value bound to `identifier`: the local frame is consulted first
    /// (its last staged binding wins), then the parent chain; `None` only
    /// when the whole chain is exhausted.
    pub fn get(&self, identifier: &str) -> (r: Option<Value>)
        ensures
            match r {
                Option::Some(v) => lookup_spec(env_model(*self), identifier@) == Option::Some(
                    value_model(v),
                ),
                Option::None => lookup_spec(env_model(*self), identifier@) == Option::<
                    SpecValue,
                >::None,
            },
        decreases *self,
    {
        let ghost fm = bindings_model(self.bindings@, 0);
        proof {
            lemma_bindings_model(self.bindings@, 0);
            assert(fm.take(fm.len() as int) =~= fm);
        }
        let mut i: usize = self.bindings.len();
        while i > 0
            invariant
                i <= self.bindings@.len(),
                fm == bindings_model(self.bindings@, 0),
                fm.len() == self.bindings@.len(),
                forall|j: int| 0 <= j < fm.len() ==> fm[j] == (
                self.bindings@[j].0@,
                value_model(self.bindings@[j].1),
                ),
                frame_lookup(fm, identifier@) == frame_lookup(fm.take(i as int), identifier@),
            decreases i,
        {
            i = i - 1;
            proof {
                assert(fm.take(i as int + 1).last() == fm[i as int]);
                assert(fm.take(i as int + 1).drop_last() =~= fm.take(i as int));
            }
            if str_eq(self.bindings[i].0.as_str(), identifier) {
                return Option::Some(self.bindings[i].1.clone());
            }
        }
        proof {
            assert(fm.take(0) =~= Seq::<(Seq<char>, SpecValue)>::empty());
        }
        match &self.parent {
            Option::Some(parent) => parent.get(identifier),
            Option::None => Option::None,
        }
    }
}

impl EnvBuilder {
    /// Freezes the accumulated frame into an immutable, shareable scope; no
    /// operation mutates a frame obtained here.
    pub fn build(self) -> (r: Arc<Env>)
        ensures
            *r == self.env,
    {
        Arc::new(self.env)
    }

    /// Stages every listed binding in order; a later binding for the same
    /// identifier shadows an earlier one.
    pub fn bind(self, bindings: Vec<(String, Value)>) -> (r: Self)
        ensures
            env_model(r.env).frame == env_model(self.env).frame + bindings_model(bindings@, 0),
            env_model(r.env).parent == env_model(self.env).parent,
    {
        proof {
            lemma_bindings_model(bindings@, 0);
        }
        let ghost base = env_model(self.env);
        let mut b = self;
        let mut i: usize = 0;
        while i < bindings.len()
            invariant
                i <= bindings@.len(),
                bindings_model(bindings@, 0).len() == bindings@.len(),
                forall|j: int| 0 <= j < bindings@.len() ==> bindings_model(bindings@, 0)[j] == (
                bindings@[j].0@,
                value_model(bindings@[j].1),
                ),
                env_model(b.env).frame == base.frame + bindings_model(bindings@, 0).take(i as int),
                env_model(b.env).parent == base.parent,
            decreases bindings@.len() - i,
        {
            let ghost before = b.env.bindings@;
            let k = bindings[i].0.clone();
            let v = bindings[i].1.clone();
            b.env.bindings.push((k, v));
            proof {
                crate::semantics::lemma_bindings_model_push(before, k, v);
                assert(bindings_model(bindings@, 0).take(i as int + 1) =~= bindings_model(
                    bindings@,
                    0,
                ).take(i as int).push((bindings@[i as int].0@, value_model(bindings@[i as int].1))));
                assert(base.frame + bindings_model(bindings@, 0).take(i as int + 1)
                    =~= (base.frame + bindings_model(bindings@, 0).take(i as int)).push(
                    (k@, value_model(v)),
                ));
            }
            i = i + 1;
        }
        proof {
            assert(bindings_model(bindings@, 0).take(bindings@.len() as int) =~= bindings_model(
                bindings@,
                0,
            ));
        }
        b
    }

    /// Stages one binding, shadowing any earlier one staged for the same
    /// identifier.
    pub fn bind_one(self, sym: String, value: Value) -> (r: Self)
        ensures
            env_model(r.env).frame == env_model(self.env).frame.push(
                (sym@, value_model(value)),
            ),
            env_model(r.env).parent == env_model(self.env).parent,
    {
        let ghost before = self.env.bindings@;
        let mut b = self;
        b.env.bindings.push((sym, value));
        proof {
            crate::semantics::lemma_bindings_model_push(before, sym, value);
        }
        b
    }
}

/// Relies on `Arc::clone`: the clone is a new handle to the same shared
/// scope record.
#[verifier::external_body]
pub(crate) fn arc_env_clone(e: &Arc<Env>) -> (r: Arc<Env>)
    ensures
        r == *e,
{
    Arc::clone(e)
}

/// Relies on `str`'s `PartialEq`: two string slices compare equal exactly
/// when their characters do.
#[verifier::external_body]
pub(crate) fn str_eq(a: &str, b: &str) -> (r: bool)
    ensures
        r == (a@ == b@),
{
    a == b
}

} // verus!
