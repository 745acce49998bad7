//! The pattern language: syntax to destructure the built-in value shapes.

use vstd::prelude::*;

use crate::semantics::bindings_model;
use crate::semantics::lemma_bindings_model_push;
use crate::semantics::lemma_prefix_trans;
use crate::semantics::lemma_psize_sum_index;
use crate::semantics::lemma_values_model;
use crate::semantics::match_list_spec;
use crate::semantics::match_spec;
use crate::semantics::psize;
use crate::semantics::value_model;
use crate::semantics::values_model;
use crate::semantics::SpecValue;
use crate::value::value_eq;
use crate::value::Value;

verus! {

/// A pattern tree, the structural mirror of the value shapes it can
/// destructure.
#[derive(Debug)]
pub enum Pattern {
    /// Matches exactly the values equal to the given one under value
    /// equality; produces no bindings.
    PConstant(Value),
    /// Matches any value and binds it to the identifier.
    PVariable(String),
    /// Matches a tuple of the same arity whose elements match positionally.
    PTupleConstructor(Vec<Pattern>),
}

impl Pattern {
    /// Tests this pattern against a value: `None` on failure, otherwise the
    /// ordered bindings the match produced. Matching is pure and total over
    /// every pattern and value; it never fails with an error.
    pub fn matches(&self, value: &Value) -> (r: Option<Vec<(String, Value)>>)
        ensures
            match r {
                Option::Some(bs) => match_spec(*self, value_model(*value)) == Option::Some(
                    bindings_model(bs@, 0),
                ),
                Option::None => match_spec(*self, value_model(*value)) == Option::<
                    Seq<(Seq<char>, SpecValue)>,
                >::None,
            },
    {
        let mut bindings: Vec<(String, Value)> = Vec::new();
        let ghost pre = bindings_model(bindings@, 0);
        if !self.find_bindings(value, &mut bindings) {
            return Option::None;
        }
        proof {
            assert(pre.len() == 0);
            assert(pre + match_spec(*self, value_model(*value)).unwrap() =~= match_spec(
                *self,
                value_model(*value),
            ).unwrap());
        }
        Option::Some(bindings)
    }

    /// Tests this pattern against a value, appending the bindings of a
    /// successful match to `bindings`. On failure the entries already
    /// present are kept (a failed sub-match may leave further entries
    /// behind; the caller discards them).
    fn find_bindings(&self, value: &Value, bindings: &mut Vec<(String, Value)>) -> (b: bool)
        ensures
            match match_spec(*self, value_model(*value)) {
                Option::Some(ms) => b && bindings_model(final(bindings)@, 0) == bindings_model(
                    old(bindings)@,
                    0,
                ) + ms,
                Option::None => !b && bindings_model(old(bindings)@, 0).is_prefix_of(
                    bindings_model(final(bindings)@, 0),
                ),
            },
        decreases psize(*self),
    {
        let ghost base = bindings_model(old(bindings)@, 0);
        proof {
            assert(base.is_prefix_of(base));
        }
        match (self, value) {
            (Pattern::PConstant(pval), val) => value_eq(pval, val),
            (Pattern::PVariable(sym), val) => {
                let ghost before = bindings@;
                let k = sym.clone();
                let v = val.clone();
                bindings.push((k, v));
                proof {
                    lemma_bindings_model_push(before, k, v);
                    assert(base + seq![(sym@, value_model(*value))] =~= base.push(
                        (sym@, value_model(*value)),
                    ));
                }
                true
            },
            (Pattern::PTupleConstructor(nested_patterns), Value::Tuple(nested_values)) => {
                let ghost ps = nested_patterns@;
                let ghost vsm = values_model(nested_values@, 0);
                proof {
                    lemma_values_model(nested_values@, 0);
                }
                if nested_patterns.len() != nested_values.len() {
                    return false;
                }
                let n = nested_patterns.len();
                let mut i: usize = 0;
                while i < n
                    invariant
                        i <= n,
                        n == ps.len(),
                        ps == nested_patterns@,
                        nested_values@.len() == n,
                        vsm == values_model(nested_values@, 0),
                        vsm.len() == n,
                        forall|j: int| 0 <= j < n ==> vsm[j] == value_model(nested_values@[j]),
                        psize(*self) == 1 + crate::semantics::psize_sum(ps, 0),
                        value_model(*value) == SpecValue::Tup(vsm),
                        match_spec(*self, value_model(*value)) == match_list_spec(ps, vsm, 0),
                        base == bindings_model(old(bindings)@, 0),
                        base.is_prefix_of(bindings_model(bindings@, 0)),
                        match match_list_spec(ps, vsm, i as int) {
                            Option::None => match_list_spec(ps, vsm, 0) == Option::<
                                Seq<(Seq<char>, SpecValue)>,
                            >::None,
                            Option::Some(rest) => match_list_spec(ps, vsm, 0) == Option::Some(
                                bindings_model(bindings@, 0).skip(base.len() as int) + rest,
                            ),
                        },
                    decreases n - i,
                {
                    let ghost cur = bindings_model(bindings@, 0);
                    proof {
                        lemma_psize_sum_index(ps, 0, i as int);
                    }
                    let ok = nested_patterns[i].find_bindings(&nested_values[i], bindings);
                    if !ok {
                        proof {
                            lemma_prefix_trans(base, cur, bindings_model(bindings@, 0));
                            assert(match_spec(ps[i as int], vsm[i as int]) is None);
                            assert(match_list_spec(ps, vsm, i as int) is None);
                            assert(value_model(*value) == SpecValue::Tup(vsm));
                            assert(match_spec(*self, value_model(*value)) is None);
                        }
                        return false;
                    }
                    proof {
                        let ms = match_spec(ps[i as int], vsm[i as int]).unwrap();
                        assert(bindings_model(bindings@, 0) == cur + ms);
                        assert(cur.is_prefix_of(cur + ms)) by {
                            assert(cur =~= (cur + ms).subrange(0, cur.len() as int));
                        }
                        lemma_prefix_trans(base, cur, bindings_model(bindings@, 0));
                        if match_list_spec(ps, vsm, i + 1) is Some {
                            let rest2 = match_list_spec(ps, vsm, i + 1).unwrap();
                            assert((cur + ms).skip(base.len() as int) =~= cur.skip(
                                base.len() as int,
                            ) + ms);
                            assert(cur.skip(base.len() as int) + (ms + rest2) =~= (cur + ms).skip(
                                base.len() as int,
                            ) + rest2);
                        }
                    }
                    i = i + 1;
                }
                proof {
                    let fin = bindings_model(bindings@, 0);
                    assert(fin.skip(base.len() as int) + Seq::<
                        (Seq<char>, SpecValue),
                    >::empty() =~= fin.skip(base.len() as int));
                    assert(base + fin.skip(base.len() as int) =~= fin);
                }
                true
            },
            _ => false,
        }
    }
}

} // verus!
