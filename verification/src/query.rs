//! A query: opaque query text plus named parameters, immutable once
//! submitted.
use vstd::prelude::*;
use vstd::slice::slice_to_vec;
use vstd::string::StringSliceAdditionalSpecFns;
use crate::value::{pair_models, Value, ValueModel};

verus! {

/// A query to run: its text as UTF-8 bytes, and its parameters in the
/// order they were added.
pub struct Query {
    pub text: Vec<u8>,
    pub params: Vec<(Vec<u8>, Value)>,
}

impl Query {
    /// A query of the given text, with no parameters yet.
    pub fn new(q: &str) -> (r: Query)
        ensures
            r.text@ == q.spec_bytes(),
            r.params@.len() == 0,
    {
        Query { text: slice_to_vec(q.as_bytes()), params: Vec::new() }
    }

    /// The same query with one more named parameter.
    pub fn param(self, name: &str, value: Value) -> (r: Query)
        ensures
            r.text == self.text,
            r.params@.len() == self.params@.len() + 1,
            pair_models(r.params@) == pair_models(self.params@).push(
                (name.spec_bytes(), value.model()),
            ),
    {
        let mut params = self.params;
        let ghost before = params@;
        params.push((slice_to_vec(name.as_bytes()), value));
        proof {
            assert(pair_models(params@) =~= pair_models(before).push(
                (name.spec_bytes(), params@.last().1.model()),
            ));
        }
        Query { text: self.text, params }
    }
}

/// A query of the given text, ready to take parameters.
pub fn query(q: &str) -> (r: Query)
    ensures
        r.text@ == q.spec_bytes(),
        r.params@.len() == 0,
{
    Query::new(q)
}

} // verus!
