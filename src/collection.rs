//! The collection normalizer: a list or an index-keyed object as one mapping from index
//! to element.

use vstd::prelude::*;

use std::collections::HashMap;

verus! {

broadcast use vstd::std_specs::hash::group_hash_axioms;

/// A collection as the wire sends it: a list, or an object keyed by index.
#[verifier::reject_recursive_types(T)]
pub enum ArrayOrObject<T> {
    Array(Vec<T>),
    Object(HashMap<usize, T>),
}

/// Each element of `s` under its position.
pub open spec fn indexed<T>(s: Seq<T>) -> Map<usize, T> {
    Map::new(|k: usize| (k as int) < s.len(), |k: usize| s[k as int])
}

/// Each element of `s` from position `from` on, under its position.
pub open spec fn indexed_from<T>(s: Seq<T>, from: int) -> Map<usize, T> {
    Map::new(|k: usize| from <= (k as int) < s.len(), |k: usize| s[k as int])
}

/// Turns a collection into a mapping from index to element: an object keeps its keys, a
/// list puts each element under its position.
pub fn array_or_object<T>(raw: ArrayOrObject<T>) -> (r: HashMap<usize, T>)
    ensures
        match raw {
            ArrayOrObject::Object(o) => r@ == o@,
            ArrayOrObject::Array(a) => r@ == indexed(a@),
        },
{
    match raw {
        ArrayOrObject::Object(o) => o,
        ArrayOrObject::Array(a) => {
            let ghost all = a@;
            let mut rest = a;
            let mut m: HashMap<usize, T> = HashMap::new();
            assert(m@ =~= indexed_from(all, all.len() as int));
            while rest.len() > 0
                invariant
                    rest@ == all.take(rest.len() as int),
                    rest.len() <= all.len(),
                    m@ == indexed_from(all, rest.len() as int),
                decreases rest.len(),
            {
                match rest.pop() {
                    Some(x) => {
                        let k = rest.len();
                        assert(x == all[k as int]);
                        m.insert(k, x);
                        assert(rest@ =~= all.take(k as int));
                        assert(m@ =~= indexed_from(all, k as int));
                    },
                    None => {},
                }
            }
            assert(m@ =~= indexed(all));
            m
        },
    }
}

} // verus!
