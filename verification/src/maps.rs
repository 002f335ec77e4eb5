//! The concurrent map the server keeps its tables in (`dashmap::DashMap`).
//!
//! Each table of the crate is a `DashMap` with `String` keys; what a table
//! holds is named per table (see `registry`, `metrics` and `dashboard`),
//! and every change goes through a `&mut` wrapper whose contract says how
//! the contents change. The tables never hand out references into the map.

use dashmap::DashMap;
use vstd::prelude::*;

verus! {

#[verifier::external_type_specification]
#[verifier::external_body]
#[verifier::reject_recursive_types(K)]
#[verifier::reject_recursive_types(V)]
#[verifier::reject_recursive_types(S)]
pub struct ExDashMap<K, V, S>(DashMap<K, V, S>);

/// The keys of a string-keyed map have distinct characters, and they are
/// exactly the given domain.
pub open spec fn keys_listed(keys: Seq<String>, dom: Set<Seq<char>>) -> bool {
    &&& keys.len() == dom.len()
    &&& forall|i: int| 0 <= i < keys.len() ==> dom.contains(#[trigger] keys[i]@)
    &&& forall|i: int, j: int| 0 <= i < keys.len() && 0 <= j < keys.len() && i != j ==> keys[i]@
        != keys[j]@
    &&& forall|k: Seq<char>| dom.contains(k) ==> exists|i: int| 0 <= i < keys.len() && keys[i]@ == k
}

} // verus!
