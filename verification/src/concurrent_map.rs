//! The `dashmap` concurrent hash map, as the library's stores use it.

use vstd::prelude::*;

use dashmap::DashMap;

verus! {

/// `dashmap::DashMap`, opaque to the verifier; each instantiation used by
/// the library names its contents.
#[verifier::external_type_specification]
#[verifier::external_body]
#[verifier::reject_recursive_types(K)]
#[verifier::reject_recursive_types(V)]
#[verifier::reject_recursive_types(S)]
pub struct ExDashMap<K, V, S>(DashMap<K, V, S>);

} // verus!
