//! Sets of TCP ports, as the configuration hands them over.

use indexmap::IndexSet;
use std::collections::hash_map::RandomState;
use vstd::prelude::*;

verus! {

/// `indexmap::IndexSet`: a set that remembers the order of insertion. Nothing
/// of its inside is known here; what it holds is named by `listed_ports`.
#[verifier::external_type_specification]
#[verifier::external_body]
#[verifier::reject_recursive_types(T)]
#[verifier::reject_recursive_types(S)]
pub struct ExIndexSet<T, S>(IndexSet<T, S>);

/// The ports that a port set holds.
pub uninterp spec fn listed_ports(ports: IndexSet<u16, RandomState>) -> Set<u16>;

/// `IndexSet::contains`: whether a value equal to `port` is in the set. This
/// is what says which ports a set holds.
#[verifier::external_body]
pub(crate) fn lists_port(ports: &IndexSet<u16, RandomState>, port: u16) -> (listed: bool)
    ensures
        listed == listed_ports(*ports).contains(port),
{
    ports.contains(&port)
}

} // verus!
