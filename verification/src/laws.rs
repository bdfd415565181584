//! General laws of the registry's storage model.
//!
//! The registry is specified against a `Map<TypeId, Slot>` model: every
//! insertion is a `Map::insert` of the type's identity token, and every
//! lookup reads that map (see `di`).  The proof functions here state, over
//! that model, the laws that hold of any sequence of registrations.

use vstd::prelude::*;
use core::any::TypeId;
use crate::erase::Slot;

verus! {

/// Last write wins: after any two stores under the same identity token, the
/// registry is exactly what it would be had only the later store happened,
/// and a lookup of that token yields the later value.
pub proof fn lemma_latest_insert_wins(m: Map<TypeId, Slot>, k: TypeId, s1: Slot, s2: Slot)
    ensures
        m.insert(k, s1).insert(k, s2) == m.insert(k, s2),
        m.insert(k, s1).insert(k, s2)[k] == s2,
{
    assert(m.insert(k, s1).insert(k, s2) =~= m.insert(k, s2));
}

/// Identity isolation: a store under one identity token never adds, removes
/// or overwrites the value held under a distinct token, whatever the stored
/// values themselves look like.
pub proof fn lemma_identity_isolation(m: Map<TypeId, Slot>, k1: TypeId, k2: TypeId, s: Slot)
    requires
        k1 != k2,
    ensures
        m.insert(k1, s).contains_key(k2) == m.contains_key(k2),
        m.contains_key(k2) ==> m.insert(k1, s)[k2] == m[k2],
{
}

/// Absent before insert: a fresh registry holds nothing under any identity
/// token.
pub proof fn lemma_fresh_registry_absent(k: TypeId)
    ensures
        !Map::<TypeId, Slot>::empty().contains_key(k),
{
}

/// Registration order is irrelevant for distinct identities: two stores under
/// distinct tokens commute, so once the registry is frozen every instance is
/// reachable no matter the order in which the instances were registered.
pub proof fn lemma_registration_order_irrelevant(
    m: Map<TypeId, Slot>,
    k1: TypeId,
    s1: Slot,
    k2: TypeId,
    s2: Slot,
)
    requires
        k1 != k2,
    ensures
        m.insert(k1, s1).insert(k2, s2) == m.insert(k2, s2).insert(k1, s1),
{
    assert(m.insert(k1, s1).insert(k2, s2) =~= m.insert(k2, s2).insert(k1, s1));
}

} // verus!
