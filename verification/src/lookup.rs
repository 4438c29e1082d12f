//! The identifier-to-position table: a `HashMap` with ahash's hasher.
//!
//! vstd describes `HashMap` as a `Map`, but only for hashers it knows to be
//! deterministic. The wrappers here state the same map behaviour for ahash's
//! `RandomState`, whose hashers are fixed by seeds chosen once at construction.
//! Nothing here is proved.

use std::collections::{HashMap, HashSet};
use vstd::prelude::*;

verus! {

/// ahash's hasher state. Opaque: it only lives inside the table.
#[verifier::external_type_specification]
#[verifier::external_body]
pub struct ExRandomState(ahash::RandomState);

/// A position in the index: the group, and the place within the group.
pub type Position = (usize, usize);

/// `HashMap::insert`: afterwards `id` maps to `position`, and every other
/// identifier maps to what it mapped to before.
#[verifier::external_body]
pub(crate) fn lookup_insert(
    table: &mut HashMap<u32, Position, ahash::RandomState>,
    id: u32,
    position: Position,
)
    ensures
        final(table)@ == old(table)@.insert(id, position),
{
    table.insert(id, position);
}

/// `HashMap::remove`: afterwards `id` is absent and the other entries are
/// untouched; the result is the position that `id` had, if it had one.
#[verifier::external_body]
pub(crate) fn lookup_remove(
    table: &mut HashMap<u32, Position, ahash::RandomState>,
    id: u32,
) -> (found: Option<Position>)
    ensures
        final(table)@ == old(table)@.remove(id),
        found == (if old(table)@.contains_key(id) {
            Some(old(table)@[id])
        } else {
            None
        }),
{
    table.remove(&id)
}

/// `HashMap::get`: the position that `id` maps to, if it maps to one.
#[verifier::external_body]
pub(crate) fn lookup_get(table: &HashMap<u32, Position, ahash::RandomState>, id: u32) -> (found:
    Option<Position>)
    ensures
        found == (if table@.contains_key(id) {
            Some(table@[id])
        } else {
            None
        }),
{
    table.get(&id).copied()
}

/// `HashSet::drain`, collected: empties the set and hands out what it held, each
/// identifier once, in no particular order.
#[verifier::external_body]
pub(crate) fn drain_ids(ids: &mut HashSet<u32, ahash::RandomState>) -> (drained: Vec<u32>)
    ensures
        final(ids)@ == Set::<u32>::empty(),
        drained@.no_duplicates(),
        forall|id: u32| drained@.contains(id) <==> old(ids)@.contains(id),
{
    ids.drain().collect()
}

} // verus!
