//! Priority classes and the order that selection follows.
//!
//! A class that compares smaller is served first. Two classes that compare equal
//! are one class.

use std::cmp::Ordering;
use vstd::prelude::*;
use vstd::std_specs::cmp::OrdSpec;

verus! {

/// A priority class: any type with a total order.
pub trait Priority: Ord {}

impl<P: Ord> Priority for P {}

/// `a` is served strictly before `b`.
pub open spec fn before<P: Ord>(a: P, b: P) -> bool {
    a.cmp_spec(&b) == Ordering::Less
}

/// `a` and `b` are the same class.
pub open spec fn same_class<P: Ord>(a: P, b: P) -> bool {
    a.cmp_spec(&b) == Ordering::Equal
}

/// `a` is served before `b`, or they are the same class.
pub open spec fn not_after<P: Ord>(a: P, b: P) -> bool {
    a.cmp_spec(&b) != Ordering::Greater
}

/// The comparison of `P` is a total order, and the executable `cmp` computes it.
///
/// Totality and antisymmetry: `a` is before `b` exactly when `b` is after `a`.
/// Transitivity is asked of `not_after`, which also makes "same class" an
/// equivalence that the order respects.
pub open spec fn lawful_order<P: Ord>() -> bool {
    &&& P::obeys_cmp_spec()
    &&& forall|a: P, b: P|
        #![trigger a.cmp_spec(&b)]
        a.cmp_spec(&b) == Ordering::Less <==> b.cmp_spec(&a) == Ordering::Greater
    &&& forall|a: P, b: P, c: P|
        #![trigger not_after(a, b), not_after(b, c)]
        not_after(a, b) && not_after(b, c) ==> not_after(a, c)
}

/// How one priority class stands to another.
#[derive(Debug, Clone, Copy, PartialEq, Eq, Structural)]
pub enum Standing {
    /// Served first.
    Before,
    /// The same class.
    Same,
    /// Served later.
    After,
}

/// Where `a` stands relative to `b`.
pub fn standing<P: Ord>(a: &P, b: &P) -> (s: Standing)
    requires
        lawful_order::<P>(),
    ensures
        s == Standing::Before <==> before(*a, *b),
        s == Standing::Same <==> same_class(*a, *b),
        s == Standing::After <==> before(*b, *a),
{
    match a.cmp(b) {
        Ordering::Less => Standing::Before,
        Ordering::Equal => Standing::Same,
        Ordering::Greater => Standing::After,
    }
}

/// Exactly one of "before", "same class" and "after" holds of two classes.
pub proof fn lemma_trichotomy<P: Ord>(a: P, b: P)
    requires
        lawful_order::<P>(),
    ensures
        before(a, b) || same_class(a, b) || before(b, a),
        !(before(a, b) && same_class(a, b)),
        !(before(a, b) && before(b, a)),
        !(same_class(a, b) && before(b, a)),
{
}

/// "Before" is transitive, also through a class that is merely not after.
pub proof fn lemma_before_transitive<P: Ord>(a: P, b: P, c: P)
    requires
        lawful_order::<P>(),
    ensures
        before(a, b) && not_after(b, c) ==> before(a, c),
        not_after(a, b) && before(b, c) ==> before(a, c),
{
    if before(a, b) && not_after(b, c) && !before(a, c) {
        // c is not after a, so b, not being after c, is not after a either
        assert(not_after(c, a));
        assert(not_after(a, b));
        assert(not_after(c, b));
        assert(not_after(b, a));
    }
    if not_after(a, b) && before(b, c) && !before(a, c) {
        assert(not_after(c, a));
        assert(not_after(c, b));
    }
}

/// The integers are lawful priority classes: a smaller number is served first.
pub proof fn lemma_integers_lawful()
    ensures
        lawful_order::<u8>(),
        lawful_order::<u16>(),
        lawful_order::<u32>(),
        lawful_order::<u64>(),
        lawful_order::<u128>(),
        lawful_order::<usize>(),
        lawful_order::<i8>(),
        lawful_order::<i16>(),
        lawful_order::<i32>(),
        lawful_order::<i64>(),
        lawful_order::<i128>(),
        lawful_order::<isize>(),
{
}

} // verus!
