//! The order in which palette values are sorted: the `Ord` of their type.

use vstd::prelude::*;

use core::cmp::Ordering;
use vstd::std_specs::cmp::{OrdSpec, PartialEqSpec, PartialOrdSpec};

verus! {

/// Where one value stands relative to another in a total order.
#[derive(Debug, Clone, Copy, PartialEq, Eq, Structural)]
pub enum Precedence {
    Before,
    Same,
    After,
}

/// Whether the `Ord` of `T` is a total order, and its `PartialOrd` and `PartialEq` agree
/// with it.
pub open spec fn spec_total_order<T: Ord>() -> bool {
    vstd::laws_cmp::obeys_cmp::<T>()
}

/// Where `a` stands relative to `b` in the `Ord` of `T`.
pub open spec fn spec_precedence<T: Ord>(a: T, b: T) -> Precedence {
    match a.cmp_spec(&b) {
        Ordering::Less => Precedence::Before,
        Ordering::Equal => Precedence::Same,
        Ordering::Greater => Precedence::After,
    }
}

/// Compare `a` with `b` by the `Ord` of `T`.
pub fn precedence<T: Ord>(a: &T, b: &T) -> (res: Precedence)
    requires
        spec_total_order::<T>(),
    ensures
        res == spec_precedence(*a, *b),
{
    proof {
        reveal(vstd::laws_cmp::obeys_cmp_ord);
    }
    match a.cmp(b) {
        Ordering::Less => Precedence::Before,
        Ordering::Equal => Precedence::Same,
        Ordering::Greater => Precedence::After,
    }
}

/// The laws of a total order, as `spec_precedence` sees them.
pub proof fn lemma_precedence_laws<T: Ord>()
    requires
        spec_total_order::<T>(),
    ensures
        forall|a: T, b: T|
            #[trigger] spec_precedence(a, b) == Precedence::Before <==> spec_precedence(b, a)
                == Precedence::After,
        forall|a: T, b: T|
            #[trigger] spec_precedence(a, b) == Precedence::Same <==> spec_precedence(b, a)
                == Precedence::Same,
        forall|a: T| #[trigger] spec_precedence(a, a) == Precedence::Same,
        forall|a: T, b: T, c: T|
            #![trigger spec_precedence(a, b), spec_precedence(b, c)]
            spec_precedence(a, b) != Precedence::After && spec_precedence(b, c)
                != Precedence::After ==> spec_precedence(a, c) != Precedence::After,
        forall|a: T, b: T, c: T|
            #![trigger spec_precedence(a, b), spec_precedence(b, c)]
            spec_precedence(a, b) == Precedence::Before && spec_precedence(b, c)
                != Precedence::After ==> spec_precedence(a, c) == Precedence::Before,
        forall|a: T, b: T, c: T|
            #![trigger spec_precedence(a, b), spec_precedence(b, c)]
            spec_precedence(a, b) != Precedence::After && spec_precedence(b, c)
                == Precedence::Before ==> spec_precedence(a, c) == Precedence::Before,
        forall|a: T, b: T, c: T|
            #![trigger spec_precedence(a, b), spec_precedence(b, c)]
            spec_precedence(a, b) == Precedence::Same && spec_precedence(b, c)
                == Precedence::Same ==> spec_precedence(a, c) == Precedence::Same,
{
    reveal(vstd::laws_cmp::obeys_cmp_ord);
    reveal(vstd::laws_cmp::obeys_cmp_partial_ord);
    reveal(vstd::laws_cmp::obeys_partial_cmp_spec_properties);
    reveal(vstd::laws_eq::obeys_eq_spec_properties);
    assert forall|a: T, b: T|
        #[trigger] spec_precedence(a, b) == Precedence::Before <==> spec_precedence(b, a)
            == Precedence::After by {
        assert(a.partial_cmp_spec(&b) == Some(a.cmp_spec(&b)));
        assert(b.partial_cmp_spec(&a) == Some(b.cmp_spec(&a)));
    }
    assert forall|a: T, b: T|
        #[trigger] spec_precedence(a, b) == Precedence::Same <==> spec_precedence(b, a)
            == Precedence::Same by {
        assert(a.partial_cmp_spec(&b) == Some(a.cmp_spec(&b)));
        assert(b.partial_cmp_spec(&a) == Some(b.cmp_spec(&a)));
        assert(a.eq_spec(&b) <==> b.eq_spec(&a));
    }
    assert forall|a: T| #[trigger] spec_precedence(a, a) == Precedence::Same by {
        assert(a.partial_cmp_spec(&a) == Some(a.cmp_spec(&a)));
        assert(spec_precedence(a, a) == Precedence::Before <==> spec_precedence(a, a)
            == Precedence::After);
    }
    assert forall|a: T, b: T, c: T|
        #![trigger spec_precedence(a, b), spec_precedence(b, c)]
        spec_precedence(a, b) == Precedence::Same && spec_precedence(b, c) == Precedence::Same
            implies spec_precedence(a, c) == Precedence::Same by {
        assert(a.partial_cmp_spec(&b) == Some(a.cmp_spec(&b)));
        assert(b.partial_cmp_spec(&c) == Some(b.cmp_spec(&c)));
        assert(a.partial_cmp_spec(&c) == Some(a.cmp_spec(&c)));
        assert(a.eq_spec(&b) && b.eq_spec(&c));
        assert(a.eq_spec(&c));
    }
    assert forall|a: T, b: T, c: T|
        #![trigger spec_precedence(a, b), spec_precedence(b, c)]
        spec_precedence(a, b) == Precedence::Before && spec_precedence(b, c) == Precedence::Before
            implies spec_precedence(a, c) == Precedence::Before by {
        assert(a.partial_cmp_spec(&b) == Some(a.cmp_spec(&b)));
        assert(b.partial_cmp_spec(&c) == Some(b.cmp_spec(&c)));
        assert(a.partial_cmp_spec(&c) == Some(a.cmp_spec(&c)));
    }
    assert forall|a: T, b: T, c: T|
        #![trigger spec_precedence(a, b), spec_precedence(b, c)]
        spec_precedence(a, b) == Precedence::Before && spec_precedence(b, c) == Precedence::Same
            implies spec_precedence(a, c) == Precedence::Before by {
        assert(a.partial_cmp_spec(&b) == Some(a.cmp_spec(&b)));
        assert(b.partial_cmp_spec(&c) == Some(b.cmp_spec(&c)));
        assert(a.partial_cmp_spec(&c) == Some(a.cmp_spec(&c)));
        assert(c.partial_cmp_spec(&a) == Some(c.cmp_spec(&a)));
        assert(c.partial_cmp_spec(&b) == Some(c.cmp_spec(&b)));
        assert(b.partial_cmp_spec(&a) == Some(b.cmp_spec(&a)));
        assert(b.eq_spec(&c) <==> c.eq_spec(&b));
        if a.cmp_spec(&c) == Ordering::Equal {
            assert(a.eq_spec(&c));
            assert(c.eq_spec(&b));
            assert(a.eq_spec(&b));
        } else if a.cmp_spec(&c) == Ordering::Greater {
            assert(c.cmp_spec(&a) == Ordering::Less);
            assert(c.partial_cmp_spec(&b) == Some(Ordering::Less));
        }
    }
    assert forall|a: T, b: T, c: T|
        #![trigger spec_precedence(a, b), spec_precedence(b, c)]
        spec_precedence(a, b) == Precedence::Same && spec_precedence(b, c) == Precedence::Before
            implies spec_precedence(a, c) == Precedence::Before by {
        assert(a.partial_cmp_spec(&b) == Some(a.cmp_spec(&b)));
        assert(b.partial_cmp_spec(&c) == Some(b.cmp_spec(&c)));
        assert(a.partial_cmp_spec(&c) == Some(a.cmp_spec(&c)));
        assert(c.partial_cmp_spec(&a) == Some(c.cmp_spec(&a)));
        assert(b.partial_cmp_spec(&a) == Some(b.cmp_spec(&a)));
        assert(a.eq_spec(&b) <==> b.eq_spec(&a));
        if a.cmp_spec(&c) == Ordering::Equal {
            assert(b.eq_spec(&a));
            assert(a.eq_spec(&c));
            assert(b.eq_spec(&c));
        } else if a.cmp_spec(&c) == Ordering::Greater {
            assert(c.cmp_spec(&a) == Ordering::Less);
            assert(b.partial_cmp_spec(&a) == Some(Ordering::Less));
        }
    }
}

} // verus!
