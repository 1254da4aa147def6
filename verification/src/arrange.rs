//! Lists in a fixed order.

use crate::messages::{EndpointModel, EndpointView, SessionModel, SessionView};
use crate::text;
use vstd::prelude::*;

verus! {

/// A total order on what a type holds.
pub trait Arranged: View + Sized {
    /// Whether `a` may stand before `b`.
    spec fn precedes(a: Self::V, b: Self::V) -> bool;

    proof fn either_precedes(a: Self::V, b: Self::V)
        ensures
            Self::precedes(a, b) || Self::precedes(b, a),
    ;

    proof fn precedes_is_transitive(a: Self::V, b: Self::V, c: Self::V)
        requires
            Self::precedes(a, b),
            Self::precedes(b, c),
        ensures
            Self::precedes(a, c),
    ;

    /// Whether this may stand before `other`.
    fn may_precede(&self, other: &Self) -> (yes: bool)
        ensures
            yes == Self::precedes(self@, other@),
    ;

    fn copied(&self) -> (copy: Self)
        ensures
            copy@ == self@,
    ;
}

/// What each item of a list holds.
pub open spec fn views<T: View>(items: Seq<T>) -> Seq<T::V> {
    items.map_values(|item: T| item@)
}

/// Whether each item may stand before all that follow it.
pub open spec fn in_order<T: Arranged>(items: Seq<T::V>) -> bool {
    forall|i: int, j: int|
        0 <= i < j < items.len() ==> T::precedes(#[trigger] items[i], #[trigger] items[j])
}

/// A copy of `items`, in order.
pub fn arranged<T: Arranged>(items: &Vec<T>) -> (result: Vec<T>)
    ensures
        in_order::<T>(views(result@)),
        views(result@).to_multiset() == views(items@).to_multiset(),
{
    let mut result: Vec<T> = Vec::new();
    let mut i: usize = 0;
    assert(views(result@) =~= views(items@).take(0));
    while i < items.len()
        invariant
            i <= items@.len(),
            in_order::<T>(views(result@)),
            views(result@).to_multiset() == views(items@).take(i as int).to_multiset(),
        decreases items@.len() - i,
    {
        let item = items[i].copied();
        let ghost before = views(result@);
        let mut place: usize = result.len();
        while place > 0 && !result[place - 1].may_precede(&item)
            invariant
                place <= result@.len(),
                before == views(result@),
                in_order::<T>(before),
                forall|j: int|
                    place <= j < before.len() ==> !T::precedes(#[trigger] before[j], item@),
            decreases place,
        {
            assert(before[place - 1] == result@[place - 1]@);
            place -= 1;
        }
        proof {
            if place > 0 {
                assert(before[place - 1] == result@[place - 1]@);
            }
        }
        result.insert(place, item);
        proof {
            let after = views(result@);
            assert(after =~= before.insert(place as int, item@));
            assert forall|a: int, b: int| 0 <= a < b < after.len() implies T::precedes(
                #[trigger] after[a],
                #[trigger] after[b],
            ) by {
                if b < place {
                    assert(T::precedes(before[a], before[b]));
                } else if b == place {
                    if a < place - 1 {
                        T::precedes_is_transitive(before[a], before[place - 1], item@);
                    }
                } else if a < place {
                    assert(T::precedes(before[a], before[b - 1]));
                } else if a == place {
                    T::either_precedes(item@, before[b - 1]);
                } else {
                    assert(T::precedes(before[a - 1], before[b - 1]));
                }
            }
            assert(views(items@).take(i + 1) =~= views(items@).take(i as int).push(item@));
            vstd::seq_lib::to_multiset_insert(before, place as int, item@);
            vstd::seq_lib::to_multiset_build(views(items@).take(i as int), item@);
        }
        i += 1;
    }
    assert(views(items@).take(items@.len() as int) =~= views(items@));
    result
}

/// By display name, then by id.
pub open spec fn endpoint_precedes(a: EndpointModel, b: EndpointModel) -> bool {
    if a.friendly_name == b.friendly_name {
        text::le(a.id, b.id)
    } else {
        text::le(a.friendly_name, b.friendly_name)
    }
}

/// By process key, then by instance.
pub open spec fn session_precedes(a: SessionModel, b: SessionModel) -> bool {
    if a.process == b.process {
        text::le(a.instance, b.instance)
    } else {
        text::le(a.process, b.process)
    }
}

impl Arranged for EndpointView {
    open spec fn precedes(a: EndpointModel, b: EndpointModel) -> bool {
        endpoint_precedes(a, b)
    }

    proof fn either_precedes(a: EndpointModel, b: EndpointModel) {
        text::le_is_total(a.friendly_name, b.friendly_name);
        text::le_is_total(a.id, b.id);
    }

    proof fn precedes_is_transitive(a: EndpointModel, b: EndpointModel, c: EndpointModel) {
        if a.friendly_name == b.friendly_name && b.friendly_name == c.friendly_name {
            text::le_is_transitive(a.id, b.id, c.id);
        } else if a.friendly_name != b.friendly_name && b.friendly_name != c.friendly_name {
            text::le_is_transitive(a.friendly_name, b.friendly_name, c.friendly_name);
            if a.friendly_name == c.friendly_name {
                text::le_is_antisymmetric(a.friendly_name, b.friendly_name);
            }
        }
    }

    fn may_precede(&self, other: &EndpointView) -> (yes: bool) {
        if text::same(self.friendly_name.as_str(), other.friendly_name.as_str()) {
            text::at_most(self.id.as_str(), other.id.as_str())
        } else {
            text::at_most(self.friendly_name.as_str(), other.friendly_name.as_str())
        }
    }

    fn copied(&self) -> (copy: EndpointView) {
        self.clone()
    }
}

impl Arranged for SessionView {
    open spec fn precedes(a: SessionModel, b: SessionModel) -> bool {
        session_precedes(a, b)
    }

    proof fn either_precedes(a: SessionModel, b: SessionModel) {
        text::le_is_total(a.process, b.process);
        text::le_is_total(a.instance, b.instance);
    }

    proof fn precedes_is_transitive(a: SessionModel, b: SessionModel, c: SessionModel) {
        if a.process == b.process && b.process == c.process {
            text::le_is_transitive(a.instance, b.instance, c.instance);
        } else if a.process != b.process && b.process != c.process {
            text::le_is_transitive(a.process, b.process, c.process);
            if a.process == c.process {
                text::le_is_antisymmetric(a.process, b.process);
            }
        }
    }

    fn may_precede(&self, other: &SessionView) -> (yes: bool) {
        if text::same(self.process.as_str(), other.process.as_str()) {
            text::at_most(self.instance.as_str(), other.instance.as_str())
        } else {
            text::at_most(self.process.as_str(), other.process.as_str())
        }
    }

    fn copied(&self) -> (copy: SessionView) {
        self.clone()
    }
}

} // verus!
