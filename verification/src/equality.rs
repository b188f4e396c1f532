//! `==` on mappings: two mappings are equal when they map the same keys to
//! the same values, in whatever order they hold their entries.

use vstd::prelude::*;
use vstd::std_specs::cmp::PartialEqSpecImpl;
use crate::entity::Entity;
use crate::mapping::Mapping;

verus! {

impl<K: Entity, V: Entity> PartialEq for Mapping<K, V> {
    fn eq(&self, other: &Self) -> (r: bool) {
        self.same(other)
    }
}

impl<K: Entity, V: Entity> PartialEqSpecImpl for Mapping<K, V> {
    open spec fn obeys_eq_spec() -> bool {
        true
    }

    open spec fn eq_spec(&self, other: &Self) -> bool {
        self.deep_view() == other.deep_view()
    }
}

impl<K: Entity, V: Entity> Eq for Mapping<K, V> {

}

} // verus!
