use vstd::prelude::*;

use crate::generic_combinations::GenericCombinations;
use crate::into_iter::IntoIter;

verus! {

/// An extension trait that provides the [`power_set`] method for sources.
///
/// [`power_set`]: IterPowerSet::power_set
pub trait IterPowerSet<T>: View<V = Seq<T>> + Sized {
    /// Whether the source is in a fit state to be adapted.
    spec fn power_set_ready(&self) -> bool;

    /// Returns an adaptor over the subsets of the source's element set.
    fn power_set(self) -> (r: PowerSet<T>)
        requires
            self.power_set_ready(),
        ensures
            r.upcoming() == self@,
    ;
}

impl<T> IterPowerSet<T> for IntoIter<T> {
    open spec fn power_set_ready(&self) -> bool {
        self.wf()
    }

    fn power_set(self) -> (r: PowerSet<T>) {
        PowerSet::new(self)
    }
}

/// An adaptor over the subsets of the source's element set, built on the
/// shared combination engine with an empty starting selection.
#[derive(Debug)]
pub struct PowerSet<T> {
    combs: GenericCombinations<T>,
}

impl<T> PowerSet<T> {
    /// The elements the source still holds.
    pub closed spec fn upcoming(&self) -> Seq<T> {
        self.combs.upcoming()
    }

    /// Wraps a source for subset enumeration; nothing is pulled yet.
    pub fn new(iter: IntoIter<T>) -> (r: Self)
        requires
            iter.wf(),
        ensures
            r.upcoming() == iter@,
    {
        PowerSet { combs: GenericCombinations::new(iter, Vec::new()) }
    }
}

} // verus!
