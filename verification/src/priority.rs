//! The priority order that drives bundle cleanup.

use vstd::prelude::*;
use crate::errors::BundleError;

verus! {

/// A dimension along which bundles can be sorted, to determine priority.
#[derive(Clone, Copy, Debug, PartialEq, Eq, Structural, PartialOrd, Ord, Hash)]
pub enum PriorityDimension {
    /// Sorting by time, with older bundles having lower priority.
    Time,
    /// Sorting by the cause for creating the bundle.
    Cause,
}

/// The priority order for bundles during cleanup.
///
/// Bundles are sorted along each dimension in the order in which the
/// dimensions appear here, each dimension appearing exactly once; bundles of
/// lesser priority are pruned first. The first dimension outranks the second.
#[derive(Clone, Copy, Debug, PartialEq)]
pub struct PriorityOrder(pub [PriorityDimension; 2]);

impl PriorityOrder {
    /// A well-formed order names each dimension exactly once.
    pub open spec fn wf(self) -> bool {
        self.0[0] != self.0[1]
    }

    /// The default order prunes by cause first, then by age.
    pub fn default_order() -> (r: PriorityOrder)
        ensures
            r.0@ == seq![PriorityDimension::Cause, PriorityDimension::Time],
            r.wf(),
    {
        let r = PriorityOrder([PriorityDimension::Cause, PriorityDimension::Time]);
        proof {
            assert(r.0@ =~= seq![PriorityDimension::Cause, PriorityDimension::Time]);
        }
        r
    }

    /// Construct a new priority order.
    ///
    /// This requires that each dimension appear exactly once.
    pub fn new(dims: &[PriorityDimension]) -> (r: Result<Self, BundleError>)
        ensures
            match r {
                Ok(order) => {
                    &&& dims@.len() == 2
                    &&& dims@[0] != dims@[1]
                    &&& order.0@ == dims@
                    &&& order.wf()
                },
                Err(e) => {
                    &&& e == BundleError::InvalidPriorityOrder
                    &&& !(dims@.len() == 2 && dims@[0] != dims@[1])
                },
            },
    {
        if dims.len() != 2 {
            return Err(BundleError::InvalidPriorityOrder);
        }
        let a = *vstd::slice::slice_index_get(dims, 0);
        let b = *vstd::slice::slice_index_get(dims, 1);
        if a == b {
            return Err(BundleError::InvalidPriorityOrder);
        }
        let order = PriorityOrder([a, b]);
        proof {
            assert(order.0@ =~= dims@);
        }
        Ok(order)
    }

    /// The dimensions, highest-ranked first.
    pub fn dims(&self) -> (r: [PriorityDimension; 2])
        ensures
            r == self.0,
    {
        self.0
    }
}

impl Default for PriorityOrder {
    /// The default order prunes by cause first, then by age.
    fn default() -> (r: PriorityOrder)
        ensures
            r.0@ == seq![PriorityDimension::Cause, PriorityDimension::Time],
            r.wf(),
    {
        PriorityOrder::default_order()
    }
}

} // verus!
