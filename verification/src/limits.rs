//! The storage limit, cleanup period and cleanup context of the bundle
//! cleanup task, and the decision of when a context change must wake it.

use vstd::prelude::*;
use crate::errors::BundleError;
use crate::priority::PriorityOrder;
use crate::timespan::TimeSpan;

verus! {

/// Smallest percentage of the dataset quota allowed; construction requires
/// strictly more than this.
pub const STORAGE_LIMIT_MIN: u8 = 0;

/// Largest percentage of the dataset quota allowed.
pub const STORAGE_LIMIT_MAX: u8 = 50;

/// The limit on space allowed for zone bundles, as a percentage of the
/// overall dataset's quota.
#[derive(Clone, Copy, Debug, PartialEq, Eq, Structural, PartialOrd, Hash)]
pub struct StorageLimit(pub u8);

impl StorageLimit {
    /// A constructed limit lies strictly above the minimum and at or below
    /// the maximum.
    pub open spec fn wf(self) -> bool {
        STORAGE_LIMIT_MIN < self.0 <= STORAGE_LIMIT_MAX
    }

    /// Construct a new limit allowed for zone bundles.
    ///
    /// This should be expressed as a percentage, strictly above the minimum
    /// and at or below the maximum.
    pub fn new(percentage: u8) -> (r: Result<StorageLimit, BundleError>)
        ensures
            match r {
                Ok(l) => {
                    &&& STORAGE_LIMIT_MIN < percentage <= STORAGE_LIMIT_MAX
                    &&& l == StorageLimit(percentage)
                    &&& l.wf()
                },
                Err(e) => {
                    &&& e == BundleError::InvalidStorageLimit
                    &&& !(STORAGE_LIMIT_MIN < percentage <= STORAGE_LIMIT_MAX)
                },
            },
    {
        if percentage > STORAGE_LIMIT_MIN && percentage <= STORAGE_LIMIT_MAX {
            Ok(StorageLimit(percentage))
        } else {
            Err(BundleError::InvalidStorageLimit)
        }
    }

    /// Return the contained quota percentage.
    pub fn as_u8(&self) -> (r: u8)
        ensures
            r == self.0,
    {
        self.0
    }

    /// Compute the number of bytes available from a dataset quota, in bytes:
    /// the quota multiplied by the percentage, divided by one hundred.
    pub fn bytes_available(&self, dataset_quota: u64) -> (r: u64)
        requires
            self.0 <= 100,
        ensures
            r == (dataset_quota * self.0) / 100,
    {
        proof {
            assert(dataset_quota as int * (self.0 as int) / 100 <= dataset_quota as int)
                by (nonlinear_arith)
                requires
                    0 <= dataset_quota,
                    0 <= self.0 <= 100,
            ;
        }
        let wide: u128 = (dataset_quota as u128) * (self.0 as u128);
        (wide / 100) as u64
    }
}

/// Smallest supported cleanup period, in seconds.
pub const CLEANUP_PERIOD_MIN_SECS: u64 = 60;

/// Largest supported cleanup period, in seconds.
pub const CLEANUP_PERIOD_MAX_SECS: u64 = 86400;

/// A period on which bundles are automatically cleaned up.
#[derive(Clone, Copy, Debug, PartialEq, Eq, Structural, PartialOrd, Ord, Hash)]
pub struct CleanupPeriod(pub TimeSpan);

impl CleanupPeriod {
    /// The span lies between one minute and one day, inclusive.
    pub open spec fn wf(self) -> bool {
        &&& self.0.wf()
        &&& self.0.secs >= CLEANUP_PERIOD_MIN_SECS
        &&& self.0.secs < CLEANUP_PERIOD_MAX_SECS || (self.0.secs == CLEANUP_PERIOD_MAX_SECS
            && self.0.nanos == 0)
    }

    /// Construct a new cleanup period, checking that it is valid.
    pub fn new(duration: TimeSpan) -> (r: Result<CleanupPeriod, BundleError>)
        requires
            duration.wf(),
        ensures
            match r {
                Ok(p) => {
                    &&& p == CleanupPeriod(duration)
                    &&& p.wf()
                },
                Err(e) => {
                    &&& e == BundleError::InvalidCleanupPeriod
                    &&& !(CleanupPeriod(duration).wf())
                },
            },
    {
        let ok = duration.secs >= CLEANUP_PERIOD_MIN_SECS && (duration.secs
            < CLEANUP_PERIOD_MAX_SECS || (duration.secs == CLEANUP_PERIOD_MAX_SECS
            && duration.nanos == 0));
        if ok {
            Ok(CleanupPeriod(duration))
        } else {
            Err(BundleError::InvalidCleanupPeriod)
        }
    }

    /// Return the period as a span of time.
    pub fn as_duration(&self) -> (r: TimeSpan)
        ensures
            r == self.0,
    {
        self.0
    }
}

/// The portion of a debug dataset used for zone bundles.
#[derive(Clone, Copy, Debug, PartialEq, Eq, Structural, Hash)]
pub struct BundleUtilization {
    /// The total dataset quota, in bytes.
    pub dataset_quota: u64,
    /// The total number of bytes available for zone bundles.
    ///
    /// This is `dataset_quota` multiplied by the context's storage limit.
    pub bytes_available: u64,
    /// Total bundle usage, in bytes.
    pub bytes_used: u64,
}

impl BundleUtilization {
    /// Compute the utilization of one storage root from its dataset quota,
    /// its measured usage, and the configured storage limit.
    pub fn compute(dataset_quota: u64, bytes_used: u64, limit: &StorageLimit) -> (r:
        BundleUtilization)
        requires
            limit.0 <= 100,
        ensures
            r.dataset_quota == dataset_quota,
            r.bytes_available == (dataset_quota * limit.0) / 100,
            r.bytes_used == bytes_used,
    {
        BundleUtilization {
            dataset_quota,
            bytes_available: limit.bytes_available(dataset_quota),
            bytes_used,
        }
    }
}

/// The count of bundles and bytes removed during a cleanup operation.
#[derive(Clone, Copy, Debug, Default, PartialEq, Eq, Structural, Hash)]
pub struct CleanupCount {
    /// The number of bundles removed.
    pub bundles: u64,
    /// The number of bytes removed.
    pub bytes: u64,
}

/// Context provided for the zone bundle cleanup task.
#[derive(Clone, Copy, Debug, PartialEq)]
pub struct CleanupContext {
    /// The period on which automatic checks and cleanup is performed.
    pub period: CleanupPeriod,
    /// The limit on the dataset quota available for zone bundles.
    pub storage_limit: StorageLimit,
    /// The priority ordering for keeping old bundles.
    pub priority: PriorityOrder,
}

impl CleanupContext {
    pub open spec fn wf(self) -> bool {
        &&& self.period.wf()
        &&& self.storage_limit.wf()
        &&& self.priority.wf()
    }

    /// The default context: a ten-minute period, a quarter of the quota, and
    /// pruning by cause before age.
    pub fn default_context() -> (r: CleanupContext)
        ensures
            r.period.0 == (TimeSpan { secs: 600, nanos: 0 }),
            r.storage_limit == StorageLimit(25),
            r.priority.0@ == seq![
                crate::priority::PriorityDimension::Cause,
                crate::priority::PriorityDimension::Time,
            ],
            r.wf(),
    {
        CleanupContext {
            period: CleanupPeriod(TimeSpan { secs: 600, nanos: 0 }),
            storage_limit: StorageLimit(25),
            priority: PriorityOrder::default_order(),
        }
    }
}

impl Default for StorageLimit {
    /// A quarter of the dataset quota.
    fn default() -> (r: StorageLimit)
        ensures
            r == StorageLimit(25),
            r.wf(),
    {
        StorageLimit(25)
    }
}

impl Default for CleanupPeriod {
    /// Ten minutes.
    fn default() -> (r: CleanupPeriod)
        ensures
            r.0 == (TimeSpan { secs: 600, nanos: 0 }),
            r.wf(),
    {
        CleanupPeriod(TimeSpan { secs: 600, nanos: 0 })
    }
}

impl Default for CleanupContext {
    /// The default period, storage limit and priority order.
    fn default() -> (r: CleanupContext)
        ensures
            r.wf(),
            r.period.0 == (TimeSpan { secs: 600, nanos: 0 }),
            r.storage_limit == StorageLimit(25),
            r.priority.0@ == seq![
                crate::priority::PriorityDimension::Cause,
                crate::priority::PriorityDimension::Time,
            ],
    {
        CleanupContext::default_context()
    }
}

/// The store that holds the current cleanup context for the cleanup task.
///
/// Updating the store reports whether the cleanup task must be woken: it
/// must whenever the period or the storage limit became stricter, and must
/// not otherwise, so loosening a limit is picked up lazily while tightening
/// one takes effect at once.
#[derive(Clone, Copy, Debug)]
pub struct ContextStore {
    pub context: CleanupContext,
}

impl ContextStore {
    pub fn new(context: CleanupContext) -> (r: ContextStore)
        ensures
            r.context == context,
    {
        ContextStore { context }
    }

    /// Return the context used to periodically clean up zone bundles.
    pub fn cleanup_context(&self) -> (r: CleanupContext)
        ensures
            r == self.context,
    {
        self.context
    }

    /// Update the context used to periodically clean up zone bundles.
    ///
    /// Each field with a new value replaces the stored one. The returned
    /// flag says whether the cleanup task must be notified, and is true
    /// exactly when the period was reduced or the storage limit was lowered.
    pub fn update_cleanup_context(
        &mut self,
        new_period: Option<CleanupPeriod>,
        new_storage_limit: Option<StorageLimit>,
        new_priority: Option<PriorityOrder>,
    ) -> (notify: bool)
        requires
            old(self).context.wf(),
            new_period is Some ==> new_period->0.wf(),
            new_storage_limit is Some ==> new_storage_limit->0.wf(),
            new_priority is Some ==> new_priority->0.wf(),
        ensures
            final(self).context.period == if new_period is Some {
                new_period->0
            } else {
                old(self).context.period
            },
            final(self).context.storage_limit == if new_storage_limit is Some {
                new_storage_limit->0
            } else {
                old(self).context.storage_limit
            },
            final(self).context.priority == if new_priority is Some {
                new_priority->0
            } else {
                old(self).context.priority
            },
            final(self).context.wf(),
            notify == ((new_period is Some && (new_period->0).0.spec_lt(
                old(self).context.period.0,
            )) || (new_storage_limit is Some && (new_storage_limit->0).0
                < old(self).context.storage_limit.0)),
    {
        let mut notify = false;
        if let Some(period) = new_period {
            if period.0.lt(&self.context.period.0) {
                notify = true;
            }
            self.context.period = period;
        }
        if let Some(priority) = new_priority {
            self.context.priority = priority;
        }
        if let Some(limit) = new_storage_limit {
            if limit.0 < self.context.storage_limit.0 {
                notify = true;
            }
            self.context.storage_limit = limit;
        }
        notify
    }
}

/// The time at which the next automatic cleanup is due, and the time left
/// until then from `now`, saturating at zero; all times are nanoseconds of
/// some shared monotonic clock.
pub fn next_cleanup(last_cleanup_at: u128, period: &CleanupPeriod, now: u128) -> (r: (u128, u128))
    requires
        period.wf(),
        last_cleanup_at + period.0.total_nanos() <= u128::MAX,
    ensures
        r.0 == last_cleanup_at + period.0.total_nanos(),
        r.1 == if r.0 >= now {
            r.0 - now
        } else {
            0
        },
{
    let period_nanos: u128 = (period.0.secs as u128) * 1_000_000_000u128 + (period.0.nanos
        as u128);
    let next: u128 = last_cleanup_at + period_nanos;
    let delta: u128 = if next >= now {
        next - now
    } else {
        0
    };
    (next, delta)
}

} // verus!
