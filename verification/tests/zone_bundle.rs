//! Tests of the zone-bundle core: priority ordering, limits, the cleanup
//! plan, and the cleanup context store.

use rack_core::cleanup::{plan_cleanup_root, sort_bundles};
use rack_core::errors::BundleError;
use rack_core::limits::{
    BundleUtilization, CleanupContext, CleanupPeriod, ContextStore, StorageLimit,
};
use rack_core::meta::{ZoneBundleCause, ZoneBundleId, ZoneBundleInfo, ZoneBundleMetadata};
use rack_core::priority::{PriorityDimension, PriorityOrder};
use rack_core::timespan::{TimeSpan, UtcTime};

fn day(year: u16, month: u8, d: u8) -> UtcTime {
    UtcTime { year, month, day: d, hour: 0, minute: 0, second: 0, nanos: 0 }
}

fn make_info(year: u16, month: u8, d: u8, cause: ZoneBundleCause) -> ZoneBundleInfo {
    ZoneBundleInfo {
        metadata: ZoneBundleMetadata {
            id: ZoneBundleId {
                zone_name: b"oxz_whatever".to_vec(),
                bundle_id: uuid::Uuid::new_v4().as_u128(),
            },
            time_created: day(year, month, d),
            cause,
            version: 0,
        },
        path: b"/some/path".to_vec(),
        bytes: 0,
    }
}

#[test]
fn test_sort_zone_bundle_cause() {
    let mut original = [
        ZoneBundleCause::ExplicitRequest,
        ZoneBundleCause::Other,
        ZoneBundleCause::TerminatedInstance,
        ZoneBundleCause::UnexpectedZone,
    ];
    let expected = [
        ZoneBundleCause::Other,
        ZoneBundleCause::UnexpectedZone,
        ZoneBundleCause::TerminatedInstance,
        ZoneBundleCause::ExplicitRequest,
    ];
    original.sort();
    assert_eq!(original, expected);
}

#[test]
fn test_priority_dimension() {
    assert!(PriorityOrder::new(&[]).is_err());
    assert!(PriorityOrder::new(&[PriorityDimension::Cause]).is_err());
    assert!(PriorityOrder::new(&[PriorityDimension::Cause, PriorityDimension::Cause]).is_err());
    assert!(PriorityOrder::new(&[
        PriorityDimension::Cause,
        PriorityDimension::Cause,
        PriorityDimension::Time
    ])
    .is_err());

    assert!(PriorityOrder::new(&[PriorityDimension::Cause, PriorityDimension::Time]).is_ok());
    assert_eq!(
        PriorityOrder::new(&PriorityOrder::default().0).unwrap(),
        PriorityOrder::default()
    );
}

#[test]
fn test_storage_limit_bytes_available() {
    let pct = StorageLimit(1);
    assert_eq!(pct.bytes_available(100), 1);
    assert_eq!(pct.bytes_available(1000), 10);

    let pct = StorageLimit(100);
    assert_eq!(pct.bytes_available(100), 100);
    assert_eq!(pct.bytes_available(1000), 1000);

    let pct = StorageLimit(100);
    assert_eq!(pct.bytes_available(99), 99);

    let pct = StorageLimit(99);
    assert_eq!(pct.bytes_available(1), 0);

    // Test non-power of 10.
    let pct = StorageLimit(25);
    assert_eq!(pct.bytes_available(32768), 8192);
}

#[test]
fn test_storage_limit_new() {
    assert!(StorageLimit::new(0).is_err());
    assert!(StorageLimit::new(51).is_err());
    assert_eq!(StorageLimit::new(50).unwrap(), StorageLimit(50));
    assert_eq!(StorageLimit::new(1).unwrap().as_u8(), 1);
    assert_eq!(StorageLimit::new(0).unwrap_err(), BundleError::InvalidStorageLimit);
}

#[test]
fn test_cleanup_period_new() {
    assert!(CleanupPeriod::new(TimeSpan { secs: 59, nanos: 999_999_999 }).is_err());
    assert!(CleanupPeriod::new(TimeSpan { secs: 60, nanos: 0 }).is_ok());
    assert!(CleanupPeriod::new(TimeSpan { secs: 86400, nanos: 0 }).is_ok());
    assert!(CleanupPeriod::new(TimeSpan { secs: 86400, nanos: 1 }).is_err());
    assert_eq!(
        CleanupPeriod::new(TimeSpan { secs: 0, nanos: 0 }).unwrap_err(),
        BundleError::InvalidCleanupPeriod
    );
    let p = CleanupPeriod::new(TimeSpan { secs: 600, nanos: 0 }).unwrap();
    assert_eq!(p.as_duration(), TimeSpan { secs: 600, nanos: 0 });
}

#[test]
fn test_compare_bundles() {
    let time_first = PriorityOrder([PriorityDimension::Time, PriorityDimension::Cause]);
    let cause_first = PriorityOrder([PriorityDimension::Cause, PriorityDimension::Time]);

    let info = [
        make_info(2020, 1, 2, ZoneBundleCause::TerminatedInstance),
        make_info(2020, 1, 2, ZoneBundleCause::ExplicitRequest),
        make_info(2020, 1, 1, ZoneBundleCause::TerminatedInstance),
        make_info(2020, 1, 1, ZoneBundleCause::ExplicitRequest),
    ];

    let mut sorted = info.clone();
    sorted.sort_by(|lhs, rhs| time_first.compare_bundles(lhs, rhs));
    // Low -> high priority
    // [old/terminated, old/explicit, new/terminated, new/explicit]
    let expected = [info[2].clone(), info[3].clone(), info[0].clone(), info[1].clone()];
    assert_eq!(sorted, expected, "sorting zone bundles by time-then-cause failed");

    let mut sorted = info.clone();
    sorted.sort_by(|lhs, rhs| cause_first.compare_bundles(lhs, rhs));
    // Low -> high priority
    // [old/terminated, new/terminated, old/explicit, new/explicit]
    let expected = [info[2].clone(), info[0].clone(), info[3].clone(), info[1].clone()];
    assert_eq!(sorted, expected, "sorting zone bundles by cause-then-time failed");
}

#[test]
fn test_cleanup_by_time() {
    // Four bundles, all explicit requests, dated on consecutive days; the
    // budget forces exactly one out, and time decides which: the oldest.
    let mut infos = Vec::new();
    for d in 1..=4u8 {
        let mut b = make_info(2020, 1, d, ZoneBundleCause::ExplicitRequest);
        b.bytes = 100;
        infos.push(b);
    }
    let order = PriorityOrder([PriorityDimension::Time, PriorityDimension::Cause]);
    let sorted = sort_bundles(&order, infos.clone());
    let usage = BundleUtilization { dataset_quota: 1000, bytes_available: 300, bytes_used: 400 };
    let (n, count) = plan_cleanup_root(&sorted, &usage);
    assert_eq!(n, 1);
    assert_eq!(count.bundles, 1);
    assert_eq!(count.bytes, 100);
    assert_eq!(sorted[0].metadata.time_created.day, 1);
}

#[test]
fn test_cleanup_by_cause() {
    // A terminated-instance bundle from later and an explicit-request
    // bundle from earlier: under cause-then-time, the terminated one goes.
    let mut a = make_info(2021, 6, 1, ZoneBundleCause::TerminatedInstance);
    a.bytes = 50;
    let mut b = make_info(2020, 1, 1, ZoneBundleCause::ExplicitRequest);
    b.bytes = 50;
    let order = PriorityOrder([PriorityDimension::Cause, PriorityDimension::Time]);
    let sorted = sort_bundles(&order, vec![b.clone(), a.clone()]);
    let usage = BundleUtilization { dataset_quota: 1000, bytes_available: 60, bytes_used: 100 };
    let (n, _) = plan_cleanup_root(&sorted, &usage);
    assert_eq!(n, 1);
    assert_eq!(sorted[0].metadata.cause, ZoneBundleCause::TerminatedInstance);
    assert_eq!(sorted[1].metadata.cause, ZoneBundleCause::ExplicitRequest);
}

#[test]
fn test_cleanup_under_budget_does_nothing() {
    let mut a = make_info(2020, 1, 1, ZoneBundleCause::Other);
    a.bytes = 10;
    let order = PriorityOrder::default();
    let sorted = sort_bundles(&order, vec![a]);
    let usage = BundleUtilization { dataset_quota: 1000, bytes_available: 100, bytes_used: 50 };
    let (n, count) = plan_cleanup_root(&sorted, &usage);
    assert_eq!(n, 0);
    assert_eq!(count.bundles, 0);
    assert_eq!(count.bytes, 0);
}

#[test]
fn test_cleanup_exhausts_root_when_budget_unreachable() {
    // Even pruning everything leaves the root above budget: every bundle
    // goes.
    let mut infos = Vec::new();
    for d in 1..=3u8 {
        let mut b = make_info(2020, 2, d, ZoneBundleCause::Other);
        b.bytes = 1;
        infos.push(b);
    }
    let order = PriorityOrder::default();
    let sorted = sort_bundles(&order, infos);
    let usage = BundleUtilization { dataset_quota: 100, bytes_available: 1, bytes_used: 1000 };
    let (n, count) = plan_cleanup_root(&sorted, &usage);
    assert_eq!(n, 3);
    assert_eq!(count.bundles, 3);
}

#[test]
fn test_context() {
    let store = ContextStore::new(CleanupContext::default());
    assert_eq!(store.cleanup_context(), CleanupContext::default(), "received incorrect context");
}

#[test]
fn test_update_context() {
    let mut store = ContextStore::new(CleanupContext::default());
    let half_period = {
        let d = CleanupContext::default().period.as_duration();
        CleanupPeriod::new(TimeSpan { secs: d.secs / 2, nanos: d.nanos }).unwrap()
    };
    let half_limit =
        StorageLimit(CleanupContext::default().storage_limit.as_u8() / 2);
    let reversed = {
        let dims = CleanupContext::default().priority.0;
        PriorityOrder::new(&[dims[1], dims[0]]).unwrap()
    };
    let notified =
        store.update_cleanup_context(Some(half_period), Some(half_limit), Some(reversed));
    let context = store.cleanup_context();
    assert_eq!(context.period, half_period, "failed to update context");
    assert_eq!(context.storage_limit, half_limit, "failed to update context");
    assert_eq!(context.priority, reversed, "failed to update context");
    assert!(notified, "tightening the context must wake the cleanup task");
}

#[test]
fn test_update_context_loosening_does_not_notify() {
    let tight = CleanupContext {
        period: CleanupPeriod::new(TimeSpan { secs: 60, nanos: 0 }).unwrap(),
        storage_limit: StorageLimit(10),
        priority: PriorityOrder::default(),
    };
    let mut store = ContextStore::new(tight);
    let longer = CleanupPeriod::new(TimeSpan { secs: 120, nanos: 0 }).unwrap();
    let looser = StorageLimit(20);
    let notified = store.update_cleanup_context(Some(longer), Some(looser), None);
    assert!(!notified, "loosening the context must not wake the cleanup task");
    assert_eq!(store.cleanup_context().period, longer);
    assert_eq!(store.cleanup_context().storage_limit, looser);
}
