//! The update tracker: the registry that maps each target device to its
//! in-flight update record and serializes start, abort, clear and
//! plan-replacement operations.
//!
//! The tracker here is the decision core: the surrounding process holds it
//! under its lock, runs the update tasks, and reports each task's
//! completion back by marking the record finished.

use vstd::prelude::*;
use crate::device::DeviceId;
use crate::plan::UpdatePlan;

verus! {

/// Liveness of a device's update task, as the surrounding process reports
/// it.
#[derive(Clone, Copy, Debug, PartialEq, Eq, Structural)]
pub enum RecordState {
    /// The update task has not finished.
    Running,
    /// The update task has finished, successfully or not.
    Finished,
}

/// What a query of one device yields.
#[derive(Clone, Copy, Debug, PartialEq, Eq, Structural)]
pub enum DeviceStatus {
    /// No update was started for the device since the last plan change.
    NotStarted,
    /// An update task is in flight.
    Running,
    /// The device's last update task has finished.
    Finished,
}

/// Why a set of updates could not be started.
#[derive(Clone, Debug, PartialEq, Eq)]
pub enum StartUpdateError {
    /// No update plan has been staged.
    TufRepositoryUnavailable,
    /// The named devices are already being updated.
    UpdateInProgress(Vec<DeviceId>),
}

/// Why an update record could not be cleared.
#[derive(Clone, Copy, Debug, PartialEq, Eq, Structural)]
pub enum ClearUpdateStateError {
    /// The device is currently being updated.
    UpdateInProgress,
}

/// Why an update could not be aborted.
#[derive(Clone, Copy, Debug, PartialEq, Eq, Structural)]
pub enum AbortUpdateError {
    /// No update task was started for the device.
    UpdateNotStarted,
    /// The device's update task has already finished.
    UpdateFinished,
}

/// Whether `e` is the in-progress error naming exactly `running`.
pub open spec fn is_in_progress_with(e: StartUpdateError, running: Seq<DeviceId>) -> bool {
    match e {
        StartUpdateError::UpdateInProgress(v) => v@ == running,
        _ => false,
    }
}

/// Whether some error in `errs` names exactly `running` as in progress.
pub open spec fn reports_running(errs: Seq<StartUpdateError>, running: Seq<DeviceId>) -> bool {
    exists|k: int| 0 <= k < errs.len() && is_in_progress_with(#[trigger] errs[k], running)
}

/// The first record for device `d`, if any.
pub open spec fn spec_find(records: Seq<(DeviceId, RecordState)>, d: DeviceId) -> Option<
    RecordState,
>
    decreases records.len(),
{
    if records.len() == 0 {
        None
    } else if records[0].0 == d {
        Some(records[0].1)
    } else {
        spec_find(records.drop_first(), d)
    }
}

/// The subsequence of `devices` that `t` is currently updating.
pub open spec fn spec_running_subset(t: UpdateTracker, devices: Seq<DeviceId>) -> Seq<DeviceId>
    decreases devices.len(),
{
    if devices.len() == 0 {
        Seq::empty()
    } else {
        let rest = spec_running_subset(t, devices.drop_last());
        if t.spec_running(devices.last()) {
            rest.push(devices.last())
        } else {
            rest
        }
    }
}

/// Whether every device appears in at most one record.
pub open spec fn unique_devices(records: Seq<(DeviceId, RecordState)>) -> bool {
    forall|i: int, j: int|
        0 <= i < j < records.len() ==> (#[trigger] records[i]).0 != (#[trigger] records[j]).0
}

/// The process-wide registry of in-flight updates and the staged plan.
#[derive(Clone, Debug)]
pub struct UpdateTracker {
    /// The staged update plan, if one has been put.
    pub plan: Option<UpdatePlan>,
    /// One record per device with an update since the last plan change.
    pub records: Vec<(DeviceId, RecordState)>,
}

impl UpdateTracker {
    /// Every device holds at most one record.
    pub open spec fn wf(self) -> bool {
        unique_devices(self.records@)
    }

    /// What querying `d` yields.
    pub open spec fn spec_status(self, d: DeviceId) -> DeviceStatus {
        match spec_find(self.records@, d) {
            None => DeviceStatus::NotStarted,
            Some(RecordState::Running) => DeviceStatus::Running,
            Some(RecordState::Finished) => DeviceStatus::Finished,
        }
    }

    /// Whether `d`'s task is in flight.
    pub open spec fn spec_running(self, d: DeviceId) -> bool {
        self.spec_status(d) == DeviceStatus::Running
    }

    pub fn new() -> (r: UpdateTracker)
        ensures
            r.plan is None,
            r.records@.len() == 0,
            r.wf(),
    {
        UpdateTracker { plan: None, records: Vec::new() }
    }

    /// The index of `d`'s record, if it has one.
    fn find_index(&self, d: &DeviceId) -> (r: Option<usize>)
        ensures
            match r {
                Some(i) => {
                    &&& i < self.records@.len()
                    &&& self.records@[i as int].0 == *d
                    &&& spec_find(self.records@, *d) == Some(self.records@[i as int].1)
                },
                None => spec_find(self.records@, *d) is None,
            },
    {
        let mut i: usize = 0;
        proof {
            assert(self.records@.skip(0) =~= self.records@);
        }
        while i < self.records.len()
            invariant
                i <= self.records@.len(),
                spec_find(self.records@, *d) == spec_find(self.records@.skip(i as int), *d),
            decreases self.records@.len() - i,
        {
            proof {
                assert(self.records@.skip(i as int).len() > 0);
                assert(self.records@.skip(i as int)[0] == self.records@[i as int]);
                assert(self.records@.skip(i as int).drop_first() =~= self.records@.skip(
                    i as int + 1,
                ));
            }
            if self.records[i].0 == *d {
                return Some(i);
            }
            i += 1;
        }
        proof {
            assert(self.records@.skip(i as int).len() == 0);
        }
        None
    }

    /// Query one device.
    pub fn device_status(&self, d: &DeviceId) -> (r: DeviceStatus)
        ensures
            r == self.spec_status(*d),
    {
        match self.find_index(d) {
            None => DeviceStatus::NotStarted,
            Some(i) => match self.records[i].1 {
                RecordState::Running => DeviceStatus::Running,
                RecordState::Finished => DeviceStatus::Finished,
            },
        }
    }

    /// The devices of `devices` that are currently being updated, in order.
    fn running_subset(&self, devices: &Vec<DeviceId>) -> (r: Vec<DeviceId>)
        ensures
            r@ == spec_running_subset(*self, devices@),
    {
        let mut out: Vec<DeviceId> = Vec::new();
        let mut i: usize = 0;
        proof {
            assert(devices@.take(0) =~= Seq::<DeviceId>::empty());
        }
        while i < devices.len()
            invariant
                i <= devices@.len(),
                out@ == spec_running_subset(*self, devices@.take(i as int)),
            decreases devices@.len() - i,
        {
            let ghost pre = devices@.take(i as int);
            proof {
                assert(devices@.take(i as int + 1).drop_last() =~= pre);
                assert(devices@.take(i as int + 1).last() == devices@[i as int]);
            }
            let status = self.device_status(&devices[i]);
            if matches!(status, DeviceStatus::Running) {
                out.push(devices[i]);
            }
            i += 1;
        }
        proof {
            assert(devices@.take(i as int) =~= devices@);
        }
        out
    }


    /// Check whether updates can be started for the given devices, without
    /// starting them.
    ///
    /// The result is success exactly when a plan is staged and none of the
    /// devices is already being updated; otherwise every failed
    /// precondition is reported, and nothing changes.
    pub fn update_pre_checks(&self, devices: &Vec<DeviceId>) -> (r: Result<
        (),
        Vec<StartUpdateError>,
    >)
        ensures
            r is Ok <==> (self.plan is Some && spec_running_subset(*self, devices@).len()
                == 0),
            r matches Err(errs) ==> {
                let running = spec_running_subset(*self, devices@);
                &&& errs@.len() == (if running.len() > 0 {
                    1int
                } else {
                    0int
                }) + (if self.plan is None {
                    1int
                } else {
                    0int
                })
                &&& errs@.len() > 0
                &&& (running.len() > 0 <==> reports_running(errs@, running))
                &&& (running.len() > 0 ==> is_in_progress_with(errs@[0], running))
                &&& (self.plan is None <==> errs@.contains(
                    StartUpdateError::TufRepositoryUnavailable,
                ))
                &&& forall|k: int|
                    0 <= k < errs@.len() ==> ((#[trigger] errs@[k])
                        == StartUpdateError::TufRepositoryUnavailable || is_in_progress_with(
                        errs@[k],
                        running,
                    ))
            },
    {
        let mut errors: Vec<StartUpdateError> = Vec::new();
        let running = self.running_subset(devices);
        let ghost running_view = spec_running_subset(*self, devices@);
        let any_running = running.len() > 0;
        if any_running {
            errors.push(StartUpdateError::UpdateInProgress(running));
        }
        if self.plan.is_none() {
            errors.push(StartUpdateError::TufRepositoryUnavailable);
        }
        if errors.len() > 0 {
            proof {
                if running_view.len() > 0 {
                    assert(is_in_progress_with(errors@[0], running_view));
                } else {
                    assert forall|k: int| 0 <= k < errors@.len() implies !is_in_progress_with(
                        #[trigger] errors@[k],
                        running_view,
                    ) by {
                        assert(errors@[k] == StartUpdateError::TufRepositoryUnavailable);
                    }
                }
                if self.plan is None {
                    assert(errors@.last() == StartUpdateError::TufRepositoryUnavailable);
                }
            }
            Err(errors)
        } else {
            Ok(())
        }
    }

    /// Start updates for the given devices.
    ///
    /// On any precondition failure the full set of failures is returned and
    /// no state changes. On success every listed device gets a running
    /// record, replacing any prior finished record; other devices'
    /// records are untouched. The caller then spawns one update task per
    /// device and performs the plan-level setup exactly once.
    pub fn start(&mut self, devices: &Vec<DeviceId>) -> (r: Result<(), Vec<StartUpdateError>>)
        requires
            old(self).wf(),
        ensures
            final(self).wf(),
            r is Ok <==> (old(self).plan is Some && spec_running_subset(
                *old(self),
                devices@,
            ).len() == 0),
            r is Err ==> *final(self) == *old(self),
            r is Ok ==> {
                &&& final(self).plan == old(self).plan
                &&& forall|d: DeviceId|
                    devices@.contains(d) ==> final(self).spec_status(d)
                        == DeviceStatus::Running
                &&& forall|d: DeviceId|
                    !devices@.contains(d) ==> final(self).spec_status(d) == old(
                        self,
                    ).spec_status(d)
            },
            r matches Err(errs) ==> {
                let running = spec_running_subset(*old(self), devices@);
                &&& errs@.len() == (if running.len() > 0 {
                    1int
                } else {
                    0int
                }) + (if old(self).plan is None {
                    1int
                } else {
                    0int
                })
                &&& errs@.len() > 0
                &&& (running.len() > 0 <==> reports_running(errs@, running))
                &&& (running.len() > 0 ==> is_in_progress_with(errs@[0], running))
                &&& (old(self).plan is None <==> errs@.contains(
                    StartUpdateError::TufRepositoryUnavailable,
                ))
                &&& forall|k: int|
                    0 <= k < errs@.len() ==> ((#[trigger] errs@[k])
                        == StartUpdateError::TufRepositoryUnavailable || is_in_progress_with(
                        errs@[k],
                        running,
                    ))
            },
    {
        let pre = self.update_pre_checks(devices);
        if let Err(errs) = pre {
            return Err(errs);
        }
        let mut i: usize = 0;
        while i < devices.len()
            invariant
                i <= devices@.len(),
                self.wf(),
                self.plan == old(self).plan,
                forall|d: DeviceId|
                    devices@.take(i as int).contains(d) ==> self.spec_status(d)
                        == DeviceStatus::Running,
                forall|d: DeviceId|
                    !devices@.take(i as int).contains(d) ==> self.spec_status(d) == old(
                        self,
                    ).spec_status(d),
            decreases devices@.len() - i,
        {
            self.set_record(&devices[i], RecordState::Running);
            proof {
                assert forall|d: DeviceId|
                    devices@.take(i as int + 1).contains(d) implies self.spec_status(d)
                    == DeviceStatus::Running by {
                    if d != devices@[i as int] {
                        assert(devices@.take(i as int).contains(d)) by {
                            let k = choose|k: int|
                                0 <= k < devices@.take(i as int + 1).len() && #[trigger] devices@.take(
                                    i as int + 1,
                                )[k] == d;
                            assert(devices@.take(i as int)[k] == d);
                        }
                    }
                }
                assert forall|d: DeviceId|
                    !devices@.take(i as int + 1).contains(d) implies self.spec_status(d) == old(
                    self,
                ).spec_status(d) by {
                    assert(!devices@.take(i as int).contains(d)) by {
                        if devices@.take(i as int).contains(d) {
                            let k = choose|k: int|
                                0 <= k < devices@.take(i as int).len() && #[trigger] devices@.take(
                                    i as int,
                                )[k] == d;
                            assert(devices@.take(i as int + 1)[k] == d);
                        }
                    }
                    assert(d != devices@[i as int]) by {
                        if d == devices@[i as int] {
                            assert(devices@.take(i as int + 1)[i as int] == d);
                        }
                    }
                }
            }
            i += 1;
        }
        proof {
            assert(devices@.take(i as int) =~= devices@);
        }
        Ok(())
    }

    /// Set or replace `d`'s record.
    ///
    /// The surrounding process also uses this to mark a task finished once
    /// it observes the task's termination.
    pub fn set_record(&mut self, d: &DeviceId, state: RecordState)
        requires
            old(self).wf(),
        ensures
            final(self).wf(),
            final(self).plan == old(self).plan,
            spec_find(final(self).records@, *d) == Some(state),
            forall|x: DeviceId|
                x != *d ==> final(self).spec_status(x) == old(self).spec_status(x),
    {
        let ghost pre = self.records@;
        match self.find_index(d) {
            Some(i) => {
                let dev = self.records[i].0;
                self.records.set(i, (dev, state));
                proof {
                    lemma_find_update(pre, i as int, *d, state);
                }
            },
            None => {
                self.records.push((*d, state));
                proof {
                    lemma_find_push(pre, *d, state);
                }
            },
        }
    }

    /// Remove a record, if its task has finished.
    ///
    /// Succeeds when the device has no record at all; fails when the
    /// device's task is still running; otherwise removes the record, after
    /// which the device queries as not started.
    pub fn clear_update_state(&mut self, d: &DeviceId) -> (r: Result<(), ClearUpdateStateError>)
        requires
            old(self).wf(),
        ensures
            final(self).wf(),
            final(self).plan == old(self).plan,
            r is Ok <==> !old(self).spec_running(*d),
            r is Err ==> *final(self) == *old(self) && r == Err::<(), _>(
                ClearUpdateStateError::UpdateInProgress,
            ),
            r is Ok ==> final(self).spec_status(*d) == DeviceStatus::NotStarted,
            forall|x: DeviceId|
                x != *d ==> final(self).spec_status(x) == old(self).spec_status(x),
    {
        let ghost pre = self.records@;
        match self.find_index(d) {
            None => Ok(()),
            Some(i) => {
                if matches!(self.records[i].1, RecordState::Running) {
                    return Err(ClearUpdateStateError::UpdateInProgress);
                }
                self.records.remove(i);
                proof {
                    lemma_find_remove(pre, i as int, *d);
                }
                Ok(())
            },
        }
    }

    /// Decide whether an abort of `d`'s update may proceed.
    ///
    /// An abort is handed to the engine only while the task runs; a device
    /// without a record was never started, and a finished task reports
    /// that the update already finished.
    pub fn abort_pre_check(&self, d: &DeviceId) -> (r: Result<(), AbortUpdateError>)
        ensures
            match r {
                Ok(()) => self.spec_status(*d) == DeviceStatus::Running,
                Err(e) => {
                    &&& (e == AbortUpdateError::UpdateNotStarted <==> self.spec_status(*d)
                        == DeviceStatus::NotStarted)
                    &&& (e == AbortUpdateError::UpdateFinished <==> self.spec_status(*d)
                        == DeviceStatus::Finished)
                },
            },
    {
        match self.device_status(d) {
            DeviceStatus::NotStarted => Err(AbortUpdateError::UpdateNotStarted),
            DeviceStatus::Finished => Err(AbortUpdateError::UpdateFinished),
            DeviceStatus::Running => Ok(()),
        }
    }

    /// Replace the staged plan.
    ///
    /// Rejected, with the running devices reported and nothing changed,
    /// while any update task is unfinished; otherwise the plan is replaced
    /// and every record is cleared, so every device queries as not
    /// started again.
    pub fn put_repository(&mut self, plan: UpdatePlan) -> (r: Result<(), Vec<DeviceId>>)
        requires
            old(self).wf(),
        ensures
            final(self).wf(),
            r is Ok <==> (forall|i: int|
                0 <= i < old(self).records@.len() ==> (#[trigger] old(self).records@[i]).1
                    != RecordState::Running),
            r matches Err(ds) ==> {
                &&& *final(self) == *old(self)
                &&& ds@.len() > 0
                &&& forall|k: int| 0 <= k < ds@.len() ==> old(self).spec_running(#[trigger] ds@[k])
            },
            r is Ok ==> {
                &&& final(self).plan == Some(plan)
                &&& final(self).records@.len() == 0
                &&& forall|d: DeviceId|
                    final(self).spec_status(d) == DeviceStatus::NotStarted
            },
    {
        let mut running: Vec<DeviceId> = Vec::new();
        let mut i: usize = 0;
        while i < self.records.len()
            invariant
                i <= self.records@.len(),
                self.wf(),
                forall|k: int|
                    0 <= k < running@.len() ==> self.spec_running(#[trigger] running@[k]),
                running@.len() == 0 <==> (forall|k: int|
                    0 <= k < i ==> (#[trigger] self.records@[k]).1 != RecordState::Running),
            decreases self.records@.len() - i,
        {
            if matches!(self.records[i].1, RecordState::Running) {
                proof {
                    lemma_find_present(self.records@, i as int);
                }
                running.push(self.records[i].0);
            }
            i += 1;
        }
        if running.len() > 0 {
            return Err(running);
        }
        self.plan = Some(plan);
        self.records = Vec::new();
        Ok(())
    }
}

impl UpdateTracker {
    /// A snapshot of every device's record, for the report that pairs the
    /// staged plan with each device's events.
    pub fn snapshot_records(&self) -> (r: Vec<(DeviceId, RecordState)>)
        ensures
            r@ == self.records@,
    {
        let mut out: Vec<(DeviceId, RecordState)> = Vec::new();
        let mut i: usize = 0;
        while i < self.records.len()
            invariant
                i <= self.records@.len(),
                out@ == self.records@.take(i as int),
            decreases self.records@.len() - i,
        {
            proof {
                assert(self.records@.take(i as int + 1).drop_last() =~= self.records@.take(
                    i as int,
                ));
                assert(self.records@.take(i as int + 1).last() == self.records@[i as int]);
            }
            out.push(self.records[i]);
            i += 1;
        }
        proof {
            assert(self.records@.take(i as int) =~= self.records@);
        }
        out
    }
}

/// At most one record exists for any device: any two record indices that
/// name the same device are the same index.
pub proof fn lemma_at_most_one_record(t: UpdateTracker, i: int, j: int)
    requires
        t.wf(),
        0 <= i < t.records@.len(),
        0 <= j < t.records@.len(),
        t.records@[i].0 == t.records@[j].0,
    ensures
        i == j,
{
}

/// Finding in a sequence with entry `i` updated: the device at `i` now
/// maps to the new state, every other device as before.
proof fn lemma_find_update(s: Seq<(DeviceId, RecordState)>, i: int, d: DeviceId, st: RecordState)
    requires
        unique_devices(s),
        0 <= i < s.len(),
        s[i].0 == d,
    ensures
        unique_devices(s.update(i, (d, st))),
        spec_find(s.update(i, (d, st)), d) == Some(st),
        forall|x: DeviceId| x != d ==> spec_find(s.update(i, (d, st)), x) == spec_find(s, x),
    decreases s.len(),
{
    let s2 = s.update(i, (d, st));
    assert forall|a: int, b: int| 0 <= a < b < s2.len() implies (#[trigger] s2[a]).0 != (
    #[trigger] s2[b]).0 by {
        assert(s[a].0 != s[b].0);
    }
    if i == 0 {
        assert(s2[0] == (d, st));
        assert(s2.drop_first() =~= s.drop_first());
        assert forall|x: DeviceId| x != d implies spec_find(s2, x) == spec_find(s, x) by {
            assert(spec_find(s2, x) == spec_find(s2.drop_first(), x));
            assert(spec_find(s, x) == spec_find(s.drop_first(), x));
        }
    } else {
        assert(s2[0] == s[0]);
        assert(s[0].0 != d);
        assert(s2.drop_first() =~= s.drop_first().update(i - 1, (d, st)));
        assert(unique_devices(s.drop_first())) by {
            assert(forall|a: int|
                0 <= a < s.drop_first().len() ==> s.drop_first()[a] == s[a + 1]);
        }
        lemma_find_update(s.drop_first(), i - 1, d, st);
        assert forall|x: DeviceId| x != d implies spec_find(s2, x) == spec_find(s, x) by {
            if x != s[0].0 {
                assert(spec_find(s2, x) == spec_find(s2.drop_first(), x));
                assert(spec_find(s, x) == spec_find(s.drop_first(), x));
            }
        }
    }
}

/// Finding in a sequence with `(d, st)` pushed when `d` was absent.
proof fn lemma_find_push(s: Seq<(DeviceId, RecordState)>, d: DeviceId, st: RecordState)
    requires
        unique_devices(s),
        spec_find(s, d) is None,
    ensures
        unique_devices(s.push((d, st))),
        spec_find(s.push((d, st)), d) == Some(st),
        forall|x: DeviceId| x != d ==> spec_find(s.push((d, st)), x) == spec_find(s, x),
    decreases s.len(),
{
    lemma_find_absent_all(s, d);
    let s2 = s.push((d, st));
    assert forall|a: int, b: int| 0 <= a < b < s2.len() implies (#[trigger] s2[a]).0 != (
    #[trigger] s2[b]).0 by {
        if b < s.len() {
            assert(s[a].0 != s[b].0);
        } else {
            assert(s2[b] == (d, st));
            assert(s2[a] == s[a]);
        }
    }
    if s.len() == 0 {
        assert(s2[0] == (d, st));
        assert(s2.drop_first() =~= Seq::<(DeviceId, RecordState)>::empty());
        assert forall|x: DeviceId| x != d implies spec_find(s2, x) == spec_find(s, x) by {
            assert(spec_find(s2, x) == spec_find(s2.drop_first(), x));
        }
    } else {
        assert(s2[0] == s[0]);
        assert(s2.drop_first() =~= s.drop_first().push((d, st)));
        assert(unique_devices(s.drop_first())) by {
            assert(forall|a: int|
                0 <= a < s.drop_first().len() ==> s.drop_first()[a] == s[a + 1]);
        }
        lemma_find_push(s.drop_first(), d, st);
        assert forall|x: DeviceId| x != d implies spec_find(s2, x) == spec_find(s, x) by {
            if x != s[0].0 {
                assert(spec_find(s2, x) == spec_find(s2.drop_first(), x));
                assert(spec_find(s, x) == spec_find(s.drop_first(), x));
            }
        }
    }
}

/// Finding in a sequence with entry `i` removed: the removed device is now
/// absent, every other device finds what it found before.
proof fn lemma_find_remove(s: Seq<(DeviceId, RecordState)>, i: int, d: DeviceId)
    requires
        unique_devices(s),
        0 <= i < s.len(),
        s[i].0 == d,
    ensures
        unique_devices(s.remove(i)),
        spec_find(s.remove(i), d) is None,
        forall|x: DeviceId| x != d ==> spec_find(s.remove(i), x) == spec_find(s, x),
    decreases s.len(),
{
    let s2 = s.remove(i);
    assert forall|a: int, b: int| 0 <= a < b < s2.len() implies (#[trigger] s2[a]).0 != (
    #[trigger] s2[b]).0 by {
        let a0: int = if a < i {
            a
        } else {
            a + 1
        };
        let b0: int = if b < i {
            b
        } else {
            b + 1
        };
        assert(s2[a] == s[a0]);
        assert(s2[b] == s[b0]);
        assert(s[a0].0 != s[b0].0);
    }
    if i == 0 {
        assert(s2 =~= s.drop_first());
        lemma_find_absent_from_unique(s, d);
        assert forall|x: DeviceId| x != d implies spec_find(s2, x) == spec_find(s, x) by {
            assert(spec_find(s, x) == spec_find(s.drop_first(), x));
        }
    } else {
        assert(s2[0] == s[0]);
        assert(s[0].0 != d);
        assert(s2.drop_first() =~= s.drop_first().remove(i - 1));
        assert(unique_devices(s.drop_first())) by {
            assert(forall|a: int|
                0 <= a < s.drop_first().len() ==> s.drop_first()[a] == s[a + 1]);
        }
        lemma_find_remove(s.drop_first(), i - 1, d);
        assert forall|x: DeviceId| x != d implies spec_find(s2, x) == spec_find(s, x) by {
            if x != s[0].0 {
                assert(spec_find(s2, x) == spec_find(s2.drop_first(), x));
                assert(spec_find(s, x) == spec_find(s.drop_first(), x));
            }
        }
    }
}

/// A device absent per `spec_find` appears in no entry at all.
proof fn lemma_find_absent_all(s: Seq<(DeviceId, RecordState)>, d: DeviceId)
    requires
        spec_find(s, d) is None,
    ensures
        forall|k: int| 0 <= k < s.len() ==> (#[trigger] s[k]).0 != d,
    decreases s.len(),
{
    if s.len() > 0 {
        lemma_find_absent_all(s.drop_first(), d);
        assert(forall|k: int| 1 <= k < s.len() ==> s[k] == s.drop_first()[k - 1]);
    }
}

/// In a unique sequence whose head holds `d`, the tail does not hold `d`.
proof fn lemma_find_absent_from_unique(s: Seq<(DeviceId, RecordState)>, d: DeviceId)
    requires
        unique_devices(s),
        s.len() > 0,
        s[0].0 == d,
    ensures
        spec_find(s.drop_first(), d) is None,
{
    lemma_absent_when_no_entry(s.drop_first(), d);
}

/// A device in no entry is absent per `spec_find`.
proof fn lemma_absent_when_no_entry(s: Seq<(DeviceId, RecordState)>, d: DeviceId)
    requires
        forall|k: int| 0 <= k < s.len() ==> (#[trigger] s[k]).0 != d,
    ensures
        spec_find(s, d) is None,
    decreases s.len(),
{
    if s.len() > 0 {
        assert(forall|k: int|
            0 <= k < s.drop_first().len() ==> s.drop_first()[k] == s[k + 1]);
        lemma_absent_when_no_entry(s.drop_first(), d);
    }
}

/// An entry's device is found: its record is some record.
proof fn lemma_find_present(s: Seq<(DeviceId, RecordState)>, i: int)
    requires
        unique_devices(s),
        0 <= i < s.len(),
    ensures
        spec_find(s, s[i].0) == Some(s[i].1),
    decreases s.len(),
{
    if i == 0 {
    } else {
        assert(s[0].0 != s[i].0);
        assert(unique_devices(s.drop_first())) by {
            assert(forall|a: int|
                0 <= a < s.drop_first().len() ==> s.drop_first()[a] == s[a + 1]);
        }
        assert(s.drop_first()[i - 1] == s[i]);
        lemma_find_present(s.drop_first(), i - 1);
    }
}

} // verus!
