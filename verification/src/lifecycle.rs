//! The decisions of the lifecycle, apart from any store: which request an
//! operation sends for a record it has read, and what each store outcome
//! means to the caller.

use crate::models::errors::MyError;
use crate::models::license::{License, LicenseView, LifecycleState, SECONDS_IN_DAY};
use crate::store::{
    DeleteResult, FilterView, RequestView, StoreFault, UpdateFilter, UpdatePatch, UpdateRequest,
    UpdateResult,
};
use vstd::prelude::*;

verus! {

/// The instant `days` days after `from`.
pub open spec fn days_after(from: int, days: int) -> int {
    from + days * SECONDS_IN_DAY
}

/// A day count is valid when it is positive.
pub open spec fn duration_checked(days: i64) -> Result<(), MyError> {
    if days > 0 {
        Ok(())
    } else {
        Err(MyError::InvalidDuration)
    }
}

/// The activation of `record` for `days` days at `now`: the update to send,
/// or the reason why none is sent. The filter restates that the record is
/// unactivated, so that of two activations decided on the same reading only
/// one can take effect.
pub open spec fn activation_plan(record: LicenseView, days: i64, now: i64) -> Result<
    RequestView,
    MyError,
> {
    if days <= 0 {
        Err(MyError::InvalidDuration)
    } else if record.activated {
        Err(MyError::LicenseAlreadyActive)
    } else {
        Ok(
            RequestView {
                filter: FilterView { license: record.license, activated: Some(false) },
                patch: UpdatePatch {
                    expiration: days_after(now as int, days as int) as i64,
                    activated: Some(true),
                },
            },
        )
    }
}

/// The renewal of `record` by `days` days at `now`: the update to send, or
/// the reason why none is sent. The new expiration counts from the old one,
/// not from `now`.
pub open spec fn renewal_plan(record: LicenseView, days: i64, now: i64) -> Result<
    RequestView,
    MyError,
> {
    match record.state_at(now as int) {
        LifecycleState::Unactivated => Err(MyError::LicenseNotActivated),
        LifecycleState::Expired => Err(MyError::LicenseExpired),
        LifecycleState::Active => Ok(
            RequestView {
                filter: FilterView::by_key(record.license),
                patch: UpdatePatch {
                    expiration: days_after(record.expiration->Some_0 as int, days as int) as i64,
                    activated: None,
                },
            },
        ),
    }
}

/// Whether the expiration that an activation of `record` for `days` days at
/// `now` would set can be held in an `i64`. Where the activation is refused
/// there is no limit.
pub open spec fn activation_in_range(record: LicenseView, days: i64, now: i64) -> bool {
    activation_plan(record, days, now) is Ok ==> days_after(now as int, days as int) <= i64::MAX
}

/// Whether the expiration that a renewal of `record` by `days` days would
/// set can be held in an `i64`. Records that cannot be renewed at `now`
/// impose no limit.
pub open spec fn renewal_in_range(record: LicenseView, days: i64, now: i64) -> bool {
    record.state_at(now as int) == LifecycleState::Active ==> i64::MIN <= days_after(
        record.expiration->Some_0 as int,
        days as int,
    ) <= i64::MAX
}

/// What the outcome of a lookup means: the record, `LicenseNotFound` where
/// there is none, `DatabaseError` where the store failed.
pub open spec fn lookup_settled(outcome: Result<Option<License>, StoreFault>) -> Result<
    License,
    MyError,
> {
    match outcome {
        Ok(Some(record)) => Ok(record),
        Ok(None) => Err(MyError::LicenseNotFound),
        Err(_) => Err(MyError::DatabaseError),
    }
}

/// What the outcome of an insertion means: what the store returned for the
/// new record, or `DatabaseError`.
pub open spec fn creation_settled<T>(outcome: Result<T, StoreFault>) -> Result<T, MyError> {
    match outcome {
        Ok(record) => Ok(record),
        Err(_) => Err(MyError::DatabaseError),
    }
}

/// What the outcome of a removal means: success only if exactly one record
/// was removed.
pub open spec fn removal_settled(outcome: Result<DeleteResult, StoreFault>) -> Result<
    DeleteResult,
    MyError,
> {
    match outcome {
        Ok(done) => if done.deleted_count == 1 {
            Ok(done)
        } else {
            Err(MyError::LicenseDoesNotExist)
        },
        Err(_) => Err(MyError::DatabaseError),
    }
}

/// What the outcome of an activation's update means. One modified record is
/// success. None means that the record was no longer unactivated when the
/// update arrived, and is reported as `LicenseNotFound`. Anything else is a
/// `DatabaseError`.
pub open spec fn activation_settled(outcome: Result<UpdateResult, StoreFault>) -> Result<
    UpdateResult,
    MyError,
> {
    match outcome {
        Ok(done) => if done.modified_count == 1 {
            Ok(done)
        } else if done.modified_count == 0 {
            Err(MyError::LicenseNotFound)
        } else {
            Err(MyError::DatabaseError)
        },
        Err(_) => Err(MyError::DatabaseError),
    }
}

/// What the outcome of a renewal's update means: whatever the store
/// reports, or `DatabaseError` where it failed.
pub open spec fn renewal_settled<T>(outcome: Result<T, StoreFault>) -> Result<T, MyError> {
    match outcome {
        Ok(done) => Ok(done),
        Err(_) => Err(MyError::DatabaseError),
    }
}

/// The records of a listing that could be read, in their order; reads that
/// failed are left out.
pub open spec fn readable(items: Seq<Result<License, StoreFault>>) -> Seq<License>
    decreases items.len(),
{
    if items.len() == 0 {
        Seq::empty()
    } else {
        let earlier = readable(items.drop_last());
        match items.last() {
            Ok(record) => earlier.push(record),
            Err(_) => earlier,
        }
    }
}

/// Validates the day count of an activation. This comes before anything is
/// read or written.
pub fn check_duration(days: i64) -> (checked: Result<(), MyError>)
    ensures
        checked == duration_checked(days),
{
    if days <= 0 {
        Err(MyError::InvalidDuration)
    } else {
        Ok(())
    }
}

/// Whether an activation of `record` for `days` days at `now` sets an
/// expiration that an `i64` can hold. Callers that cannot reason about the
/// range ask here before they plan the activation.
pub fn activation_fits(record: &License, days: i64, now: i64) -> (fits: bool)
    ensures
        fits == activation_in_range(record@, days, now),
{
    if days <= 0 || record.activated {
        return true;
    }
    assert(0 < days * SECONDS_IN_DAY <= i64::MAX * 86400);
    let expiration: i128 = now as i128 + days as i128 * SECONDS_IN_DAY as i128;
    expiration <= i64::MAX as i128
}

/// Whether a renewal of `record` by `days` days at `now` sets an expiration
/// that an `i64` can hold. Callers that cannot reason about the range ask
/// here before they plan the renewal.
pub fn renewal_fits(record: &License, days: i64, now: i64) -> (fits: bool)
    ensures
        fits == renewal_in_range(record@, days, now),
{
    match record.state_at(now) {
        LifecycleState::Active => {
            let current: i64 = record.expiration.unwrap();
            assert(i64::MIN * 86400 <= days * SECONDS_IN_DAY <= i64::MAX * 86400);
            let expiration: i128 = current as i128 + days as i128 * SECONDS_IN_DAY as i128;
            i64::MIN as i128 <= expiration && expiration <= i64::MAX as i128
        },
        _ => true,
    }
}

/// Decides the activation of `record`, as read from the store, for `days`
/// days at `now`.
pub fn plan_activation(record: &License, days: i64, now: i64) -> (plan: Result<
    UpdateRequest,
    MyError,
>)
    requires
        activation_in_range(record@, days, now),
    ensures
        match plan {
            Ok(request) => activation_plan(record@, days, now) == Ok::<RequestView, MyError>(
                request@,
            ),
            Err(e) => activation_plan(record@, days, now) == Err::<RequestView, MyError>(e),
        },
{
    if days <= 0 {
        return Err(MyError::InvalidDuration);
    }
    if record.activated {
        return Err(MyError::LicenseAlreadyActive);
    }
    let expiration: i128 = now as i128 + days as i128 * SECONDS_IN_DAY as i128;
    Ok(
        UpdateRequest {
            filter: UpdateFilter { license: record.license.clone(), activated: Some(false) },
            patch: UpdatePatch { expiration: expiration as i64, activated: Some(true) },
        },
    )
}

/// Decides the renewal of `record`, as read from the store, by `days` days
/// at `now`. The grace deadline itself still counts as in time.
///
/// Unlike an activation, the update of a renewal selects by key alone: it
/// does not restate in its filter what was read. A record that is replaced
/// between the read and the write is renewed all the same.
pub fn plan_renewal(record: &License, days: i64, now: i64) -> (plan: Result<
    UpdateRequest,
    MyError,
>)
    requires
        renewal_in_range(record@, days, now),
    ensures
        match plan {
            Ok(request) => renewal_plan(record@, days, now) == Ok::<RequestView, MyError>(
                request@,
            ),
            Err(e) => renewal_plan(record@, days, now) == Err::<RequestView, MyError>(e),
        },
{
    match record.state_at(now) {
        LifecycleState::Unactivated => Err(MyError::LicenseNotActivated),
        LifecycleState::Expired => Err(MyError::LicenseExpired),
        LifecycleState::Active => {
            let current: i64 = record.expiration.unwrap();
            let expiration: i128 = current as i128 + days as i128 * SECONDS_IN_DAY as i128;
            Ok(
                UpdateRequest {
                    filter: UpdateFilter { license: record.license.clone(), activated: None },
                    patch: UpdatePatch { expiration: expiration as i64, activated: None },
                },
            )
        },
    }
}

/// Turns the outcome of a lookup into the caller's result.
pub fn settle_lookup(outcome: Result<Option<License>, StoreFault>) -> (settled: Result<
    License,
    MyError,
>)
    ensures
        settled == lookup_settled(outcome),
{
    match outcome {
        Ok(Some(record)) => Ok(record),
        Ok(None) => Err(MyError::LicenseNotFound),
        Err(_) => Err(MyError::DatabaseError),
    }
}

/// Turns the outcome of an insertion into the caller's result.
pub fn settle_creation<T>(outcome: Result<T, StoreFault>) -> (settled: Result<T, MyError>)
    ensures
        settled == creation_settled(outcome),
{
    match outcome {
        Ok(record) => Ok(record),
        Err(_) => Err(MyError::DatabaseError),
    }
}

/// Turns the outcome of a removal into the caller's result.
pub fn settle_removal(outcome: Result<DeleteResult, StoreFault>) -> (settled: Result<
    DeleteResult,
    MyError,
>)
    ensures
        settled == removal_settled(outcome),
{
    match outcome {
        Ok(done) => if done.deleted_count == 1 {
            Ok(done)
        } else {
            Err(MyError::LicenseDoesNotExist)
        },
        Err(_) => Err(MyError::DatabaseError),
    }
}

/// Turns the outcome of an activation's update into the caller's result.
pub fn settle_activation(outcome: Result<UpdateResult, StoreFault>) -> (settled: Result<
    UpdateResult,
    MyError,
>)
    ensures
        settled == activation_settled(outcome),
{
    match outcome {
        Ok(done) => if done.modified_count == 1 {
            Ok(done)
        } else if done.modified_count == 0 {
            Err(MyError::LicenseNotFound)
        } else {
            Err(MyError::DatabaseError)
        },
        Err(_) => Err(MyError::DatabaseError),
    }
}

/// Turns the outcome of a renewal's update into the caller's result.
pub fn settle_renewal<T>(outcome: Result<T, StoreFault>) -> (settled: Result<T, MyError>)
    ensures
        settled == renewal_settled(outcome),
{
    match outcome {
        Ok(done) => Ok(done),
        Err(_) => Err(MyError::DatabaseError),
    }
}

/// Keeps the records of a listing that could be read and drops the reads
/// that failed, so that one bad record does not cost the caller the rest.
pub fn collect_listing(items: Vec<Result<License, StoreFault>>) -> (records: Vec<License>)
    ensures
        records@ == readable(items@),
{
    let mut records: Vec<License> = Vec::new();
    let ghost all = items@;
    for item in iter: items
        invariant
            iter.seq() == all,
            records@ == readable(all.take(iter.index())),
    {
        proof {
            assert(all.take(iter.index() + 1).drop_last() == all.take(iter.index()));
        }
        if let Ok(record) = item {
            records.push(record);
        }
    }
    proof {
        assert(all.take(all.len() as int) == all);
    }
    records
}

} // verus!
