//! What each lifecycle operation returns and what it leaves in the
//! collection, stated on the mathematical model of the collection.

use crate::lifecycle::days_after;
use crate::models::errors::MyError;
use crate::models::license::{LicenseView, LifecycleState};
use crate::store::{
    delete_one, find_many, find_one, first_selected, holds_key, DeleteResult, FilterView,
    UpdateResult,
};
use vstd::prelude::*;

verus! {

/// `record` once activated with the given expiration.
pub open spec fn activated_until(record: LicenseView, expiration: i64) -> LicenseView {
    LicenseView {
        license: record.license,
        wallet: record.wallet,
        activated: true,
        expiration: Some(expiration),
    }
}

/// `record` with its expiration moved to the given instant.
pub open spec fn expiring_at(record: LicenseView, expiration: i64) -> LicenseView {
    LicenseView {
        license: record.license,
        wallet: record.wallet,
        activated: record.activated,
        expiration: Some(expiration),
    }
}

/// `records` with the first record of key `license` replaced by `record`.
pub open spec fn with_record(
    records: Seq<LicenseView>,
    license: Seq<char>,
    record: LicenseView,
) -> Seq<LicenseView> {
    match first_selected(records, FilterView::by_key(license)) {
        Some(i) => records.update(i, record),
        None => records,
    }
}

/// What creating `record` returns: the record, or `DatabaseError` where its
/// key is already taken.
pub open spec fn create_outcome(records: Seq<LicenseView>, record: LicenseView) -> Result<
    LicenseView,
    MyError,
> {
    if holds_key(records, record.license) {
        Err(MyError::DatabaseError)
    } else {
        Ok(record)
    }
}

/// The collection after creating `record`.
pub open spec fn create_effect(records: Seq<LicenseView>, record: LicenseView) -> Seq<
    LicenseView,
> {
    if holds_key(records, record.license) {
        records
    } else {
        records.push(record)
    }
}

/// What looking up `license` returns.
pub open spec fn get_outcome(records: Seq<LicenseView>, license: Seq<char>) -> Result<
    LicenseView,
    MyError,
> {
    match find_one(records, license) {
        Some(record) => Ok(record),
        None => Err(MyError::LicenseNotFound),
    }
}

/// What removing `license` returns.
pub open spec fn delete_outcome(records: Seq<LicenseView>, license: Seq<char>) -> Result<
    DeleteResult,
    MyError,
> {
    if holds_key(records, license) {
        Ok(DeleteResult { deleted_count: 1 })
    } else {
        Err(MyError::LicenseDoesNotExist)
    }
}

/// The collection after removing `license`.
pub open spec fn delete_effect(records: Seq<LicenseView>, license: Seq<char>) -> Seq<LicenseView> {
    delete_one(records, license)
}

/// What listing the records of `wallet` returns. An owner without records
/// gets the empty sequence.
pub open spec fn list_outcome(records: Seq<LicenseView>, wallet: Seq<char>) -> Seq<LicenseView> {
    find_many(records, wallet)
}

/// What activating `license` for `days` days at `now` returns. The day count
/// is judged first, then the presence of the record, then its state.
pub open spec fn activate_outcome(
    records: Seq<LicenseView>,
    license: Seq<char>,
    days: i64,
    now: i64,
) -> Result<UpdateResult, MyError> {
    if days <= 0 {
        Err(MyError::InvalidDuration)
    } else {
        match find_one(records, license) {
            None => Err(MyError::LicenseNotFound),
            Some(record) => if record.activated {
                Err(MyError::LicenseAlreadyActive)
            } else {
                Ok(UpdateResult { matched_count: 1, modified_count: 1 })
            },
        }
    }
}

/// The collection after activating `license` for `days` days at `now`: on
/// success the record is active until `days` days after `now`; on failure
/// nothing has changed.
pub open spec fn activate_effect(
    records: Seq<LicenseView>,
    license: Seq<char>,
    days: i64,
    now: i64,
) -> Seq<LicenseView> {
    if activate_outcome(records, license, days, now) is Ok {
        with_record(
            records,
            license,
            activated_until(
                find_one(records, license)->Some_0,
                days_after(now as int, days as int) as i64,
            ),
        )
    } else {
        records
    }
}

/// Whether the expiration that activating `license` for `days` days at `now`
/// would set can be held in an `i64`. Where the activation is refused there
/// is no limit.
pub open spec fn activate_in_range(
    records: Seq<LicenseView>,
    license: Seq<char>,
    days: i64,
    now: i64,
) -> bool {
    activate_outcome(records, license, days, now) is Ok ==> days_after(now as int, days as int)
        <= i64::MAX
}

/// What renewing `license` by `days` days at `now` returns. A renewal by
/// zero days matches the record and modifies nothing.
pub open spec fn renew_outcome(
    records: Seq<LicenseView>,
    license: Seq<char>,
    days: i64,
    now: i64,
) -> Result<UpdateResult, MyError> {
    match find_one(records, license) {
        None => Err(MyError::LicenseNotFound),
        Some(record) => match record.state_at(now as int) {
            LifecycleState::Unactivated => Err(MyError::LicenseNotActivated),
            LifecycleState::Expired => Err(MyError::LicenseExpired),
            LifecycleState::Active => Ok(
                UpdateResult {
                    matched_count: 1,
                    modified_count: if days == 0 {
                        0
                    } else {
                        1
                    },
                },
            ),
        },
    }
}

/// The collection after renewing `license` by `days` days at `now`: on
/// success the expiration stands `days` days after the previous one; on
/// failure nothing has changed.
pub open spec fn renew_effect(
    records: Seq<LicenseView>,
    license: Seq<char>,
    days: i64,
    now: i64,
) -> Seq<LicenseView> {
    if renew_outcome(records, license, days, now) is Ok {
        let record = find_one(records, license)->Some_0;
        with_record(
            records,
            license,
            expiring_at(record, days_after(record.expiration->Some_0 as int, days as int) as i64),
        )
    } else {
        records
    }
}

/// Whether the expiration that renewing `license` by `days` days at `now`
/// would set can be held in an `i64`. Where the renewal is refused there is
/// no limit.
pub open spec fn renew_in_range(
    records: Seq<LicenseView>,
    license: Seq<char>,
    days: i64,
    now: i64,
) -> bool {
    renew_outcome(records, license, days, now) is Ok ==> i64::MIN <= days_after(
        find_one(records, license)->Some_0.expiration->Some_0 as int,
        days as int,
    ) <= i64::MAX
}

/// One request to the lifecycle, with the instant at which it is served
/// where the instant matters.
pub enum Operation {
    Create { record: LicenseView },
    Get { license: Seq<char> },
    List { wallet: Seq<char> },
    Activate { license: Seq<char>, days: i64, now: i64 },
    Renew { license: Seq<char>, days: i64, now: i64 },
    Delete { license: Seq<char> },
}

/// The collection after `operation` has been served.
pub open spec fn effect(records: Seq<LicenseView>, operation: Operation) -> Seq<LicenseView> {
    match operation {
        Operation::Create { record } => create_effect(records, record),
        Operation::Get { license } => records,
        Operation::List { wallet } => records,
        Operation::Activate { license, days, now } => activate_effect(records, license, days, now),
        Operation::Renew { license, days, now } => renew_effect(records, license, days, now),
        Operation::Delete { license } => delete_effect(records, license),
    }
}

/// The collection after `operations` have been served one after the other.
pub open spec fn run(records: Seq<LicenseView>, operations: Seq<Operation>) -> Seq<LicenseView>
    decreases operations.len(),
{
    if operations.len() == 0 {
        records
    } else {
        effect(run(records, operations.drop_last()), operations.last())
    }
}

} // verus!
