//! Laws of the lifecycle: what holds of every collection, every key and
//! every instant, proved from the definitions of the operations.

use crate::lifecycle::{activation_plan, activation_settled, days_after, duration_checked};
use crate::models::errors::MyError;
use crate::models::license::{LicenseView, GRACE_SECONDS, SECONDS_IN_DAY};
use crate::operations::{
    activate_effect, activate_outcome, activated_until, create_effect, create_outcome,
    delete_effect, delete_outcome, effect, expiring_at, get_outcome, renew_effect, renew_in_range, renew_outcome, run, with_record,
    Operation,
};
use crate::store::{
    all_consistent, find_one, first_selected, first_selected_from, holds_key, keys_unique,
    lemma_delete_one, lemma_find_one, lemma_find_one_after_delete, lemma_find_one_after_insert,
    lemma_first_selected_from, lemma_insert_one, lemma_narrower_filter, update_count,
    update_one, DeleteResult, FilterView, UpdateResult,
};
use vstd::prelude::*;

verus! {

/// Two collections that agree on the key at every position find a key at
/// the same position.
pub proof fn lemma_same_keys_same_position(
    a: Seq<LicenseView>,
    b: Seq<LicenseView>,
    license: Seq<char>,
    start: int,
)
    requires
        a.len() == b.len(),
        forall|i: int| 0 <= i < a.len() ==> (#[trigger] a[i]).license == b[i].license,
    ensures
        first_selected_from(a, FilterView::by_key(license), start) == first_selected_from(
            b,
            FilterView::by_key(license),
            start,
        ),
    decreases a.len() - start,
{
    if 0 <= start < a.len() {
        assert(a[start].license == b[start].license);
        if a[start].license != license {
            lemma_same_keys_same_position(a, b, license, start + 1);
        }
    }
}

/// Replacing the record of a key by another record of the same key leaves
/// every other lookup as it was, and the key then leads to the new record.
pub proof fn lemma_with_record(
    records: Seq<LicenseView>,
    license: Seq<char>,
    record: LicenseView,
    other: Seq<char>,
)
    requires
        record.license == license,
        find_one(records, license) is Some,
    ensures
        with_record(records, license, record).len() == records.len(),
        find_one(with_record(records, license, record), license) == Some(record),
        other != license ==> find_one(with_record(records, license, record), other) == find_one(
            records,
            other,
        ),
        keys_unique(records) ==> keys_unique(with_record(records, license, record)),
{
    let after = with_record(records, license, record);
    lemma_first_selected_from(records, FilterView::by_key(license), 0);
    let i = first_selected(records, FilterView::by_key(license))->Some_0;
    assert forall|k: int| 0 <= k < records.len() implies (#[trigger] records[k]).license
        == after[k].license by {}
    lemma_same_keys_same_position(records, after, license, 0);
    lemma_same_keys_same_position(records, after, other, 0);
    if other != license {
        lemma_first_selected_from(records, FilterView::by_key(other), 0);
    }
    if keys_unique(records) {
        assert forall|a: int, b: int|
            0 <= a < after.len() && 0 <= b < after.len() && (#[trigger] after[a]).license == (
            #[trigger] after[b]).license implies a == b by {
            assert(records[a].license == records[b].license);
        }
    }
}

/// Every operation keeps the record invariant: if an expiration is present
/// exactly on the activated records before, so it is afterwards. A record
/// handed in for creation is stored as it is, so it has to meet the
/// invariant itself.
pub proof fn law_operation_keeps_invariant(records: Seq<LicenseView>, operation: Operation)
    requires
        all_consistent(records),
        operation is Create ==> operation->record.consistent(),
    ensures
        all_consistent(effect(records, operation)),
{
    let after = effect(records, operation);
    match operation {
        Operation::Create { record } => {},
        Operation::Get { license } => {},
        Operation::List { wallet } => {},
        Operation::Delete { license } => {
            lemma_delete_one(records, license);
        },
        Operation::Activate { license, days, now } => {
            lemma_first_selected_from(records, FilterView::by_key(license), 0);
            assert forall|k: int| 0 <= k < after.len() implies (#[trigger] after[k]).consistent() by {
                if after != records && first_selected(records, FilterView::by_key(license))
                    != Some(k) {
                    assert(records[k].consistent());
                }
            }
        },
        Operation::Renew { license, days, now } => {
            lemma_first_selected_from(records, FilterView::by_key(license), 0);
            assert forall|k: int| 0 <= k < after.len() implies (#[trigger] after[k]).consistent() by {
                if after != records && first_selected(records, FilterView::by_key(license))
                    != Some(k) {
                    assert(records[k].consistent());
                }
            }
        },
    }
}

/// Every operation keeps the keys unique.
pub proof fn law_operation_keeps_keys_unique(records: Seq<LicenseView>, operation: Operation)
    requires
        keys_unique(records),
    ensures
        keys_unique(effect(records, operation)),
{
    let after = effect(records, operation);
    match operation {
        Operation::Create { record } => {
            lemma_insert_one(records, record);
        },
        Operation::Get { license } => {},
        Operation::List { wallet } => {},
        Operation::Delete { license } => {
            lemma_delete_one(records, license);
        },
        Operation::Activate { license, days, now } => {
            if after != records {
                lemma_find_one(records, license);
                lemma_with_record(
                    records,
                    license,
                    activated_until(
                        find_one(records, license)->Some_0,
                        days_after(now as int, days as int) as i64,
                    ),
                    license,
                );
            }
        },
        Operation::Renew { license, days, now } => {
            if after != records {
                lemma_find_one(records, license);
                let record = find_one(records, license)->Some_0;
                lemma_with_record(
                    records,
                    license,
                    expiring_at(
                        record,
                        days_after(record.expiration->Some_0 as int, days as int) as i64,
                    ),
                    license,
                );
            }
        },
    }
}

/// The record invariant holds after every sequence of operations, provided
/// it held before and every record handed in for creation meets it.
pub proof fn law_invariant_after_every_sequence(
    records: Seq<LicenseView>,
    operations: Seq<Operation>,
)
    requires
        all_consistent(records),
        forall|i: int|
            0 <= i < operations.len() && (#[trigger] operations[i]) is Create
                ==> operations[i]->record.consistent(),
    ensures
        all_consistent(run(records, operations)),
        forall|i: int|
            0 <= i < run(records, operations).len() && !(#[trigger] run(
                records,
                operations,
            )[i]).activated ==> run(records, operations)[i].expiration is None,
    decreases operations.len(),
{
    if operations.len() > 0 {
        law_invariant_after_every_sequence(records, operations.drop_last());
        law_operation_keeps_invariant(
            run(records, operations.drop_last()),
            operations.last(),
        );
    }
    assert forall|i: int|
        0 <= i < run(records, operations).len() && !(#[trigger] run(
            records,
            operations,
        )[i]).activated implies run(records, operations)[i].expiration is None by {
        assert(run(records, operations)[i].consistent());
    }
}

/// What an operation does to the record of one key: `before` is what the
/// key led to, `after` what it leads to once the operation is served.
pub proof fn lemma_operation_on_record(
    records: Seq<LicenseView>,
    operation: Operation,
    license: Seq<char>,
)
    requires
        keys_unique(records),
        find_one(records, license) is Some,
    ensures
        ({
            let before = find_one(records, license)->Some_0;
            let after = find_one(effect(records, operation), license);
            match operation {
                Operation::Create { record } => after == Some(before),
                Operation::Get { license: asked } => after == Some(before),
                Operation::List { wallet } => after == Some(before),
                Operation::Delete { license: asked } => after == if asked == license {
                    None
                } else {
                    Some(before)
                },
                Operation::Activate { license: asked, days, now } => after == if asked == license
                    && activate_outcome(records, asked, days, now) is Ok {
                    Some(activated_until(before, days_after(now as int, days as int) as i64))
                } else {
                    Some(before)
                },
                Operation::Renew { license: asked, days, now } => after == if asked == license
                    && renew_outcome(records, asked, days, now) is Ok {
                    Some(
                        expiring_at(
                            before,
                            days_after(before.expiration->Some_0 as int, days as int) as i64,
                        ),
                    )
                } else {
                    Some(before)
                },
            }
        }),
{
    let before = find_one(records, license)->Some_0;
    match operation {
        Operation::Create { record } => {
            lemma_find_one_after_insert(records, record, license);
        },
        Operation::Get { license: asked } => {},
        Operation::List { wallet } => {},
        Operation::Delete { license: asked } => {
            if asked == license {
                lemma_find_one(records, license);
                lemma_delete_one(records, license);
                lemma_find_one(delete_effect(records, license), license);
            } else {
                lemma_find_one_after_delete(records, asked, license);
            }
        },
        Operation::Activate { license: asked, days, now } => {
            if activate_outcome(records, asked, days, now) is Ok {
                lemma_find_one(records, asked);
                lemma_with_record(
                    records,
                    asked,
                    activated_until(
                        find_one(records, asked)->Some_0,
                        days_after(now as int, days as int) as i64,
                    ),
                    license,
                );
            }
        },
        Operation::Renew { license: asked, days, now } => {
            if renew_outcome(records, asked, days, now) is Ok {
                lemma_find_one(records, asked);
                let found = find_one(records, asked)->Some_0;
                lemma_with_record(
                    records,
                    asked,
                    expiring_at(
                        found,
                        days_after(found.expiration->Some_0 as int, days as int) as i64,
                    ),
                    license,
                );
            }
        },
    }
}

/// An operation that fails leaves the collection as it was: no failing
/// path writes.
pub proof fn law_failure_writes_nothing(
    records: Seq<LicenseView>,
    license: Seq<char>,
    record: LicenseView,
    days: i64,
    now: i64,
)
    ensures
        create_outcome(records, record) is Err ==> create_effect(records, record) == records,
        delete_outcome(records, license) is Err ==> delete_effect(records, license) == records,
        activate_outcome(records, license, days, now) is Err ==> activate_effect(
            records,
            license,
            days,
            now,
        ) == records,
        renew_outcome(records, license, days, now) is Err ==> renew_effect(
            records,
            license,
            days,
            now,
        ) == records,
{
    lemma_delete_one(records, license);
}

/// Activation is permanent: no operation turns an activated record back
/// into an unactivated one. A record can only leave by removal.
pub proof fn law_activation_is_permanent(
    records: Seq<LicenseView>,
    operation: Operation,
    license: Seq<char>,
)
    requires
        keys_unique(records),
        find_one(records, license) is Some,
        find_one(records, license)->Some_0.activated,
        find_one(effect(records, operation), license) is Some,
    ensures
        find_one(effect(records, operation), license)->Some_0.activated,
{
    lemma_operation_on_record(records, operation, license);
}

/// The expiration of a record never moves back, as long as no renewal is
/// asked for a negative number of days: a renewal by a negative day count
/// is served as it is asked and moves the expiration back.
pub proof fn law_expiration_never_decreases(
    records: Seq<LicenseView>,
    operation: Operation,
    license: Seq<char>,
)
    requires
        keys_unique(records),
        all_consistent(records),
        find_one(records, license) is Some,
        find_one(records, license)->Some_0.expiration is Some,
        find_one(effect(records, operation), license) is Some,
        operation is Renew ==> operation->Renew_days >= 0 && renew_in_range(
            records,
            operation->Renew_license,
            operation->Renew_days,
            operation->Renew_now,
        ),
    ensures
        find_one(effect(records, operation), license)->Some_0.expiration is Some,
        find_one(effect(records, operation), license)->Some_0.expiration->Some_0 >= find_one(
            records,
            license,
        )->Some_0.expiration->Some_0,
{
    lemma_operation_on_record(records, operation, license);
    lemma_find_one(records, license);
    let before = find_one(records, license)->Some_0;
    assert(before.consistent());
    match operation {
        Operation::Renew { license: asked, days, now } => {
            assert(days * SECONDS_IN_DAY >= 0);
        },
        _ => {},
    }
}

/// Activation is not idempotent. Once an activation has succeeded, a
/// further activation of the same key, for any positive day count and at
/// any instant, is refused with `LicenseAlreadyActive` and changes nothing:
/// the expiration stays the one that the first activation set.
pub proof fn law_second_activation_refused(
    records: Seq<LicenseView>,
    license: Seq<char>,
    days: i64,
    now: i64,
    days_again: i64,
    now_again: i64,
)
    requires
        activate_outcome(records, license, days, now) is Ok,
        days_again > 0,
    ensures
        ({
            let once = activate_effect(records, license, days, now);
            &&& find_one(once, license) == Some(
                activated_until(
                    find_one(records, license)->Some_0,
                    days_after(now as int, days as int) as i64,
                ),
            )
            &&& activate_outcome(once, license, days_again, now_again) == Err::<
                UpdateResult,
                MyError,
            >(MyError::LicenseAlreadyActive)
            &&& activate_effect(once, license, days_again, now_again) == once
        }),
{
    lemma_find_one(records, license);
    lemma_with_record(
        records,
        license,
        activated_until(
            find_one(records, license)->Some_0,
            days_after(now as int, days as int) as i64,
        ),
        license,
    );
}

/// Any activation of a license that is already active, for a positive day
/// count, is refused with `LicenseAlreadyActive` and changes nothing.
pub proof fn law_active_license_not_activated_again(
    records: Seq<LicenseView>,
    license: Seq<char>,
    days: i64,
    now: i64,
)
    requires
        find_one(records, license) is Some,
        find_one(records, license)->Some_0.activated,
        days > 0,
    ensures
        activate_outcome(records, license, days, now) == Err::<UpdateResult, MyError>(
            MyError::LicenseAlreadyActive,
        ),
        activate_effect(records, license, days, now) == records,
{
}

/// A day count that is not positive is refused with `InvalidDuration`
/// whatever the collection holds, before anything is read, and no update is
/// planned or written.
pub proof fn law_invalid_duration_writes_nothing(
    records: Seq<LicenseView>,
    license: Seq<char>,
    days: i64,
    now: i64,
)
    requires
        days <= 0,
    ensures
        duration_checked(days) == Err::<(), MyError>(MyError::InvalidDuration),
        activate_outcome(records, license, days, now) == Err::<UpdateResult, MyError>(
            MyError::InvalidDuration,
        ),
        activate_effect(records, license, days, now) == records,
        forall|record: LicenseView| #[trigger] activation_plan(record, days, now) is Err,
{
}

/// A renewal is accepted exactly up to the grace deadline, that instant
/// included: an activated license is refused as `LicenseExpired` if and
/// only if `now` lies after its expiration plus the grace window.
pub proof fn law_grace_window(records: Seq<LicenseView>, license: Seq<char>, days: i64, now: i64)
    requires
        find_one(records, license) is Some,
        find_one(records, license)->Some_0.activated,
        find_one(records, license)->Some_0.expiration is Some,
    ensures
        ({
            let expiration = find_one(records, license)->Some_0.expiration->Some_0;
            &&& now <= expiration + GRACE_SECONDS <==> renew_outcome(records, license, days, now)
                is Ok
            &&& now > expiration + GRACE_SECONDS <==> renew_outcome(records, license, days, now)
                == Err::<UpdateResult, MyError>(MyError::LicenseExpired)
        }),
{
}

/// A renewal that is accepted moves the expiration to exactly `days` days
/// after the previous expiration, and changes nothing else in the record.
pub proof fn law_renewal_counts_from_expiration(
    records: Seq<LicenseView>,
    license: Seq<char>,
    days: i64,
    now: i64,
)
    requires
        renew_outcome(records, license, days, now) is Ok,
        renew_in_range(records, license, days, now),
    ensures
        ({
            let before = find_one(records, license)->Some_0;
            let after = find_one(renew_effect(records, license, days, now), license);
            &&& after is Some
            &&& after->Some_0.expiration is Some
            &&& after->Some_0.expiration->Some_0 == before.expiration->Some_0 + days
                * SECONDS_IN_DAY
            &&& after->Some_0.activated == before.activated
            &&& after->Some_0.wallet == before.wallet
        }),
{
    lemma_find_one(records, license);
    let before = find_one(records, license)->Some_0;
    lemma_with_record(
        records,
        license,
        expiring_at(before, days_after(before.expiration->Some_0 as int, days as int) as i64),
        license,
    );
}

/// What a renewal leaves behind does not depend on the instant at which it
/// is served, as long as that instant lies within the grace window.
pub proof fn law_renewal_independent_of_clock(
    records: Seq<LicenseView>,
    license: Seq<char>,
    days: i64,
    now: i64,
    other_now: i64,
)
    requires
        renew_outcome(records, license, days, now) is Ok,
        renew_outcome(records, license, days, other_now) is Ok,
    ensures
        renew_effect(records, license, days, now) == renew_effect(
            records,
            license,
            days,
            other_now,
        ),
        renew_outcome(records, license, days, now) == renew_outcome(
            records,
            license,
            days,
            other_now,
        ),
{
}

/// Removing a key that is absent fails with `LicenseDoesNotExist` and
/// changes nothing.
pub proof fn law_delete_absent(records: Seq<LicenseView>, license: Seq<char>)
    requires
        !holds_key(records, license),
    ensures
        delete_outcome(records, license) == Err::<DeleteResult, MyError>(
            MyError::LicenseDoesNotExist,
        ),
        delete_effect(records, license) == records,
{
    lemma_delete_one(records, license);
}

/// Removing a key that is present takes out exactly one record, and a
/// lookup of that key afterwards fails with `LicenseNotFound`.
pub proof fn law_delete_then_get(records: Seq<LicenseView>, license: Seq<char>)
    requires
        keys_unique(records),
        holds_key(records, license),
    ensures
        delete_outcome(records, license) == Ok::<DeleteResult, MyError>(
            DeleteResult { deleted_count: 1 },
        ),
        delete_effect(records, license).len() == records.len() - 1,
        get_outcome(delete_effect(records, license), license) == Err::<LicenseView, MyError>(
            MyError::LicenseNotFound,
        ),
{
    lemma_delete_one(records, license);
    lemma_find_one(delete_effect(records, license), license);
}

/// Two activations that race on one unactivated license: both read the
/// record before either writes, both decide to activate, and the store
/// applies their updates one after the other. The first update modifies the
/// record and succeeds. The second finds its filter unmet, modifies nothing
/// and is reported as `LicenseNotFound`. The record ends up activated with
/// the expiration of the first, and of the first alone.
pub proof fn law_racing_activations(
    records: Seq<LicenseView>,
    license: Seq<char>,
    first_days: i64,
    first_now: i64,
    second_days: i64,
    second_now: i64,
)
    requires
        keys_unique(records),
        find_one(records, license) is Some,
        !find_one(records, license)->Some_0.activated,
        first_days > 0,
        second_days > 0,
    ensures
        ({
            let read = find_one(records, license)->Some_0;
            let first = activation_plan(read, first_days, first_now);
            let second = activation_plan(read, second_days, second_now);
            let between = update_one(records, first->Ok_0);
            let end = update_one(between, second->Ok_0);
            &&& first is Ok
            &&& second is Ok
            &&& activation_settled(Ok(update_count(records, first->Ok_0))) is Ok
            &&& activation_settled(Ok(update_count(between, second->Ok_0))) == Err::<
                UpdateResult,
                MyError,
            >(MyError::LicenseNotFound)
            &&& end == between
            &&& between == activate_effect(records, license, first_days, first_now)
            &&& find_one(end, license) == Some(
                activated_until(read, days_after(first_now as int, first_days as int) as i64),
            )
        }),
{
    let read = find_one(records, license)->Some_0;
    let first = activation_plan(read, first_days, first_now)->Ok_0;
    let second = activation_plan(read, second_days, second_now)->Ok_0;
    lemma_find_one(records, license);
    lemma_narrower_filter(records, first.filter);
    lemma_first_selected_from(records, FilterView::by_key(license), 0);
    let between = update_one(records, first);
    let written = activated_until(read, days_after(first_now as int, first_days as int) as i64);
    assert(between =~= with_record(records, license, written));
    lemma_with_record(records, license, written, license);
    // In `between` the only record with this key is activated, so the
    // filter of the second update selects nothing.
    lemma_first_selected_from(between, second.filter, 0);
    lemma_first_selected_from(between, FilterView::by_key(license), 0);
    let i = first_selected(between, FilterView::by_key(license))->Some_0;
    assert(between[i] == written);
    if first_selected(between, second.filter) is Some {
        let j = first_selected(between, second.filter)->Some_0;
        assert(between[j].license == between[i].license);
        assert(j == i);
    }
}

} // verus!
