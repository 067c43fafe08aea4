//! The repository of license records: the five store primitives over a
//! collection held in memory, and the lifecycle operations built on them.
//!
//! Each operation runs as it would against a remote store: it reads, takes
//! its decision on what it has read, sends one request and interprets the
//! outcome. The decisions are those of [`crate::lifecycle`]; a repository
//! over a database sends the same requests and is to behave as this one.

use crate::clock::{clock_reading, current_timestamp};
use crate::laws::law_operation_keeps_invariant;
use crate::lifecycle::{
    check_duration, days_after, plan_activation, plan_renewal, settle_activation,
    settle_creation, settle_lookup, settle_removal, settle_renewal,
};
use crate::models::errors::MyError;
use crate::models::license::{License, LicenseView};
use crate::operations::{
    activate_effect, activate_in_range, activate_outcome, create_effect, create_outcome,
    delete_effect, delete_outcome, get_outcome, list_outcome, renew_effect, renew_in_range,
    renew_outcome, Operation,
};
use crate::store::{
    all_consistent, delete_count, delete_one, find_many, find_one, first_selected,
    first_selected_from, holds_key, insert_one, keys_unique, lemma_delete_one, lemma_find_one,
    lemma_first_selected_from, lemma_insert_one, lemma_narrower_filter, lemma_update_one,
    patched, update_count, update_one, DeleteResult, FilterView, StoreFault, UpdateFilter,
    UpdateRequest, UpdateResult,
};
use vstd::prelude::*;

verus! {

/// The views of a sequence of records.
pub open spec fn views(records: Seq<License>) -> Seq<LicenseView> {
    records.map_values(|record: License| record@)
}

/// The collection of license records, in the order in which they were
/// created. No key occurs twice in it. Its view is the sequence of the
/// records' values.
pub struct DbRepo {
    records: Vec<License>,
}

impl View for DbRepo {
    type V = Seq<LicenseView>;

    closed spec fn view(&self) -> Seq<LicenseView> {
        views(self.records@)
    }
}

impl DbRepo {
    #[verifier::type_invariant]
    spec fn well_formed(self) -> bool {
        keys_unique(self@)
    }

    /// An empty collection.
    pub fn new() -> (repo: DbRepo)
        ensures
            repo@ == Seq::<LicenseView>::empty(),
    {
        let repo = DbRepo { records: Vec::new() };
        assert(repo@ =~= Seq::<LicenseView>::empty());
        repo
    }

    /// The number of records held.
    pub fn len(&self) -> (count: usize)
        ensures
            count == self@.len(),
            keys_unique(self@),
    {
        proof {
            use_type_invariant(self);
        }
        self.records.len()
    }

    fn position(&self, filter: &UpdateFilter) -> (found: Option<usize>)
        ensures
            match found {
                Some(i) => first_selected(self@, filter@) == Some(i as int) && i < self@.len(),
                None => first_selected(self@, filter@) is None,
            },
    {
        let mut i: usize = 0;
        while i < self.records.len()
            invariant
                i <= self.records.len(),
                self@.len() == self.records.len(),
                first_selected(self@, filter@) == first_selected_from(self@, filter@, i as int),
            decreases self.records.len() - i,
        {
            let record = &self.records[i];
            assert(self@[i as int] == record@);
            let flag_agrees = match filter.activated {
                Some(flag) => record.activated == flag,
                None => true,
            };
            if record.license == filter.license && flag_agrees {
                return Some(i);
            }
            i = i + 1;
        }
        None
    }

    fn take_records(&mut self) -> (records: Vec<License>)
        ensures
            views(records@) == old(self)@,
            final(self)@ == Seq::<LicenseView>::empty(),
    {
        let mut records: Vec<License> = Vec::new();
        assert(views(records@) =~= Seq::<LicenseView>::empty());
        core::mem::swap(&mut self.records, &mut records);
        records
    }

    fn put_records(&mut self, records: Vec<License>)
        requires
            keys_unique(views(records@)),
        ensures
            final(self)@ == views(records@),
    {
        let mut records = records;
        core::mem::swap(&mut self.records, &mut records);
    }

    /// Find-one: a copy of the record with key `license`, if there is one.
    pub fn find_one(&self, license: &String) -> (found: Option<License>)
        ensures
            match found {
                Some(record) => find_one(self@, license@) == Some(record@),
                None => find_one(self@, license@) is None,
            },
            keys_unique(self@),
    {
        proof {
            use_type_invariant(self);
        }
        let filter = UpdateFilter { license: license.clone(), activated: None };
        assert(filter@ == FilterView::by_key(license@));
        match self.position(&filter) {
            Some(i) => {
                let record = self.records[i].clone();
                assert(self@[i as int] == record@);
                Some(record)
            },
            None => None,
        }
    }

    /// Find-many: copies of the records owned by `wallet`, in the order of
    /// the collection.
    pub fn find(&self, wallet: &String) -> (found: Vec<License>)
        ensures
            views(found@) == find_many(self@, wallet@),
            keys_unique(self@),
    {
        proof {
            use_type_invariant(self);
        }
        let ghost owned = |record: LicenseView| record.wallet == wallet@;
        let mut found: Vec<License> = Vec::new();
        let mut i: usize = 0;
        assert(self@.take(0) =~= Seq::<LicenseView>::empty());
        assert(views(found@) =~= self@.take(0).filter(owned)) by {
            reveal(Seq::filter);
        }
        while i < self.records.len()
            invariant
                i <= self.records.len(),
                self@.len() == self.records.len(),
                owned == (|record: LicenseView| record.wallet == wallet@),
                views(found@) == self@.take(i as int).filter(owned),
            decreases self.records.len() - i,
        {
            let record = &self.records[i];
            proof {
                assert(self@[i as int] == record@);
                assert(self@.take(i as int + 1).drop_last() == self@.take(i as int));
                assert(self@.take(i as int + 1).last() == record@);
                reveal(Seq::filter);
            }
            if record.wallet == *wallet {
                let ghost before = found@;
                let copy = record.clone();
                found.push(copy);
                assert(views(found@) =~= views(before).push(record@));
            }
            i = i + 1;
        }
        assert(self@.take(self@.len() as int) == self@);
        found
    }

    /// Insert-one: appends `record`, unless its key is already present. A
    /// key that is present is a fault, and nothing is stored.
    pub fn insert_one(&mut self, record: License) -> (stored: Result<(), StoreFault>)
        ensures
            stored is Err <==> holds_key(old(self)@, record@.license),
            stored is Err ==> final(self)@ == old(self)@,
            stored is Ok ==> final(self)@ == insert_one(old(self)@, record@),
            keys_unique(final(self)@),
    {
        proof {
            use_type_invariant(&*self);
            lemma_find_one(self@, record@.license);
            lemma_insert_one(self@, record@);
        }
        let filter = UpdateFilter { license: record.license.clone(), activated: None };
        assert(filter@ == FilterView::by_key(record@.license));
        match self.position(&filter) {
            Some(_) => Err(StoreFault),
            None => {
                let mut records = self.take_records();
                records.push(record);
                assert(views(records@) =~= insert_one(old(self)@, record@));
                self.put_records(records);
                Ok(())
            },
        }
    }

    /// Delete-one: removes the record with key `license`, if there is one.
    pub fn delete_one(&mut self, license: &String) -> (done: DeleteResult)
        ensures
            final(self)@ == delete_one(old(self)@, license@),
            done == delete_count(old(self)@, license@),
            keys_unique(final(self)@),
    {
        proof {
            use_type_invariant(&*self);
            lemma_delete_one(self@, license@);
        }
        let filter = UpdateFilter { license: license.clone(), activated: None };
        assert(filter@ == FilterView::by_key(license@));
        match self.position(&filter) {
            Some(i) => {
                let mut records = self.take_records();
                records.remove(i);
                assert(views(records@) =~= delete_one(old(self)@, license@));
                self.put_records(records);
                DeleteResult { deleted_count: 1 }
            },
            None => DeleteResult { deleted_count: 0 },
        }
    }

    /// Update-one: writes `request.patch` to the first record that
    /// `request.filter` selects, and reports whether one was selected and
    /// whether the patch changed it.
    pub fn update_one(&mut self, request: &UpdateRequest) -> (done: UpdateResult)
        ensures
            final(self)@ == update_one(old(self)@, request@),
            done == update_count(old(self)@, request@),
            keys_unique(final(self)@),
    {
        proof {
            use_type_invariant(&*self);
            lemma_update_one(self@, request@);
        }
        match self.position(&request.filter) {
            Some(i) => {
                let current = &self.records[i];
                assert(self@[i as int] == current@);
                let activated = match request.patch.activated {
                    Some(flag) => flag,
                    None => current.activated,
                };
                let same_expiration = match current.expiration {
                    Some(expiration) => expiration == request.patch.expiration,
                    None => false,
                };
                let unchanged = activated == current.activated && same_expiration;
                let next = License {
                    license: current.license.clone(),
                    wallet: current.wallet.clone(),
                    activated,
                    expiration: Some(request.patch.expiration),
                };
                assert(next@ == patched(self@[i as int], request@.patch));
                let mut records = self.take_records();
                records[i] = next;
                assert(views(records@) =~= update_one(old(self)@, request@));
                self.put_records(records);
                UpdateResult {
                    matched_count: 1,
                    modified_count: if unchanged {
                        0
                    } else {
                        1
                    },
                }
            },
            None => UpdateResult { matched_count: 0, modified_count: 0 },
        }
    }

    /// Stores a new record. A key that is already taken is refused with
    /// `DatabaseError`; otherwise the record is returned as stored.
    pub fn create_license(&mut self, license: License) -> (created: Result<License, MyError>)
        ensures
            match created {
                Ok(record) => create_outcome(old(self)@, license@) == Ok::<LicenseView, MyError>(
                    record@,
                ),
                Err(e) => create_outcome(old(self)@, license@) == Err::<LicenseView, MyError>(e),
            },
            final(self)@ == create_effect(old(self)@, license@),
            keys_unique(final(self)@),
            all_consistent(old(self)@) && license@.consistent() ==> all_consistent(final(self)@),
    {
        let copy = license.clone();
        let outcome = match self.insert_one(license) {
            Ok(()) => Ok(copy),
            Err(fault) => Err(fault),
        };
        settle_creation(outcome)
    }

    /// Removes the record with key `license`. Succeeds only if exactly one
    /// record was removed; an absent key is `LicenseDoesNotExist`.
    pub fn delete_license(&mut self, license: String) -> (deleted: Result<DeleteResult, MyError>)
        ensures
            deleted == delete_outcome(old(self)@, license@),
            final(self)@ == delete_effect(old(self)@, license@),
            keys_unique(final(self)@),
            all_consistent(old(self)@) ==> all_consistent(final(self)@),
    {
        proof {
            lemma_delete_one(self@, license@);
        }
        let done = self.delete_one(&license);
        settle_removal(Ok(done))
    }

    /// Looks up the record with key `license`; an absent key is
    /// `LicenseNotFound`.
    pub fn get_license(&self, license: String) -> (found: Result<License, MyError>)
        ensures
            match found {
                Ok(record) => get_outcome(self@, license@) == Ok::<LicenseView, MyError>(record@),
                Err(e) => get_outcome(self@, license@) == Err::<LicenseView, MyError>(e),
            },
            keys_unique(self@),
    {
        let found = self.find_one(&license);
        settle_lookup(Ok(found))
    }

    /// Lists the records owned by `wallet`, in the order of the collection.
    /// This always succeeds; an owner without records gets an empty list.
    pub fn get_licenses_by_user(&self, wallet: String) -> (listed: Result<
        Vec<License>,
        StoreFault,
    >)
        ensures
            listed is Ok,
            views(listed->Ok_0@) == list_outcome(self@, wallet@),
            keys_unique(self@),
    {
        Ok(self.find(&wallet))
    }

    /// Activates `license` for `days` days, counted from the instant `now`.
    ///
    /// The record is read, the decision is taken on what was read, and the
    /// update restates in its filter that the record is unactivated.
    pub fn activate_license_at(&mut self, license: String, days: i64, now: i64) -> (activated:
        Result<UpdateResult, MyError>)
        requires
            activate_in_range(old(self)@, license@, days, now),
        ensures
            activated == activate_outcome(old(self)@, license@, days, now),
            final(self)@ == activate_effect(old(self)@, license@, days, now),
            keys_unique(final(self)@),
            all_consistent(old(self)@) ==> all_consistent(final(self)@),
    {
        let ghost before = self@;
        if let Err(e) = check_duration(days) {
            proof {
                use_type_invariant(&*self);
            }
            return Err(e);
        }
        let record = match settle_lookup(Ok(self.find_one(&license))) {
            Ok(record) => record,
            Err(e) => {
                return Err(e);
            },
        };
        let request = match plan_activation(&record, days, now) {
            Ok(request) => request,
            Err(e) => {
                return Err(e);
            },
        };
        proof {
            lemma_find_one(before, license@);
            lemma_narrower_filter(before, request@.filter);
            lemma_first_selected_from(before, FilterView::by_key(license@), 0);
            lemma_update_one(before, request@);
        }
        let done = self.update_one(&request);
        proof {
            assert(self@ =~= activate_effect(before, license@, days, now));
            if all_consistent(before) {
                law_operation_keeps_invariant(
                    before,
                    Operation::Activate { license: license@, days, now },
                );
            }
        }
        settle_activation(Ok(done))
    }

    /// Activates `license` for `days` days, counted from the current time.
    pub fn activate_license(&mut self, license: String, days: i64) -> (activated: Result<
        UpdateResult,
        MyError,
    >)
        requires
            forall|now: i64|
                clock_reading(now) ==> #[trigger] activate_in_range(
                    old(self)@,
                    license@,
                    days,
                    now,
                ),
        ensures
            exists|now: i64|
                clock_reading(now) && activated == #[trigger] activate_outcome(
                    old(self)@,
                    license@,
                    days,
                    now,
                ) && final(self)@ == activate_effect(old(self)@, license@, days, now),
            keys_unique(final(self)@),
            all_consistent(old(self)@) ==> all_consistent(final(self)@),
    {
        let now = current_timestamp();
        self.activate_license_at(license, days, now)
    }

    /// Renews `license` by `days` days at the instant `now`. The new
    /// expiration counts from the previous one, whatever `now` is, and a
    /// renewal is accepted up to the grace deadline, that instant included.
    pub fn renew_license_at(&mut self, license: String, days: i64, now: i64) -> (renewed: Result<
        UpdateResult,
        MyError,
    >)
        requires
            renew_in_range(old(self)@, license@, days, now),
        ensures
            renewed == renew_outcome(old(self)@, license@, days, now),
            final(self)@ == renew_effect(old(self)@, license@, days, now),
            keys_unique(final(self)@),
            all_consistent(old(self)@) ==> all_consistent(final(self)@),
    {
        let ghost before = self@;
        let record = match settle_lookup(Ok(self.find_one(&license))) {
            Ok(record) => record,
            Err(e) => {
                return Err(e);
            },
        };
        let request = match plan_renewal(&record, days, now) {
            Ok(request) => request,
            Err(e) => {
                return Err(e);
            },
        };
        proof {
            lemma_find_one(before, license@);
            lemma_first_selected_from(before, FilterView::by_key(license@), 0);
            lemma_update_one(before, request@);
        }
        let done = self.update_one(&request);
        proof {
            assert(self@ =~= renew_effect(before, license@, days, now));
            assert(days == 0 <==> days_after(record@.expiration->Some_0 as int, days as int)
                == record@.expiration->Some_0);
            if all_consistent(before) {
                law_operation_keeps_invariant(
                    before,
                    Operation::Renew { license: license@, days, now },
                );
            }
        }
        settle_renewal(Ok(done))
    }

    /// Renews `license` by `days` days at the current time.
    pub fn renew_license(&mut self, license: String, days: i64) -> (renewed: Result<
        UpdateResult,
        MyError,
    >)
        requires
            forall|now: i64|
                clock_reading(now) ==> #[trigger] renew_in_range(old(self)@, license@, days, now),
        ensures
            exists|now: i64|
                clock_reading(now) && renewed == #[trigger] renew_outcome(
                    old(self)@,
                    license@,
                    days,
                    now,
                ) && final(self)@ == renew_effect(old(self)@, license@, days, now),
            keys_unique(final(self)@),
            all_consistent(old(self)@) ==> all_consistent(final(self)@),
    {
        let now = current_timestamp();
        self.renew_license_at(license, days, now)
    }
}

} // verus!
