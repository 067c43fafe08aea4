//! What the lifecycle asks of a record store, as plain values, and the
//! mathematical model of a collection of records on which every request is
//! given its meaning.

use crate::models::license::LicenseView;
use vstd::prelude::*;

verus! {

/// A failure of the store itself, whatever its cause.
#[derive(Debug, Clone, Copy, PartialEq, Eq, Structural)]
pub struct StoreFault;

/// What an update reports: how many records the filter matched and how many
/// of them the patch changed.
#[derive(Debug, Clone, Copy, PartialEq, Eq, Structural)]
pub struct UpdateResult {
    pub matched_count: u64,
    pub modified_count: u64,
}

/// What a removal reports: how many records were removed.
#[derive(Debug, Clone, Copy, PartialEq, Eq, Structural)]
pub struct DeleteResult {
    pub deleted_count: u64,
}

/// Selects the record an update applies to: the one with the given key and,
/// where `activated` is set, with that activation flag.
#[derive(Debug, PartialEq, Eq)]
pub struct UpdateFilter {
    pub license: String,
    pub activated: Option<bool>,
}

/// The fields an update writes: always the expiration, and the activation
/// flag where `activated` is set.
#[derive(Debug, Clone, Copy, PartialEq, Eq, Structural)]
pub struct UpdatePatch {
    pub expiration: i64,
    pub activated: Option<bool>,
}

/// One conditional update: the patch is applied to at most one record that
/// the filter selects.
#[derive(Debug, PartialEq, Eq)]
pub struct UpdateRequest {
    pub filter: UpdateFilter,
    pub patch: UpdatePatch,
}

/// The mathematical value of an [`UpdateFilter`].
pub struct FilterView {
    pub license: Seq<char>,
    pub activated: Option<bool>,
}

/// The mathematical value of an [`UpdateRequest`].
pub struct RequestView {
    pub filter: FilterView,
    pub patch: UpdatePatch,
}

impl View for UpdateFilter {
    type V = FilterView;

    open spec fn view(&self) -> FilterView {
        FilterView { license: self.license@, activated: self.activated }
    }
}

impl View for UpdateRequest {
    type V = RequestView;

    open spec fn view(&self) -> RequestView {
        RequestView { filter: self.filter@, patch: self.patch }
    }
}

impl FilterView {
    /// Whether the filter selects `record`.
    pub open spec fn selects(self, record: LicenseView) -> bool {
        &&& record.license == self.license
        &&& (self.activated is Some ==> record.activated == self.activated->Some_0)
    }

    /// The filter that selects by key alone.
    pub open spec fn by_key(license: Seq<char>) -> FilterView {
        FilterView { license, activated: None }
    }
}

/// `record` after `patch` has been written to it.
pub open spec fn patched(record: LicenseView, patch: UpdatePatch) -> LicenseView {
    LicenseView {
        license: record.license,
        wallet: record.wallet,
        activated: if patch.activated is Some {
            patch.activated->Some_0
        } else {
            record.activated
        },
        expiration: Some(patch.expiration),
    }
}

/// The position of the first record at or after `start` that `filter`
/// selects, if there is one.
pub open spec fn first_selected_from(
    records: Seq<LicenseView>,
    filter: FilterView,
    start: int,
) -> Option<int>
    decreases records.len() - start,
{
    if start < 0 || start >= records.len() {
        None
    } else if filter.selects(records[start]) {
        Some(start)
    } else {
        first_selected_from(records, filter, start + 1)
    }
}

/// The position of the first record that `filter` selects, if there is one.
pub open spec fn first_selected(records: Seq<LicenseView>, filter: FilterView) -> Option<int> {
    first_selected_from(records, filter, 0)
}

/// Whether some record carries `license` as its key.
pub open spec fn holds_key(records: Seq<LicenseView>, license: Seq<char>) -> bool {
    exists|i: int| 0 <= i < records.len() && (#[trigger] records[i]).license == license
}

/// No key occurs in two records.
pub open spec fn keys_unique(records: Seq<LicenseView>) -> bool {
    forall|i: int, j: int|
        0 <= i < records.len() && 0 <= j < records.len() && (#[trigger] records[i]).license == (
        #[trigger] records[j]).license ==> i == j
}

/// Every record meets the record invariant.
pub open spec fn all_consistent(records: Seq<LicenseView>) -> bool {
    forall|i: int| 0 <= i < records.len() ==> (#[trigger] records[i]).consistent()
}

/// Find-one: the first record with key `license`.
pub open spec fn find_one(records: Seq<LicenseView>, license: Seq<char>) -> Option<LicenseView> {
    match first_selected(records, FilterView::by_key(license)) {
        Some(i) => Some(records[i]),
        None => None,
    }
}

/// Find-many: the records owned by `wallet`, in the order of the collection.
pub open spec fn find_many(records: Seq<LicenseView>, wallet: Seq<char>) -> Seq<LicenseView> {
    records.filter(|record: LicenseView| record.wallet == wallet)
}

/// Insert-one: the collection with `record` appended.
pub open spec fn insert_one(records: Seq<LicenseView>, record: LicenseView) -> Seq<LicenseView> {
    records.push(record)
}

/// Delete-one: the collection without the first record with key `license`.
pub open spec fn delete_one(records: Seq<LicenseView>, license: Seq<char>) -> Seq<LicenseView> {
    match first_selected(records, FilterView::by_key(license)) {
        Some(i) => records.remove(i),
        None => records,
    }
}

/// How many records delete-one removes: one if the key is present, else
/// none.
pub open spec fn delete_count(records: Seq<LicenseView>, license: Seq<char>) -> DeleteResult {
    match first_selected(records, FilterView::by_key(license)) {
        Some(_) => DeleteResult { deleted_count: 1 },
        None => DeleteResult { deleted_count: 0 },
    }
}

/// Update-one: the collection after `request.patch` has been written to the
/// first record that `request.filter` selects.
pub open spec fn update_one(records: Seq<LicenseView>, request: RequestView) -> Seq<LicenseView> {
    match first_selected(records, request.filter) {
        Some(i) => records.update(i, patched(records[i], request.patch)),
        None => records,
    }
}

/// What update-one reports. A record that the filter selects counts as
/// matched; it counts as modified only if the patch changes it.
pub open spec fn update_count(records: Seq<LicenseView>, request: RequestView) -> UpdateResult {
    match first_selected(records, request.filter) {
        Some(i) => UpdateResult {
            matched_count: 1,
            modified_count: if patched(records[i], request.patch) == records[i] {
                0
            } else {
                1
            },
        },
        None => UpdateResult { matched_count: 0, modified_count: 0 },
    }
}

/// What `first_selected_from` returns is a position at or after `start`
/// whose record the filter selects, and no record between `start` and it is
/// selected; where it returns nothing, no record from `start` on is
/// selected.
pub proof fn lemma_first_selected_from(records: Seq<LicenseView>, filter: FilterView, start: int)
    requires
        0 <= start,
    ensures
        match first_selected_from(records, filter, start) {
            Some(i) => {
                &&& start <= i < records.len()
                &&& filter.selects(records[i])
                &&& forall|j: int| start <= j < i ==> !filter.selects(#[trigger] records[j])
            },
            None => forall|j: int|
                start <= j < records.len() ==> !filter.selects(#[trigger] records[j]),
        },
    decreases records.len() - start,
{
    if start < records.len() && !filter.selects(records[start]) {
        lemma_first_selected_from(records, filter, start + 1);
    }
}

/// A key is found exactly when some record carries it, and the record
/// found carries it.
pub proof fn lemma_find_one(records: Seq<LicenseView>, license: Seq<char>)
    ensures
        find_one(records, license) is Some <==> holds_key(records, license),
        find_one(records, license) is Some ==> find_one(records, license)->Some_0.license
            == license && records.contains(find_one(records, license)->Some_0),
{
    lemma_first_selected_from(records, FilterView::by_key(license), 0);
    if holds_key(records, license) {
        let i = choose|i: int| 0 <= i < records.len() && (#[trigger] records[i]).license == license;
        assert(FilterView::by_key(license).selects(records[i]));
    }
    match first_selected(records, FilterView::by_key(license)) {
        Some(i) => {
            assert(records[i].license == license);
        },
        None => {},
    }
}

/// Where keys are unique, a lookup finds any record of the collection by
/// its key.
pub proof fn lemma_find_one_unique(records: Seq<LicenseView>, record: LicenseView)
    requires
        keys_unique(records),
        records.contains(record),
    ensures
        find_one(records, record.license) == Some(record),
{
    lemma_first_selected_from(records, FilterView::by_key(record.license), 0);
    let at = choose|i: int| 0 <= i < records.len() && records[i] == record;
    assert(FilterView::by_key(record.license).selects(records[at]));
    let i = first_selected(records, FilterView::by_key(record.license))->Some_0;
    assert(records[i].license == records[at].license);
}

/// A filter that asks for the same key as a lookup, and selects the record
/// that the lookup finds, selects that record first.
pub proof fn lemma_narrower_filter(records: Seq<LicenseView>, filter: FilterView)
    requires
        find_one(records, filter.license) is Some,
        filter.selects(find_one(records, filter.license)->Some_0),
    ensures
        first_selected(records, filter) == first_selected(
            records,
            FilterView::by_key(filter.license),
        ),
{
    lemma_first_selected_from(records, filter, 0);
    lemma_first_selected_from(records, FilterView::by_key(filter.license), 0);
    let i = first_selected(records, FilterView::by_key(filter.license))->Some_0;
    assert(filter.selects(records[i]));
    let j = first_selected(records, filter)->Some_0;
    assert(FilterView::by_key(filter.license).selects(records[j]));
}

/// An update leaves the length of the collection and the key and owner of
/// every record as they were, and changes at most the record it selects.
pub proof fn lemma_update_one(records: Seq<LicenseView>, request: RequestView)
    ensures
        update_one(records, request).len() == records.len(),
        forall|i: int|
            0 <= i < records.len() ==> (#[trigger] update_one(records, request)[i]).license
                == records[i].license && update_one(records, request)[i].wallet
                == records[i].wallet,
        forall|i: int|
            0 <= i < records.len() && first_selected(records, request.filter) != Some(i)
                ==> #[trigger] update_one(records, request)[i] == records[i],
        keys_unique(records) ==> keys_unique(update_one(records, request)),
{
    lemma_first_selected_from(records, request.filter, 0);
    let after = update_one(records, request);
    if keys_unique(records) {
        assert forall|i: int, j: int|
            0 <= i < after.len() && 0 <= j < after.len() && (#[trigger] after[i]).license == (
            #[trigger] after[j]).license implies i == j by {
            assert(records[i].license == records[j].license);
        }
    }
}

/// Appending a record whose key is not present keeps the keys unique,
/// and appending a consistent record keeps the records consistent.
pub proof fn lemma_insert_one(records: Seq<LicenseView>, record: LicenseView)
    ensures
        keys_unique(records) && !holds_key(records, record.license) ==> keys_unique(
            insert_one(records, record),
        ),
        all_consistent(records) && record.consistent() ==> all_consistent(
            insert_one(records, record),
        ),
{
    let after = insert_one(records, record);
    if keys_unique(records) && !holds_key(records, record.license) {
        assert forall|i: int, j: int|
            0 <= i < after.len() && 0 <= j < after.len() && (#[trigger] after[i]).license == (
            #[trigger] after[j]).license implies i == j by {
            if i < records.len() {
                assert(records[i] == after[i]);
            }
            if j < records.len() {
                assert(records[j] == after[j]);
            }
        }
    }
}

/// After an insertion every key that was present leads to the record it
/// led to before, and the new key leads to the new record.
pub proof fn lemma_find_one_after_insert(
    records: Seq<LicenseView>,
    record: LicenseView,
    license: Seq<char>,
)
    ensures
        find_one(insert_one(records, record), license) == if find_one(records, license) is Some {
            find_one(records, license)
        } else if record.license == license {
            Some(record)
        } else {
            None
        },
{
    let after = insert_one(records, record);
    let filter = FilterView::by_key(license);
    lemma_first_selected_from(records, filter, 0);
    lemma_first_selected_from(after, filter, 0);
    match first_selected(records, filter) {
        Some(i) => {
            assert(after[i] == records[i]);
            let j = first_selected(after, filter)->Some_0;
            if j < i {
                assert(after[j] == records[j]);
            }
        },
        None => {
            if first_selected(after, filter) is Some {
                let j = first_selected(after, filter)->Some_0;
                if j < records.len() {
                    assert(after[j] == records[j]);
                }
            } else {
                assert(after[records.len() as int] == record);
            }
        },
    }
}

/// Where keys are unique, a removal leaves the lookup of every other key as
/// it was.
pub proof fn lemma_find_one_after_delete(
    records: Seq<LicenseView>,
    license: Seq<char>,
    other: Seq<char>,
)
    requires
        keys_unique(records),
        other != license,
    ensures
        find_one(delete_one(records, license), other) == find_one(records, other),
{
    let after = delete_one(records, license);
    lemma_delete_one(records, license);
    lemma_find_one(records, other);
    lemma_find_one(after, other);
    lemma_first_selected_from(records, FilterView::by_key(license), 0);
    if find_one(records, other) is Some {
        let kept = find_one(records, other)->Some_0;
        let at = choose|k: int| 0 <= k < records.len() && records[k] == kept;
        match first_selected(records, FilterView::by_key(license)) {
            Some(i) => {
                let moved = if at < i { at } else { at - 1 };
                assert(after[moved] == kept);
            },
            None => {},
        }
        lemma_find_one_unique(after, kept);
    } else if find_one(after, other) is Some {
        assert(records.contains(find_one(after, other)->Some_0));
        let k = choose|k: int|
            0 <= k < records.len() && records[k] == find_one(after, other)->Some_0;
        assert(records[k].license == other);
    }
}

/// A removal takes out one record if the key is present and none
/// otherwise; the records that stay keep their order. Where keys are
/// unique, the key is gone afterwards.
pub proof fn lemma_delete_one(records: Seq<LicenseView>, license: Seq<char>)
    ensures
        holds_key(records, license) ==> delete_one(records, license).len() + 1 == records.len()
            && delete_count(records, license).deleted_count == 1,
        !holds_key(records, license) ==> delete_one(records, license) == records
            && delete_count(records, license).deleted_count == 0,
        forall|record: LicenseView| #[trigger]
            delete_one(records, license).contains(record) ==> records.contains(record),
        keys_unique(records) ==> keys_unique(delete_one(records, license)) && !holds_key(
            delete_one(records, license),
            license,
        ),
        all_consistent(records) ==> all_consistent(delete_one(records, license)),
{
    lemma_find_one(records, license);
    lemma_first_selected_from(records, FilterView::by_key(license), 0);
    let after = delete_one(records, license);
    match first_selected(records, FilterView::by_key(license)) {
        Some(i) => {
            assert forall|k: int| 0 <= k < after.len() implies #[trigger] after[k] == records[if k
                < i {
                k
            } else {
                k + 1
            }] by {}
            assert forall|record: LicenseView| #[trigger]
                after.contains(record) implies records.contains(record) by {
                let k = choose|k: int| 0 <= k < after.len() && after[k] == record;
                assert(records[if k < i {
                    k
                } else {
                    k + 1
                }] == record);
            }
            if keys_unique(records) {
                assert forall|a: int, b: int|
                    0 <= a < after.len() && 0 <= b < after.len() && (#[trigger] after[a]).license
                        == (#[trigger] after[b]).license implies a == b by {
                    let a0 = if a < i { a } else { a + 1 };
                    let b0 = if b < i { b } else { b + 1 };
                    assert(records[a0].license == records[b0].license);
                }
                if holds_key(after, license) {
                    let k = choose|k: int|
                        0 <= k < after.len() && (#[trigger] after[k]).license == license;
                    let k0 = if k < i { k } else { k + 1 };
                    assert(records[k0].license == records[i].license);
                }
            }
            if all_consistent(records) {
                assert forall|k: int| 0 <= k < after.len() implies (#[trigger] after[k]).consistent() by {
                    assert(records[if k < i { k } else { k + 1 }].consistent());
                }
            }
        },
        None => {},
    }
}

} // verus!
