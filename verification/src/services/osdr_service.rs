//! The fetcher of the dataset catalog: a response is taken apart into
//! items, and each item that passes validation is written to the catalog by
//! its identifier, or as a new row where it has none.

use crate::domain::error::FetchError;
use crate::domain::models::{
    document, document_of, CatalogItem, CatalogRow, Cycle, Fetched, Request,
};
use crate::domain::utils::{field, key_views, pick_string, pick_timestamp, s_pick, t_pick};
use crate::domain::validation::{accepts, item_is_accepted};
use crate::json::{elements_of, json_of, member, Json};
use crate::repo::osdr_repo::{
    catalog_wf, find_key, inserted_unkeyed, lemma_insert_unkeyed_keeps_wf,
    lemma_placed_keeps_order, lemma_upsert_keeps_wf, lemma_upsert_touches_one_row, previous_of,
    slot, unkeyed_row, upserted, without_key, written_row, OsdrRepo,
};
use crate::time::Timestamp;
use serde_json::Value;
use vstd::prelude::*;

verus! {

/// The longest that a request of this fetcher may take, in seconds.
pub const OSDR_TIMEOUT_SECS: u64 = 45;

/// The field under which a response may wrap its list of items.
#[derive(Clone, Copy, Debug, PartialEq, Eq, Structural)]
pub enum Wrapper {
    Items,
    Results,
}

/// The shape of a response, settled once before its items are read.
#[derive(Clone, Copy, Debug, PartialEq, Eq, Structural)]
pub enum ListShape {
    /// The response is the list.
    Array,
    /// The response is an object that holds the list under a field.
    WrappedArray(Wrapper),
    /// The response is one item.
    SingleItem,
}

impl Wrapper {
    pub open spec fn spec_field(self) -> Seq<char> {
        match self {
            Wrapper::Items => "items"@,
            Wrapper::Results => "results"@,
        }
    }

    /// The name of the field.
    pub fn field(self) -> (out: &'static str)
        ensures
            out@ == self.spec_field(),
    {
        match self {
            Wrapper::Items => "items",
            Wrapper::Results => "results",
        }
    }
}

/// The candidate keys of the dataset identifier, in probing order.
pub open spec fn id_keys() -> Seq<Seq<char>> {
    seq!["dataset_id"@, "id"@, "uuid"@, "studyId"@, "accession"@, "osdr_id"@]
}

/// The candidate keys of the title.
pub open spec fn title_keys() -> Seq<Seq<char>> {
    seq!["title"@, "name"@, "label"@]
}

/// The candidate keys of the status.
pub open spec fn status_keys() -> Seq<Seq<char>> {
    seq!["status"@, "state"@, "lifecycle"@]
}

/// The candidate keys of the update time.
pub open spec fn updated_keys() -> Seq<Seq<char>> {
    seq!["updated"@, "updated_at"@, "modified"@, "lastUpdated"@, "timestamp"@]
}

/// The list that a document holds under a field, where it is an object with
/// an array there.
pub open spec fn wrapped_list(doc: Json, name: Seq<char>) -> Option<Seq<Json>> {
    match field(doc, name) {
        Some(Json::Array(items)) => Some(items),
        _ => None,
    }
}

/// The shape of a response: a bare array; or else an object with an array
/// under `items`; or else one with an array under `results`; or else a
/// single item.
pub open spec fn list_shape(doc: Json) -> ListShape {
    if doc is Array {
        ListShape::Array
    } else if wrapped_list(doc, "items"@) is Some {
        ListShape::WrappedArray(Wrapper::Items)
    } else if wrapped_list(doc, "results"@) is Some {
        ListShape::WrappedArray(Wrapper::Results)
    } else {
        ListShape::SingleItem
    }
}

/// The items of a response, whatever its shape.
pub open spec fn items_of(doc: Json) -> Seq<Json> {
    match list_shape(doc) {
        ListShape::Array => doc->Array_0,
        ListShape::WrappedArray(w) => wrapped_list(doc, w.spec_field()).unwrap(),
        ListShape::SingleItem => seq![doc],
    }
}

/// The identifier under which an item is written: the first non-empty
/// string under the identifier keys.
pub open spec fn item_key(item: Json) -> Option<Seq<char>> {
    match pick_string(item, id_keys()) {
        Some(id) => if id.len() > 0 {
            Some(id)
        } else {
            None
        },
        None => None,
    }
}

/// The catalog after one item was taken in. An item that fails validation
/// leaves it as it was. Any other is written with the title, status and
/// update time that the field extractor finds and with itself as the raw
/// document: by upsert under its identifier, or as a new row where it has
/// none.
pub open spec fn ingest_item(rows: Seq<CatalogRow>, item: Json, now: int) -> Seq<CatalogRow> {
    if !item_is_accepted(item) {
        rows
    } else {
        let title = pick_string(item, title_keys());
        let status = pick_string(item, status_keys());
        let updated_at = pick_timestamp(item, updated_keys());
        match item_key(item) {
            Some(id) => upserted(rows, id, title, status, updated_at, item, now),
            None => inserted_unkeyed(rows, title, status, updated_at, item, now),
        }
    }
}

/// The catalog after the items were taken in, one after the other.
pub open spec fn ingest_all(rows: Seq<CatalogRow>, items: Seq<Json>, now: int) -> Seq<CatalogRow>
    decreases items.len(),
{
    if items.len() == 0 {
        rows
    } else {
        ingest_item(ingest_all(rows, items.drop_last(), now), items.last(), now)
    }
}

/// The number of items that pass validation: each of them is one write.
pub open spec fn accepted_count(items: Seq<Json>) -> int
    decreases items.len(),
{
    if items.len() == 0 {
        0
    } else {
        accepted_count(items.drop_last()) + if item_is_accepted(items.last()) {
            1int
        } else {
            0int
        }
    }
}

/// The catalog after a response was taken in.
pub open spec fn ingested(rows: Seq<CatalogRow>, doc: Json, now: int) -> Seq<CatalogRow> {
    ingest_all(rows, items_of(doc), now)
}

/// The catalog after a cycle: the response taken in where there is one, and
/// the catalog as it was in every other case.
pub open spec fn catalog_after(rows: Seq<CatalogRow>, fetched: Fetched, now: int) -> Seq<
    CatalogRow,
> {
    match document_of(fetched) {
        Ok(Some(doc)) => ingested(rows, doc, now),
        _ => rows,
    }
}

/// How a cycle of this fetcher ends.
pub open spec fn catalog_cycle(fetched: Fetched) -> Result<Cycle, FetchError> {
    match document_of(fetched) {
        Ok(Some(doc)) => Ok(Cycle::Stored { written: accepted_count(items_of(doc)) as usize }),
        Ok(None) => Ok(Cycle::Skipped),
        Err(e) => Err(e),
    }
}

/// The row that taking an item in writes; none for an item that fails
/// validation.
pub open spec fn row_written(rows: Seq<CatalogRow>, item: Json, now: int) -> Option<CatalogRow> {
    if !item_is_accepted(item) {
        None
    } else {
        let title = pick_string(item, title_keys());
        let status = pick_string(item, status_keys());
        let updated_at = pick_timestamp(item, updated_keys());
        match item_key(item) {
            Some(id) => Some(
                written_row(previous_of(rows, id), id, title, status, updated_at, item, now),
            ),
            None => Some(unkeyed_row(title, status, updated_at, item, now)),
        }
    }
}

/// The rows that taking the items in writes, one for each item that passes
/// validation, in the order of the items. Where two items have the same
/// identifier, both of their rows are here, the later one as the catalog
/// keeps it.
pub open spec fn rows_written(rows: Seq<CatalogRow>, items: Seq<Json>, now: int) -> Seq<CatalogRow>
    decreases items.len(),
{
    if items.len() == 0 {
        Seq::empty()
    } else {
        let earlier = rows_written(rows, items.drop_last(), now);
        match row_written(ingest_all(rows, items.drop_last(), now), items.last(), now) {
            Some(row) => earlier.push(row),
            None => earlier,
        }
    }
}

/// The rows that a cycle writes: those of the response where there is one,
/// and none in every other case.
pub open spec fn cycle_writes(rows: Seq<CatalogRow>, fetched: Fetched, now: int) -> Seq<
    CatalogRow,
> {
    match document_of(fetched) {
        Ok(Some(doc)) => rows_written(rows, items_of(doc), now),
        _ => Seq::empty(),
    }
}

/// Taking an item in keeps the catalog well formed.
pub proof fn lemma_ingest_item_keeps_wf(rows: Seq<CatalogRow>, item: Json, now: int)
    requires
        catalog_wf(rows),
    ensures
        catalog_wf(ingest_item(rows, item, now)),
        rows.len() <= ingest_item(rows, item, now).len() <= rows.len() + 1,
        !item_is_accepted(item) ==> ingest_item(rows, item, now) == rows,
{
    if item_is_accepted(item) {
        let title = pick_string(item, title_keys());
        let status = pick_string(item, status_keys());
        let updated_at = pick_timestamp(item, updated_keys());
        match item_key(item) {
            Some(id) => {
                lemma_upsert_keeps_wf(rows, id, title, status, updated_at, item, now);
                lemma_upsert_touches_one_row(rows, id, title, status, updated_at, item, now);
            },
            None => lemma_insert_unkeyed_keeps_wf(rows, title, status, updated_at, item, now),
        }
    }
}

/// Taking any list of items in keeps the catalog well formed, and adds at
/// most one row for each item that passes validation. As many rows are
/// written as items pass.
pub proof fn lemma_ingest_all_keeps_wf(rows: Seq<CatalogRow>, items: Seq<Json>, now: int)
    requires
        catalog_wf(rows),
    ensures
        catalog_wf(ingest_all(rows, items, now)),
        rows.len() <= ingest_all(rows, items, now).len() <= rows.len() + accepted_count(items),
        0 <= accepted_count(items) <= items.len(),
        rows_written(rows, items, now).len() == accepted_count(items),
    decreases items.len(),
{
    if items.len() > 0 {
        lemma_ingest_all_keeps_wf(rows, items.drop_last(), now);
        let before = ingest_all(rows, items.drop_last(), now);
        lemma_ingest_item_keeps_wf(before, items.last(), now);
    }
}

/// Taking in an item whose identifier the catalog knows updates that row
/// and nothing else: no row is added, exactly one row has the identifier,
/// it holds the item's fields and the time at which the row was first seen,
/// and every other row is as it was.
pub proof fn lemma_known_item_updates_its_row(rows: Seq<CatalogRow>, item: Json, now: int)
    requires
        catalog_wf(rows),
        item_is_accepted(item),
        item_key(item) is Some,
        find_key(rows, item_key(item).unwrap()) is Some,
    ensures
        ({
            let id = item_key(item).unwrap();
            let p = find_key(rows, id).unwrap();
            let after = ingest_item(rows, item, now);
            let k = slot(without_key(rows, id), now);
            &&& after.len() == rows.len()
            &&& catalog_wf(after)
            &&& find_key(after, id) == Some(k)
            &&& 0 <= k < after.len()
            &&& after[k].dataset_id == Some(id)
            &&& after[k].title == pick_string(item, title_keys())
            &&& after[k].status == pick_string(item, status_keys())
            &&& after[k].updated_at == pick_timestamp(item, updated_keys())
            &&& after[k].raw == item
            &&& after[k].first_seen_at == rows[p].first_seen_at
            &&& after[k].last_touched_at == now
            &&& forall|i: int|
                0 <= i < after.len() && i != k ==> (#[trigger] after[i]).dataset_id != Some(id)
            &&& after.remove(k) == rows.remove(p)
        }),
{
    let id = item_key(item).unwrap();
    let title = pick_string(item, title_keys());
    let status = pick_string(item, status_keys());
    let updated_at = pick_timestamp(item, updated_keys());
    lemma_upsert_keeps_wf(rows, id, title, status, updated_at, item, now);
    lemma_upsert_touches_one_row(rows, id, title, status, updated_at, item, now);
}

/// Taking in an item with a new identifier adds one row, first seen now,
/// and leaves every row that was there as it was.
pub proof fn lemma_new_item_adds_a_row(rows: Seq<CatalogRow>, item: Json, now: int)
    requires
        catalog_wf(rows),
        item_is_accepted(item),
        item_key(item) is Some,
        find_key(rows, item_key(item).unwrap()) is None,
    ensures
        ({
            let after = ingest_item(rows, item, now);
            let k = slot(rows, now);
            &&& after.len() == rows.len() + 1
            &&& catalog_wf(after)
            &&& 0 <= k < after.len()
            &&& after.remove(k) == rows
            &&& after[k].dataset_id == item_key(item)
            &&& after[k].first_seen_at == now
            &&& after[k].last_touched_at == now
            &&& after[k].raw == item
        }),
{
    let id = item_key(item).unwrap();
    let title = pick_string(item, title_keys());
    let status = pick_string(item, status_keys());
    let updated_at = pick_timestamp(item, updated_keys());
    lemma_upsert_keeps_wf(rows, id, title, status, updated_at, item, now);
    lemma_upsert_touches_one_row(rows, id, title, status, updated_at, item, now);
}

/// The fetcher of the dataset catalog.
pub struct OsdrService {
    pub repo: OsdrRepo,
    pub nasa_url: String,
    /// Copies of the rows that the last cycle wrote, in the order in which
    /// it wrote them, for whoever keeps a copy of the catalog elsewhere.
    pub written: Vec<CatalogItem>,
}

impl OsdrService {
    pub open spec fn wf(&self) -> bool {
        self.repo.wf()
    }

    /// The rows that the last cycle wrote.
    pub open spec fn written_view(&self) -> Seq<CatalogRow> {
        Seq::new(self.written@.len(), |i: int| self.written@[i]@)
    }

    pub fn new(repo: OsdrRepo, nasa_url: String) -> (out: OsdrService)
        ensures
            out.repo == repo,
            out.nasa_url == nasa_url,
            out.written_view() == Seq::<CatalogRow>::empty(),
    {
        let out = OsdrService { repo, nasa_url, written: Vec::new() };
        assert(out.written_view() =~= Seq::<CatalogRow>::empty());
        out
    }

    /// The request of one cycle.
    pub fn request(&self) -> (out: Request)
        ensures
            out.url@ == self.nasa_url@,
            out.query@.len() == 0,
            out.timeout_secs == OSDR_TIMEOUT_SECS,
    {
        Request { url: self.nasa_url.clone(), query: Vec::new(), timeout_secs: OSDR_TIMEOUT_SECS }
    }

    /// Takes one item in, and says whether it was written. A copy of the
    /// row written is added to the rows that the cycle wrote.
    pub fn ingest_one(&mut self, item: &Value, now: Timestamp) -> (out: bool)
        requires
            old(self).wf(),
        ensures
            final(self).wf(),
            out == item_is_accepted(json_of(*item)),
            final(self).repo@ == ingest_item(old(self).repo@, json_of(*item), now@),
            final(self).written_view() == match row_written(
                old(self).repo@,
                json_of(*item),
                now@,
            ) {
                Some(row) => old(self).written_view().push(row),
                None => old(self).written_view(),
            },
            final(self).nasa_url == old(self).nasa_url,
    {
        if !accepts(item) {
            return false;
        }
        let id_names: [&str; 6] = ["dataset_id", "id", "uuid", "studyId", "accession", "osdr_id"];
        let title_names: [&str; 3] = ["title", "name", "label"];
        let status_names: [&str; 3] = ["status", "state", "lifecycle"];
        let updated_names: [&str; 5] = [
            "updated",
            "updated_at",
            "modified",
            "lastUpdated",
            "timestamp",
        ];
        proof {
            assert(key_views(id_names@) =~= id_keys());
            assert(key_views(title_names@) =~= title_keys());
            assert(key_views(status_names@) =~= status_keys());
            assert(key_views(updated_names@) =~= updated_keys());
        }
        let dataset_id = s_pick(item, id_names.as_slice());
        let title = s_pick(item, title_names.as_slice());
        let status = s_pick(item, status_names.as_slice());
        let updated_at = t_pick(item, updated_names.as_slice());
        let title_ref: Option<&str> = match &title {
            Some(s) => Some(s.as_str()),
            None => None,
        };
        let status_ref: Option<&str> = match &status {
            Some(s) => Some(s.as_str()),
            None => None,
        };
        let keyed = match &dataset_id {
            Some(id) => !id.as_str().is_empty(),
            None => false,
        };
        let ghost before = self.repo@;
        let ghost outbox = self.written_view();
        let ghost title_view = pick_string(json_of(*item), title_keys());
        let ghost status_view = pick_string(json_of(*item), status_keys());
        let ghost updated_view = pick_timestamp(json_of(*item), updated_keys());
        let k = if keyed {
            let id = dataset_id.unwrap();
            proof {
                lemma_upsert_touches_one_row(
                    before,
                    id@,
                    title_view,
                    status_view,
                    updated_view,
                    json_of(*item),
                    now@,
                );
            }
            self.repo.upsert(id.as_str(), title_ref, status_ref, updated_at, item, now)
        } else {
            proof {
                lemma_placed_keeps_order(
                    before,
                    unkeyed_row(title_view, status_view, updated_view, json_of(*item), now@),
                );
            }
            self.repo.insert_unkeyed(title_ref, status_ref, updated_at, item, now)
        };
        match self.repo.row(k) {
            Some(row) => {
                let copy = row.duplicate();
                self.written.push(copy);
                assert(self.written_view() =~= outbox.push(copy@));
            },
            None => {},
        }
        true
    }

    /// Takes the items of a list in, one after the other, and returns how
    /// many were written.
    pub fn ingest_list(&mut self, items: &Vec<Value>, now: Timestamp) -> (out: usize)
        requires
            old(self).wf(),
        ensures
            final(self).wf(),
            out == accepted_count(Seq::new(items@.len(), |i: int| json_of(items@[i]))),
            final(self).repo@ == ingest_all(
                old(self).repo@,
                Seq::new(items@.len(), |i: int| json_of(items@[i])),
                now@,
            ),
            final(self).written_view() == old(self).written_view() + rows_written(
                old(self).repo@,
                Seq::new(items@.len(), |i: int| json_of(items@[i])),
                now@,
            ),
            final(self).nasa_url == old(self).nasa_url,
    {
        let ghost all = Seq::new(items@.len(), |i: int| json_of(items@[i]));
        let ghost start = self.repo@;
        let ghost outbox = self.written_view();
        let mut written: usize = 0;
        let mut i: usize = 0;
        assert(self.written_view() =~= outbox + rows_written(start, all.take(0), now@));
        while i < items.len()
            invariant
                i <= items@.len(),
                self.wf(),
                all == Seq::new(items@.len(), |i: int| json_of(items@[i])),
                written == accepted_count(all.take(i as int)),
                written <= i,
                self.repo@ == ingest_all(start, all.take(i as int), now@),
                self.written_view() == outbox + rows_written(start, all.take(i as int), now@),
                self.nasa_url == old(self).nasa_url,
            decreases items@.len() - i,
        {
            let ghost sofar = rows_written(start, all.take(i as int), now@);
            let took = self.ingest_one(&items[i], now);
            proof {
                let next = all.take(i + 1);
                assert(next.drop_last() =~= all.take(i as int));
                assert(next.last() == json_of(items@[i as int]));
                match row_written(ingest_all(start, all.take(i as int), now@), next.last(), now@) {
                    Some(row) => {
                        assert((outbox + sofar).push(row) =~= outbox + sofar.push(row));
                    },
                    None => {},
                }
            }
            if took {
                written += 1;
            }
            i += 1;
        }
        proof {
            assert(all.take(i as int) =~= all);
        }
        written
    }

    /// The shape of a response.
    pub fn resolve(doc: &Value) -> (out: ListShape)
        ensures
            out == list_shape(json_of(*doc)),
    {
        if elements_of(doc).is_some() {
            return ListShape::Array;
        }
        let items = match member(doc, "items") {
            Some(x) => elements_of(x).is_some(),
            None => false,
        };
        if items {
            return ListShape::WrappedArray(Wrapper::Items);
        }
        let results = match member(doc, "results") {
            Some(x) => elements_of(x).is_some(),
            None => false,
        };
        if results {
            ListShape::WrappedArray(Wrapper::Results)
        } else {
            ListShape::SingleItem
        }
    }

    /// Takes a response in: its items, whatever its shape, one after the
    /// other. Returns how many were written, and keeps copies of the rows
    /// written in place of those of the cycle before.
    pub fn ingest(&mut self, doc: &Value, now: Timestamp) -> (out: usize)
        requires
            old(self).wf(),
        ensures
            final(self).wf(),
            out == accepted_count(items_of(json_of(*doc))),
            final(self).repo@ == ingested(old(self).repo@, json_of(*doc), now@),
            final(self).written_view() == rows_written(
                old(self).repo@,
                items_of(json_of(*doc)),
                now@,
            ),
            final(self).nasa_url == old(self).nasa_url,
    {
        let ghost all = items_of(json_of(*doc));
        let ghost start = self.repo@;
        self.written = Vec::new();
        assert(self.written_view() =~= Seq::<CatalogRow>::empty());
        let out = match OsdrService::resolve(doc) {
            ListShape::Array => match elements_of(doc) {
                Some(items) => {
                    assert(Seq::new(items@.len(), |i: int| json_of(items@[i])) =~= all);
                    self.ingest_list(items, now)
                },
                None => 0,
            },
            ListShape::WrappedArray(w) => match member(doc, w.field()) {
                Some(x) => match elements_of(x) {
                    Some(items) => {
                        assert(Seq::new(items@.len(), |i: int| json_of(items@[i])) =~= all);
                        self.ingest_list(items, now)
                    },
                    None => 0,
                },
                None => 0,
            },
            ListShape::SingleItem => {
                proof {
                    assert(all.drop_last() =~= Seq::<Json>::empty());
                    assert(all.last() == json_of(*doc));
                    assert(accepted_count(all.drop_last()) == 0);
                    assert(ingest_all(start, all.drop_last(), now@) == start);
                    assert(rows_written(start, all.drop_last(), now@) =~= Seq::<
                        CatalogRow,
                    >::empty());
                }
                if self.ingest_one(doc, now) {
                    1
                } else {
                    0
                }
            },
        };
        assert(self.written_view() =~= rows_written(start, all, now@));
        out
    }

    /// One cycle, given what was fetched. A success has its body read as
    /// JSON and its items taken in. A permission failure is passed over, and
    /// any other outcome fails the cycle; both leave the catalog as it was.
    /// Copies of the rows that the cycle wrote are kept, none where it wrote
    /// nothing.
    pub fn fetch_and_store_osdr(&mut self, fetched: &Fetched, now: Timestamp) -> (out: Result<
        Cycle,
        FetchError,
    >)
        requires
            old(self).wf(),
        ensures
            final(self).wf(),
            out == catalog_cycle(*fetched),
            final(self).repo@ == catalog_after(old(self).repo@, *fetched, now@),
            final(self).written_view() == cycle_writes(old(self).repo@, *fetched, now@),
            final(self).nasa_url == old(self).nasa_url,
    {
        match document(fetched) {
            Ok(Some(doc)) => {
                let written = self.ingest(&doc, now);
                Ok(Cycle::Stored { written })
            },
            Ok(None) => {
                self.written = Vec::new();
                assert(self.written_view() =~= Seq::<CatalogRow>::empty());
                Ok(Cycle::Skipped)
            },
            Err(e) => {
                self.written = Vec::new();
                assert(self.written_view() =~= Seq::<CatalogRow>::empty());
                Err(e)
            },
        }
    }
}

} // verus!
