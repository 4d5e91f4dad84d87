//! The dataset catalog: items keyed by their dataset identifier, kept by
//! insert-or-update, in the order of the times at which they were last
//! touched.

use crate::domain::error::FetchError;
use crate::domain::models::{owned_text, CatalogItem, CatalogRow};
use crate::json::{duplicate, json_of, Json};
use crate::time::Timestamp;
use serde_json::Value;
use vstd::prelude::*;

verus! {

/// No two rows share a dataset identifier. Rows without one are never
/// merged, so any number of them may stand side by side.
pub open spec fn unique_keys(rows: Seq<CatalogRow>) -> bool {
    forall|i: int, j: int|
        0 <= i < j < rows.len() && (#[trigger] rows[i]).dataset_id is Some ==> rows[i].dataset_id
            != (#[trigger] rows[j]).dataset_id
}

/// The position of the row with a given dataset identifier, if there is one.
pub open spec fn find_key(rows: Seq<CatalogRow>, id: Seq<char>) -> Option<int>
    decreases rows.len(),
{
    if rows.len() == 0 {
        None
    } else {
        match find_key(rows.drop_last(), id) {
            Some(i) => Some(i),
            None => if rows.last().dataset_id == Some(id) {
                Some(rows.len() - 1)
            } else {
                None
            },
        }
    }
}

/// The row that an upsert writes: the values given, touched at `now`, and
/// first seen when `previous` was, or at `now` where there was none before.
pub open spec fn written_row(
    previous: Option<CatalogRow>,
    id: Seq<char>,
    title: Option<Seq<char>>,
    status: Option<Seq<char>>,
    updated_at: Option<int>,
    raw: Json,
    now: int,
) -> CatalogRow {
    CatalogRow {
        dataset_id: Some(id),
        title,
        status,
        updated_at,
        raw,
        first_seen_at: match previous {
            Some(row) => row.first_seen_at,
            None => now,
        },
        last_touched_at: now,
    }
}

/// The times of the last touch do not decrease along the rows.
pub open spec fn touched_in_order(rows: Seq<CatalogRow>) -> bool {
    forall|i: int, j: int|
        0 <= i < j < rows.len() ==> (#[trigger] rows[i]).last_touched_at <= (
        #[trigger] rows[j]).last_touched_at
}

/// No row was touched after `now`.
pub open spec fn touched_by(rows: Seq<CatalogRow>, now: int) -> bool {
    forall|i: int| 0 <= i < rows.len() ==> (#[trigger] rows[i]).last_touched_at <= now
}

/// A catalog is well formed when no identifier occurs twice and the rows
/// stand in the order of their last touch, the one touched longest ago
/// first.
pub open spec fn catalog_wf(rows: Seq<CatalogRow>) -> bool {
    unique_keys(rows) && touched_in_order(rows)
}

/// The row of a given identifier, if there is one.
pub open spec fn previous_of(rows: Seq<CatalogRow>, id: Seq<char>) -> Option<CatalogRow> {
    match find_key(rows, id) {
        Some(i) => Some(rows[i]),
        None => None,
    }
}

/// The rows without the one of a given identifier.
pub open spec fn without_key(rows: Seq<CatalogRow>, id: Seq<char>) -> Seq<CatalogRow> {
    match find_key(rows, id) {
        Some(i) => rows.remove(i),
        None => rows,
    }
}

/// The place of a row touched at `now`: behind every row that was touched
/// at `now` or before, and before every row touched later.
pub open spec fn slot(rows: Seq<CatalogRow>, now: int) -> int
    decreases rows.len(),
{
    if rows.len() == 0 {
        0
    } else if rows.last().last_touched_at <= now {
        rows.len() as int
    } else {
        slot(rows.drop_last(), now)
    }
}

/// The rows with one more row, at the place of its last touch.
pub open spec fn placed(rows: Seq<CatalogRow>, row: CatalogRow) -> Seq<CatalogRow> {
    rows.insert(slot(rows, row.last_touched_at), row)
}

/// The row that an insert without identifier writes.
pub open spec fn unkeyed_row(
    title: Option<Seq<char>>,
    status: Option<Seq<char>>,
    updated_at: Option<int>,
    raw: Json,
    now: int,
) -> CatalogRow {
    CatalogRow {
        dataset_id: None,
        title,
        status,
        updated_at,
        raw,
        first_seen_at: now,
        last_touched_at: now,
    }
}

/// The catalog after an upsert: the row of that identifier leaves its
/// place, and the written row takes the place of its last touch. With a
/// clock that does not run backwards that place is the last.
pub open spec fn upserted(
    rows: Seq<CatalogRow>,
    id: Seq<char>,
    title: Option<Seq<char>>,
    status: Option<Seq<char>>,
    updated_at: Option<int>,
    raw: Json,
    now: int,
) -> Seq<CatalogRow> {
    placed(
        without_key(rows, id),
        written_row(previous_of(rows, id), id, title, status, updated_at, raw, now),
    )
}

/// The catalog after an insert without identifier: one more row, at the
/// place of its last touch.
pub open spec fn inserted_unkeyed(
    rows: Seq<CatalogRow>,
    title: Option<Seq<char>>,
    status: Option<Seq<char>>,
    updated_at: Option<int>,
    raw: Json,
    now: int,
) -> Seq<CatalogRow> {
    placed(rows, unkeyed_row(title, status, updated_at, raw, now))
}

/// The `limit` rows touched most recently, newest first; all of them where
/// there are fewer, and none for a limit below 1.
pub open spec fn newest_first(rows: Seq<CatalogRow>, limit: int) -> Seq<CatalogRow> {
    let n = if limit <= 0 {
        0
    } else if limit < rows.len() {
        limit
    } else {
        rows.len() as int
    };
    Seq::new(n as nat, |k: int| rows[rows.len() - 1 - k])
}

/// Where `find_key` finds a position, the row there has the identifier and no
/// row before it has; where it finds none, no row has it.
pub proof fn lemma_find_key(rows: Seq<CatalogRow>, id: Seq<char>)
    ensures
        match find_key(rows, id) {
            Some(i) => 0 <= i < rows.len() && rows[i].dataset_id == Some(id) && forall|j: int|
                0 <= j < i ==> (#[trigger] rows[j]).dataset_id != Some(id),
            None => forall|j: int|
                0 <= j < rows.len() ==> (#[trigger] rows[j]).dataset_id != Some(id),
        },
    decreases rows.len(),
{
    if rows.len() > 0 {
        let front = rows.drop_last();
        lemma_find_key(front, id);
        assert(forall|j: int| 0 <= j < front.len() ==> front[j] == rows[j]);
    }
}

/// In a catalog without duplicates the row with a given identifier is found
/// wherever it stands.
pub proof fn lemma_find_key_at(rows: Seq<CatalogRow>, id: Seq<char>, i: int)
    requires
        unique_keys(rows),
        0 <= i < rows.len(),
        rows[i].dataset_id == Some(id),
    ensures
        find_key(rows, id) == Some(i),
{
    lemma_find_key(rows, id);
}

/// The place of a row touched at `now` lies within the rows; every row
/// before it was touched at `now` or before, and every row from it on was
/// touched later.
pub proof fn lemma_slot(rows: Seq<CatalogRow>, now: int)
    requires
        touched_in_order(rows),
    ensures
        0 <= slot(rows, now) <= rows.len(),
        forall|i: int| 0 <= i < slot(rows, now) ==> (#[trigger] rows[i]).last_touched_at <= now,
        forall|i: int|
            slot(rows, now) <= i < rows.len() ==> (#[trigger] rows[i]).last_touched_at > now,
        touched_by(rows, now) ==> slot(rows, now) == rows.len(),
    decreases rows.len(),
{
    if rows.len() > 0 {
        let front = rows.drop_last();
        assert(forall|i: int| 0 <= i < front.len() ==> front[i] == rows[i]);
        if rows.last().last_touched_at <= now {
            assert forall|i: int| 0 <= i < rows.len() implies (#[trigger] rows[i]).last_touched_at
                <= now by {
                if i < rows.len() - 1 {
                    assert(rows[i].last_touched_at <= rows[rows.len() - 1].last_touched_at);
                }
            }
        } else {
            lemma_slot(front, now);
            assert(rows[rows.len() - 1].last_touched_at > now);
        }
    }
}

/// Placing a row keeps the times in order.
pub proof fn lemma_placed_keeps_order(rows: Seq<CatalogRow>, row: CatalogRow)
    requires
        touched_in_order(rows),
    ensures
        touched_in_order(placed(rows, row)),
        placed(rows, row).len() == rows.len() + 1,
        0 <= slot(rows, row.last_touched_at) <= rows.len(),
        placed(rows, row)[slot(rows, row.last_touched_at)] == row,
        placed(rows, row).remove(slot(rows, row.last_touched_at)) == rows,
{
    let k = slot(rows, row.last_touched_at);
    lemma_slot(rows, row.last_touched_at);
    let after = placed(rows, row);
    assert(after.remove(k) =~= rows);
    assert forall|i: int, j: int| 0 <= i < j < after.len() implies (
    #[trigger] after[i]).last_touched_at <= (#[trigger] after[j]).last_touched_at by {
        if i < k {
            assert(after[i] == rows[i]);
        } else if i > k {
            assert(after[i] == rows[i - 1]);
        }
        if j < k {
            assert(after[j] == rows[j]);
        } else if j > k {
            assert(after[j] == rows[j - 1]);
        }
    }
}

/// Placing a row whose identifier no row has keeps the catalog free of
/// duplicates.
pub proof fn lemma_placed_keeps_unique(rows: Seq<CatalogRow>, row: CatalogRow)
    requires
        unique_keys(rows),
        touched_in_order(rows),
        row.dataset_id is Some ==> forall|i: int|
            0 <= i < rows.len() ==> (#[trigger] rows[i]).dataset_id != row.dataset_id,
    ensures
        unique_keys(placed(rows, row)),
{
    let k = slot(rows, row.last_touched_at);
    lemma_slot(rows, row.last_touched_at);
    let after = placed(rows, row);
    assert forall|i: int, j: int|
        0 <= i < j < after.len() && (#[trigger] after[i]).dataset_id
            is Some implies after[i].dataset_id != (#[trigger] after[j]).dataset_id by {
        let a = if i < k {
            i
        } else {
            i - 1
        };
        let b = if j < k {
            j
        } else {
            j - 1
        };
        if i != k {
            assert(after[i] == rows[a]);
        }
        if j != k {
            assert(after[j] == rows[b]);
        }
        if i != k && j != k {
            assert(rows[a].dataset_id != rows[b].dataset_id);
        }
    }
}

/// Taking a row out keeps a catalog well formed, and the identifier of the
/// row taken out is then no row's.
pub proof fn lemma_without_key(rows: Seq<CatalogRow>, id: Seq<char>)
    requires
        catalog_wf(rows),
    ensures
        catalog_wf(without_key(rows, id)),
        forall|i: int|
            0 <= i < without_key(rows, id).len() ==> (#[trigger] without_key(
                rows,
                id,
            )[i]).dataset_id != Some(id),
        without_key(rows, id).len() == rows.len() - if find_key(rows, id) is Some {
            1int
        } else {
            0int
        },
{
    lemma_find_key(rows, id);
    let rest = without_key(rows, id);
    match find_key(rows, id) {
        Some(p) => {
            assert forall|i: int| 0 <= i < rest.len() implies (#[trigger] rest[i]).dataset_id
                != Some(id) by {
                let a = if i < p {
                    i
                } else {
                    i + 1
                };
                assert(rest[i] == rows[a]);
                if a < p {
                    assert(rows[a].dataset_id != rows[p].dataset_id);
                } else {
                    assert(rows[p].dataset_id != rows[a].dataset_id);
                }
            }
            assert forall|i: int, j: int| 0 <= i < j < rest.len() implies (
            #[trigger] rest[i]).last_touched_at <= (#[trigger] rest[j]).last_touched_at && (
            rest[i].dataset_id is Some ==> rest[i].dataset_id != rest[j].dataset_id) by {
                let a = if i < p {
                    i
                } else {
                    i + 1
                };
                let b = if j < p {
                    j
                } else {
                    j + 1
                };
                assert(rest[i] == rows[a]);
                assert(rest[j] == rows[b]);
            }
        },
        None => {},
    }
}

/// An upsert keeps the catalog well formed: free of duplicates, and in the
/// order of the last touch, whatever the time given.
pub proof fn lemma_upsert_keeps_wf(
    rows: Seq<CatalogRow>,
    id: Seq<char>,
    title: Option<Seq<char>>,
    status: Option<Seq<char>>,
    updated_at: Option<int>,
    raw: Json,
    now: int,
)
    requires
        catalog_wf(rows),
    ensures
        catalog_wf(upserted(rows, id, title, status, updated_at, raw, now)),
{
    lemma_without_key(rows, id);
    let row = written_row(previous_of(rows, id), id, title, status, updated_at, raw, now);
    lemma_placed_keeps_order(without_key(rows, id), row);
    lemma_placed_keeps_unique(without_key(rows, id), row);
}

/// An insert without identifier keeps the catalog well formed.
pub proof fn lemma_insert_unkeyed_keeps_wf(
    rows: Seq<CatalogRow>,
    title: Option<Seq<char>>,
    status: Option<Seq<char>>,
    updated_at: Option<int>,
    raw: Json,
    now: int,
)
    requires
        catalog_wf(rows),
    ensures
        catalog_wf(inserted_unkeyed(rows, title, status, updated_at, raw, now)),
        inserted_unkeyed(rows, title, status, updated_at, raw, now).len() == rows.len() + 1,
{
    let row = unkeyed_row(title, status, updated_at, raw, now);
    lemma_placed_keeps_order(rows, row);
    lemma_placed_keeps_unique(rows, row);
}

/// An upsert writes one row and touches no other. The written row is the
/// only one of its identifier; it holds the values given, was touched at
/// `now`, and was first seen when the row of that identifier was, or at
/// `now` where there was none. Every other row is as it was, in the same
/// order. A row is added exactly when the identifier is new. With a clock
/// that does not run backwards the written row stands last.
pub proof fn lemma_upsert_touches_one_row(
    rows: Seq<CatalogRow>,
    id: Seq<char>,
    title: Option<Seq<char>>,
    status: Option<Seq<char>>,
    updated_at: Option<int>,
    raw: Json,
    now: int,
)
    requires
        catalog_wf(rows),
    ensures
        ({
            let after = upserted(rows, id, title, status, updated_at, raw, now);
            let k = slot(without_key(rows, id), now);
            &&& 0 <= k < after.len()
            &&& find_key(after, id) == Some(k)
            &&& after[k] == written_row(
                previous_of(rows, id),
                id,
                title,
                status,
                updated_at,
                raw,
                now,
            )
            &&& forall|i: int|
                0 <= i < after.len() && i != k ==> (#[trigger] after[i]).dataset_id != Some(id)
            &&& after.remove(k) == without_key(rows, id)
            &&& after.len() == rows.len() + if find_key(rows, id) is Some {
                0int
            } else {
                1int
            }
            &&& touched_by(rows, now) ==> k == after.len() - 1
        }),
{
    lemma_without_key(rows, id);
    let rest = without_key(rows, id);
    let row = written_row(previous_of(rows, id), id, title, status, updated_at, raw, now);
    lemma_placed_keeps_order(rest, row);
    lemma_upsert_keeps_wf(rows, id, title, status, updated_at, raw, now);
    let after = upserted(rows, id, title, status, updated_at, raw, now);
    let k = slot(rest, now);
    lemma_find_key_at(after, id, k);
    assert forall|i: int| 0 <= i < after.len() && i != k implies (#[trigger] after[i]).dataset_id
        != Some(id) by {
        if i < k {
            assert(after[i].dataset_id != after[k].dataset_id);
        } else {
            assert(after[k].dataset_id != after[i].dataset_id);
        }
    }
    if touched_by(rows, now) {
        assert forall|i: int| 0 <= i < rest.len() implies (#[trigger] rest[i]).last_touched_at
            <= now by {
            lemma_find_key(rows, id);
            match find_key(rows, id) {
                Some(p) => {
                    let a = if i < p {
                        i
                    } else {
                        i + 1
                    };
                    assert(rest[i] == rows[a]);
                },
                None => {},
            }
        }
        lemma_slot(rest, now);
    }
}

/// Upsert is idempotent on the identifier. Writing the same values twice, at
/// `first` and then at `second`, leaves as many rows as writing them once;
/// exactly one row has the identifier; it holds the values, was last touched
/// at `second`, and was first seen at `first` where the identifier was new
/// (and when it was first seen before, where it was not). Every other row is
/// as it was.
pub proof fn lemma_upsert_twice(
    rows: Seq<CatalogRow>,
    id: Seq<char>,
    title: Option<Seq<char>>,
    status: Option<Seq<char>>,
    updated_at: Option<int>,
    raw: Json,
    first: int,
    second: int,
)
    requires
        catalog_wf(rows),
    ensures
        ({
            let once = upserted(rows, id, title, status, updated_at, raw, first);
            let twice = upserted(once, id, title, status, updated_at, raw, second);
            let k = slot(without_key(rows, id), second);
            &&& twice.len() == once.len()
            &&& catalog_wf(twice)
            &&& 0 <= k < twice.len()
            &&& find_key(twice, id) == Some(k)
            &&& forall|i: int|
                0 <= i < twice.len() && i != k ==> (#[trigger] twice[i]).dataset_id != Some(id)
            &&& twice.remove(k) == without_key(rows, id)
            &&& twice[k].dataset_id == Some(id)
            &&& twice[k].title == title
            &&& twice[k].status == status
            &&& twice[k].updated_at == updated_at
            &&& twice[k].raw == raw
            &&& twice[k].last_touched_at == second
            &&& twice[k].first_seen_at == match find_key(rows, id) {
                Some(p) => rows[p].first_seen_at,
                None => first,
            }
        }),
{
    let once = upserted(rows, id, title, status, updated_at, raw, first);
    lemma_upsert_touches_one_row(rows, id, title, status, updated_at, raw, first);
    lemma_upsert_keeps_wf(rows, id, title, status, updated_at, raw, first);
    lemma_upsert_touches_one_row(once, id, title, status, updated_at, raw, second);
    lemma_upsert_keeps_wf(once, id, title, status, updated_at, raw, second);
}

/// Where the times are in order, the list comes out with the row touched
/// last first, and no row that is left out was touched after one that is
/// listed.
pub proof fn lemma_list_is_newest_first(rows: Seq<CatalogRow>, limit: int)
    requires
        touched_in_order(rows),
    ensures
        forall|i: int, j: int|
            0 <= i < j < newest_first(rows, limit).len() ==> (#[trigger] newest_first(
                rows,
                limit,
            )[i]).last_touched_at >= (#[trigger] newest_first(rows, limit)[j]).last_touched_at,
        forall|i: int, k: int|
            0 <= i < newest_first(rows, limit).len() && 0 <= k < rows.len() - newest_first(
                rows,
                limit,
            ).len() ==> (#[trigger] rows[k]).last_touched_at <= (#[trigger] newest_first(
                rows,
                limit,
            )[i]).last_touched_at,
{
    let out = newest_first(rows, limit);
    assert forall|i: int, j: int| 0 <= i < j < out.len() implies (#[trigger] out[i]).last_touched_at
        >= (#[trigger] out[j]).last_touched_at by {
        assert(rows[rows.len() - 1 - j].last_touched_at <= rows[rows.len() - 1
            - i].last_touched_at);
    }
    assert forall|i: int, k: int|
        0 <= i < out.len() && 0 <= k < rows.len() - out.len() implies (
    #[trigger] rows[k]).last_touched_at <= (#[trigger] out[i]).last_touched_at by {
        assert(rows[k].last_touched_at <= rows[rows.len() - 1 - i].last_touched_at);
    }
}

/// The dataset catalog.
pub struct OsdrRepo {
    rows: Vec<CatalogItem>,
}

impl View for OsdrRepo {
    type V = Seq<CatalogRow>;

    /// The rows in the order of their last touch, the one touched longest
    /// ago first.
    closed spec fn view(&self) -> Seq<CatalogRow> {
        Seq::new(self.rows@.len(), |i: int| self.rows@[i]@)
    }
}

impl OsdrRepo {
    /// Whether the catalog is well formed: no identifier occurs twice, and
    /// the rows stand in the order of their last touch.
    pub open spec fn wf(&self) -> bool {
        catalog_wf(self@)
    }

    /// An empty catalog.
    pub fn new() -> (out: OsdrRepo)
        ensures
            out.wf(),
            out@ == Seq::<CatalogRow>::empty(),
    {
        let out = OsdrRepo { rows: Vec::new() };
        assert(out@ =~= Seq::<CatalogRow>::empty());
        out
    }

    /// The catalog that holds the given rows, in their order; `None` where
    /// two of them share a dataset identifier, or where a row was touched
    /// before the one that stands before it.
    pub fn from_rows(rows: Vec<CatalogItem>) -> (out: Option<OsdrRepo>)
        ensures
            match out {
                Some(repo) => repo.wf() && repo@ == Seq::new(
                    rows@.len(),
                    |i: int| rows@[i]@,
                ),
                None => !catalog_wf(Seq::new(rows@.len(), |i: int| rows@[i]@)),
            },
    {
        let ghost all = Seq::new(rows@.len(), |i: int| rows@[i]@);
        let mut i: usize = 0;
        while i < rows.len()
            invariant
                i <= rows@.len(),
                all == Seq::new(rows@.len(), |i: int| rows@[i]@),
                forall|a: int, b: int|
                    0 <= a < i && a < b < all.len() && (#[trigger] all[a]).dataset_id is Some
                        ==> all[a].dataset_id != (#[trigger] all[b]).dataset_id,
                forall|a: int, b: int|
                    0 <= a < b < i ==> (#[trigger] all[a]).last_touched_at <= (
                    #[trigger] all[b]).last_touched_at,
            decreases rows@.len() - i,
        {
            if i > 0 && rows[i].last_touched_at.before(&rows[i - 1].last_touched_at) {
                assert(all[i as int].last_touched_at < all[i - 1].last_touched_at);
                return None;
            }
            proof {
                assert forall|a: int, b: int| 0 <= a < b < i + 1 implies (
                #[trigger] all[a]).last_touched_at <= (#[trigger] all[b]).last_touched_at by {
                    if b == i && a < i - 1 {
                        assert(all[a].last_touched_at <= all[i - 1].last_touched_at);
                    }
                }
            }
            match &rows[i].dataset_id {
                Some(id) => {
                    let mut j: usize = i + 1;
                    while j < rows.len()
                        invariant
                            i < j <= rows@.len(),
                            all == Seq::new(rows@.len(), |i: int| rows@[i]@),
                            all[i as int].dataset_id == Some(id@),
                            forall|b: int|
                                i < b < j ==> all[i as int].dataset_id != (
                                #[trigger] all[b]).dataset_id,
                        decreases rows@.len() - j,
                    {
                        let same = match &rows[j].dataset_id {
                            Some(other) => *other == *id,
                            None => false,
                        };
                        if same {
                            assert(all[i as int].dataset_id == all[j as int].dataset_id);
                            return None;
                        }
                        j += 1;
                    }
                },
                None => {},
            }
            i += 1;
        }
        let out = OsdrRepo { rows };
        assert(out@ =~= all);
        Some(out)
    }

    fn position(&self, id: &str) -> (out: Option<usize>)
        ensures
            match out {
                Some(i) => find_key(self@, id@) == Some(i as int) && i < self.rows@.len(),
                None => find_key(self@, id@).is_none(),
            },
    {
        let wanted = id.to_owned();
        let mut i: usize = 0;
        while i < self.rows.len()
            invariant
                i <= self.rows@.len(),
                wanted@ == id@,
                forall|j: int| 0 <= j < i ==> (#[trigger] self@[j]).dataset_id != Some(id@),
            decreases self.rows@.len() - i,
        {
            let hit = match &self.rows[i].dataset_id {
                Some(s) => *s == wanted,
                None => false,
            };
            if hit {
                proof {
                    lemma_find_key(self@, id@);
                    assert(self@[i as int].dataset_id == Some(id@));
                }
                return Some(i);
            }
            i += 1;
        }
        proof {
            lemma_find_key(self@, id@);
        }
        None
    }

    fn place(&self, now: &Timestamp) -> (out: usize)
        ensures
            out == slot(self@, now@),
            out <= self.rows@.len(),
    {
        let mut k: usize = self.rows.len();
        assert(self@.take(k as int) =~= self@);
        while k > 0 && now.before(&self.rows[k - 1].last_touched_at)
            invariant
                k <= self.rows@.len(),
                slot(self@, now@) == slot(self@.take(k as int), now@),
            decreases k,
        {
            proof {
                let part = self@.take(k as int);
                assert(part.last() == self@[k - 1]);
                assert(part.drop_last() =~= self@.take(k - 1));
            }
            k -= 1;
        }
        proof {
            let part = self@.take(k as int);
            if k > 0 {
                assert(part.last() == self@[k - 1]);
            }
        }
        k
    }

    /// Inserts the item of a dataset identifier, or updates it where the
    /// identifier is known: title, status, update time and raw document are
    /// replaced, the row counts as touched at `now`, and the time at which
    /// it was first seen stays. Returns the place at which the row now
    /// stands.
    pub fn upsert(
        &mut self,
        dataset_id: &str,
        title: Option<&str>,
        status: Option<&str>,
        updated_at: Option<Timestamp>,
        raw: &Value,
        now: Timestamp,
    ) -> (out: usize)
        requires
            old(self).wf(),
            dataset_id@.len() > 0,
        ensures
            final(self).wf(),
            final(self)@ == upserted(
                old(self)@,
                dataset_id@,
                match title {
                    Some(s) => Some(s@),
                    None => None,
                },
                match status {
                    Some(s) => Some(s@),
                    None => None,
                },
                match updated_at {
                    Some(t) => Some(t@),
                    None => None,
                },
                json_of(*raw),
                now@,
            ),
            out == slot(without_key(old(self)@, dataset_id@), now@),
            out < final(self)@.len(),
    {
        let ghost before = self@;
        let ghost title_view: Option<Seq<char>> = match title {
            Some(s) => Some(s@),
            None => None,
        };
        let ghost status_view: Option<Seq<char>> = match status {
            Some(s) => Some(s@),
            None => None,
        };
        let ghost updated_view: Option<int> = match updated_at {
            Some(t) => Some(t@),
            None => None,
        };
        proof {
            lemma_upsert_keeps_wf(
                before,
                dataset_id@,
                title_view,
                status_view,
                updated_view,
                json_of(*raw),
                now@,
            );
            lemma_without_key(before, dataset_id@);
        }
        let first_seen_at = match self.position(dataset_id) {
            Some(i) => {
                let previous = self.rows.remove(i);
                assert(self@ =~= before.remove(i as int));
                assert(previous@ == before[i as int]);
                previous.first_seen_at
            },
            None => now,
        };
        let ghost middle = self@;
        assert(middle == without_key(before, dataset_id@));
        let item = CatalogItem {
            dataset_id: Some(dataset_id.to_owned()),
            title: owned_text(title),
            status: owned_text(status),
            updated_at,
            raw: duplicate(raw),
            first_seen_at,
            last_touched_at: now,
        };
        let k = self.place(&now);
        self.rows.insert(k, item);
        assert(self@ =~= middle.insert(k as int, item@));
        k
    }

    /// Inserts an item that has no usable identifier: always a new row.
    /// Returns the place at which the row stands.
    pub fn insert_unkeyed(
        &mut self,
        title: Option<&str>,
        status: Option<&str>,
        updated_at: Option<Timestamp>,
        raw: &Value,
        now: Timestamp,
    ) -> (out: usize)
        requires
            old(self).wf(),
        ensures
            final(self).wf(),
            final(self)@ == inserted_unkeyed(
                old(self)@,
                match title {
                    Some(s) => Some(s@),
                    None => None,
                },
                match status {
                    Some(s) => Some(s@),
                    None => None,
                },
                match updated_at {
                    Some(t) => Some(t@),
                    None => None,
                },
                json_of(*raw),
                now@,
            ),
            out == slot(old(self)@, now@),
            out < final(self)@.len(),
    {
        let ghost before = self@;
        let ghost title_view: Option<Seq<char>> = match title {
            Some(s) => Some(s@),
            None => None,
        };
        let ghost status_view: Option<Seq<char>> = match status {
            Some(s) => Some(s@),
            None => None,
        };
        let ghost updated_view: Option<int> = match updated_at {
            Some(t) => Some(t@),
            None => None,
        };
        proof {
            lemma_insert_unkeyed_keeps_wf(
                before,
                title_view,
                status_view,
                updated_view,
                json_of(*raw),
                now@,
            );
        }
        let item = CatalogItem {
            dataset_id: None,
            title: owned_text(title),
            status: owned_text(status),
            updated_at,
            raw: duplicate(raw),
            first_seen_at: now,
            last_touched_at: now,
        };
        let k = self.place(&now);
        self.rows.insert(k, item);
        assert(self@ =~= before.insert(k as int, item@));
        k
    }

    /// The row at a place, counted from the one touched longest ago.
    pub fn row(&self, i: usize) -> (out: Option<&CatalogItem>)
        ensures
            match out {
                Some(item) => i < self@.len() && item@ == self@[i as int],
                None => i >= self@.len(),
            },
    {
        if i < self.rows.len() {
            Some(&self.rows[i])
        } else {
            None
        }
    }

    /// The `limit` rows touched most recently, newest first. A negative
    /// limit is refused, as a store refuses it.
    pub fn list(&self, limit: i64) -> (out: Result<Vec<CatalogItem>, FetchError>)
        ensures
            match out {
                Ok(items) => limit >= 0 && Seq::new(items@.len(), |i: int| items@[i]@)
                    == newest_first(self@, limit as int),
                Err(e) => limit < 0 && e == FetchError::StoreUnavailable,
            },
    {
        if limit < 0 {
            return Err(FetchError::StoreUnavailable);
        }
        let total = self.rows.len();
        let mut items: Vec<CatalogItem> = Vec::new();
        let mut k: usize = 0;
        while k < total && (k as u64) < (limit as u64)
            invariant
                total == self.rows@.len(),
                limit >= 0,
                k <= total,
                k <= limit,
                items@.len() == k,
                forall|i: int| 0 <= i < k ==> (#[trigger] items@[i])@ == self@[total - 1 - i],
            decreases total - k,
        {
            items.push(self.rows[total - 1 - k].duplicate());
            k += 1;
        }
        assert(Seq::new(items@.len(), |i: int| items@[i]@) =~= newest_first(self@, limit as int));
        Ok(items)
    }

    /// The number of rows.
    pub fn count(&self) -> (out: u64)
        ensures
            out == self@.len(),
    {
        self.rows.len() as u64
    }

    /// The item of a dataset identifier, if the catalog has one.
    pub fn get(&self, dataset_id: &str) -> (out: Option<&CatalogItem>)
        ensures
            match out {
                Some(item) => find_key(self@, dataset_id@) is Some && item@ == self@[find_key(
                    self@,
                    dataset_id@,
                ).unwrap()],
                None => find_key(self@, dataset_id@).is_none(),
            },
    {
        match self.position(dataset_id) {
            Some(i) => Some(&self.rows[i]),
            None => None,
        }
    }
}

} // verus!
