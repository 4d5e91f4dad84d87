//! The latest-value cache: for each source name the newest document, and
//! nothing older.

use crate::domain::error::NotFound;
use crate::domain::models::{CachedDocument, CachedRow};
use crate::json::{duplicate, json_of, Json};
use crate::time::Timestamp;
use serde_json::Value;
use vstd::prelude::*;

verus! {

/// What the cache holds for a key: the document and when it was fetched.
pub struct Cached {
    pub fetched_at: int,
    pub payload: Json,
}

/// No two entries share a key.
pub open spec fn unique_sources(rows: Seq<CachedRow>) -> bool {
    forall|i: int, j: int|
        0 <= i < j < rows.len() ==> (#[trigger] rows[i]).source != (#[trigger] rows[j]).source
}

/// The entries as a map from key to document.
pub open spec fn as_map(rows: Seq<CachedRow>) -> Map<Seq<char>, Cached>
    decreases rows.len(),
{
    if rows.len() == 0 {
        Map::empty()
    } else {
        as_map(rows.drop_last()).insert(
            rows.last().source,
            Cached { fetched_at: rows.last().fetched_at, payload: rows.last().payload },
        )
    }
}

proof fn lemma_as_map_keys(rows: Seq<CachedRow>, key: Seq<char>)
    ensures
        as_map(rows).dom().contains(key) <==> exists|i: int|
            0 <= i < rows.len() && (#[trigger] rows[i]).source == key,
    decreases rows.len(),
{
    if rows.len() > 0 {
        let front = rows.drop_last();
        lemma_as_map_keys(front, key);
        if as_map(rows).dom().contains(key) {
            if rows.last().source == key {
                assert(rows[rows.len() - 1].source == key);
            } else {
                let i = choose|i: int| 0 <= i < front.len() && (#[trigger] front[i]).source == key;
                assert(rows[i].source == key);
            }
        }
        if exists|i: int| 0 <= i < rows.len() && (#[trigger] rows[i]).source == key {
            let i = choose|i: int| 0 <= i < rows.len() && (#[trigger] rows[i]).source == key;
            if i < front.len() {
                assert(front[i].source == key);
            }
        }
    }
}

proof fn lemma_as_map_at(rows: Seq<CachedRow>, i: int)
    requires
        unique_sources(rows),
        0 <= i < rows.len(),
    ensures
        as_map(rows).dom().contains(rows[i].source),
        as_map(rows)[rows[i].source] == (Cached {
            fetched_at: rows[i].fetched_at,
            payload: rows[i].payload,
        }),
    decreases rows.len(),
{
    let front = rows.drop_last();
    if i < rows.len() - 1 {
        assert(forall|a: int, b: int|
            0 <= a < b < front.len() ==> (#[trigger] front[a]) == rows[a] && (#[trigger] front[b])
                == rows[b]);
        lemma_as_map_at(front, i);
        assert(rows[i].source != rows[rows.len() - 1].source);
    }
}

proof fn lemma_as_map_update(rows: Seq<CachedRow>, i: int, row: CachedRow)
    requires
        unique_sources(rows),
        0 <= i < rows.len(),
        rows[i].source == row.source,
    ensures
        unique_sources(rows.update(i, row)),
        as_map(rows.update(i, row)) == as_map(rows).insert(
            row.source,
            Cached { fetched_at: row.fetched_at, payload: row.payload },
        ),
    decreases rows.len(),
{
    let after = rows.update(i, row);
    let front = rows.drop_last();
    assert forall|a: int, b: int| 0 <= a < b < after.len() implies (#[trigger] after[a]).source
        != (#[trigger] after[b]).source by {
        assert(after[a].source == rows[a].source);
        assert(after[b].source == rows[b].source);
    }
    if i == rows.len() - 1 {
        assert(after.drop_last() =~= front);
        assert(as_map(after) =~= as_map(rows).insert(
            row.source,
            Cached { fetched_at: row.fetched_at, payload: row.payload },
        ));
    } else {
        assert(forall|a: int, b: int|
            0 <= a < b < front.len() ==> (#[trigger] front[a]) == rows[a] && (#[trigger] front[b])
                == rows[b]);
        lemma_as_map_update(front, i, row);
        assert(after.drop_last() =~= front.update(i, row));
        assert(rows[i].source != rows[rows.len() - 1].source);
        assert(as_map(after) =~= as_map(rows).insert(
            row.source,
            Cached { fetched_at: row.fetched_at, payload: row.payload },
        ));
    }
}

/// The latest-value cache. Its view maps each key that was ever written to
/// the newest document written under it.
pub struct CacheRepo {
    entries: Vec<CachedDocument>,
}

impl CacheRepo {
    closed spec fn rows(&self) -> Seq<CachedRow> {
        Seq::new(self.entries@.len(), |i: int| self.entries@[i]@)
    }

    /// Whether the cache is well formed: one entry per key.
    pub closed spec fn wf(&self) -> bool {
        unique_sources(self.rows())
    }

    /// An empty cache.
    pub fn new() -> (out: CacheRepo)
        ensures
            out.wf(),
            out@ == Map::<Seq<char>, Cached>::empty(),
    {
        let out = CacheRepo { entries: Vec::new() };
        assert(out.rows() =~= Seq::<CachedRow>::empty());
        out
    }

    fn position(&self, key: &str) -> (out: Option<usize>)
        ensures
            match out {
                Some(i) => i < self.entries@.len() && self.rows()[i as int].source == key@,
                None => forall|j: int|
                    0 <= j < self.rows().len() ==> (#[trigger] self.rows()[j]).source != key@,
            },
    {
        let wanted = key.to_owned();
        let mut i: usize = 0;
        while i < self.entries.len()
            invariant
                i <= self.entries@.len(),
                wanted@ == key@,
                forall|j: int| 0 <= j < i ==> (#[trigger] self.rows()[j]).source != key@,
            decreases self.entries@.len() - i,
        {
            if self.entries[i].source == wanted {
                assert(self.rows()[i as int].source == key@);
                return Some(i);
            }
            i += 1;
        }
        None
    }

    /// Stores the document for a key, in place of the one that was there.
    /// Every other key keeps its document.
    pub fn save(&mut self, key: &str, value: &Value, now: Timestamp)
        requires
            old(self).wf(),
        ensures
            final(self).wf(),
            final(self)@ == old(self)@.insert(
                key@,
                Cached { fetched_at: now@, payload: json_of(*value) },
            ),
    {
        let ghost before = self.rows();
        let entry = CachedDocument {
            source: key.to_owned(),
            fetched_at: now,
            payload: duplicate(value),
        };
        match self.position(key) {
            Some(i) => {
                proof {
                    lemma_as_map_update(before, i as int, entry@);
                }
                self.entries.set(i, entry);
                assert(self.rows() =~= before.update(i as int, entry@));
            },
            None => {
                self.entries.push(entry);
                assert(self.rows() =~= before.push(entry@));
                assert(self.rows().drop_last() =~= before);
                assert forall|a: int, b: int| 0 <= a < b < self.rows().len() implies (
                #[trigger] self.rows()[a]).source != (#[trigger] self.rows()[b]).source by {
                    assert(self.rows()[a] == before[a]);
                    if b < before.len() {
                        assert(self.rows()[b] == before[b]);
                    }
                }
            },
        }
    }

    /// The newest document of a key; `NotFound` where none was ever written.
    pub fn get_latest(&self, key: &str) -> (out: Result<&Value, NotFound>)
        requires
            self.wf(),
        ensures
            match out {
                Ok(v) => self@.dom().contains(key@) && json_of(*v) == self@[key@].payload,
                Err(_) => !self@.dom().contains(key@),
            },
    {
        proof {
            lemma_as_map_keys(self.rows(), key@);
        }
        match self.position(key) {
            Some(i) => {
                proof {
                    lemma_as_map_at(self.rows(), i as int);
                }
                Ok(&self.entries[i].payload)
            },
            None => Err(NotFound),
        }
    }

    /// The newest entry of a key, with the time at which it was fetched.
    pub fn get_entry(&self, key: &str) -> (out: Result<&CachedDocument, NotFound>)
        requires
            self.wf(),
        ensures
            match out {
                Ok(e) => self@.dom().contains(key@) && e@.source == key@ && self@[key@] == (Cached {
                    fetched_at: e@.fetched_at,
                    payload: e@.payload,
                }),
                Err(_) => !self@.dom().contains(key@),
            },
    {
        proof {
            lemma_as_map_keys(self.rows(), key@);
        }
        match self.position(key) {
            Some(i) => {
                proof {
                    lemma_as_map_at(self.rows(), i as int);
                }
                Ok(&self.entries[i])
            },
            None => Err(NotFound),
        }
    }
}

impl View for CacheRepo {
    type V = Map<Seq<char>, Cached>;

    closed spec fn view(&self) -> Map<Seq<char>, Cached> {
        as_map(self.rows())
    }
}

} // verus!
