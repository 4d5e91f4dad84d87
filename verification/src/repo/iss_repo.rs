//! The position log: snapshots of the orbital position, appended and never
//! changed, each with an identifier larger than all before it.

use crate::domain::error::{FetchError, NotFound};
use crate::domain::models::{IssFetchLog, PositionRow};
use crate::json::{duplicate, json_of, Json};
use crate::time::Timestamp;
use serde_json::Value;
use vstd::prelude::*;

verus! {

/// The identifiers are positive and strictly increasing: no two snapshots
/// are ever equal in the order of the log, whenever they were fetched.
pub open spec fn ids_increase(rows: Seq<PositionRow>) -> bool {
    &&& forall|i: int| 0 <= i < rows.len() ==> (#[trigger] rows[i]).id >= 1
    &&& forall|i: int, j: int|
        0 <= i < j < rows.len() ==> (#[trigger] rows[i]).id < (#[trigger] rows[j]).id
}

/// The identifier that the next snapshot gets.
pub open spec fn next_id(rows: Seq<PositionRow>) -> int {
    if rows.len() == 0 {
        1
    } else {
        rows.last().id + 1
    }
}

/// The log after one snapshot was appended.
pub open spec fn appended(rows: Seq<PositionRow>, url: Seq<char>, payload: Json, now: int) -> Seq<
    PositionRow,
> {
    rows.push(PositionRow { id: next_id(rows), fetched_at: now, source_url: url, payload })
}

/// The `n` newest snapshots, newest first; all of them where there are
/// fewer, and none for an `n` below 1.
pub open spec fn recent(rows: Seq<PositionRow>, n: int) -> Seq<PositionRow> {
    let k = if n <= 0 {
        0
    } else if n < rows.len() {
        n
    } else {
        rows.len() as int
    };
    Seq::new(k as nat, |i: int| rows[rows.len() - 1 - i])
}

/// Appending keeps the identifiers strictly increasing, and leaves every
/// snapshot that was there as it was.
pub proof fn lemma_append_keeps_order(
    rows: Seq<PositionRow>,
    url: Seq<char>,
    payload: Json,
    now: int,
)
    requires
        ids_increase(rows),
    ensures
        ids_increase(appended(rows, url, payload, now)),
        appended(rows, url, payload, now).len() == rows.len() + 1,
        appended(rows, url, payload, now).drop_last() == rows,
{
    let after = appended(rows, url, payload, now);
    assert(after.drop_last() =~= rows);
    assert forall|i: int, j: int| 0 <= i < j < after.len() implies (#[trigger] after[i]).id < (
    #[trigger] after[j]).id by {
        assert(after[i] == rows[i]);
        if j < rows.len() {
            assert(after[j] == rows[j]);
        } else if i < rows.len() - 1 {
            assert(rows[i].id < rows[rows.len() - 1].id);
        }
    }
    assert forall|i: int| 0 <= i < after.len() implies (#[trigger] after[i]).id >= 1 by {
        if i < rows.len() {
            assert(after[i] == rows[i]);
        } else if rows.len() > 0 {
            assert(rows[rows.len() - 1].id >= 1);
        }
    }
}

/// The newest snapshots come out in strictly decreasing order of identifier:
/// the first is newer than the second.
pub proof fn lemma_recent_is_ordered(rows: Seq<PositionRow>, n: int)
    requires
        ids_increase(rows),
    ensures
        forall|i: int, j: int|
            0 <= i < j < recent(rows, n).len() ==> (#[trigger] recent(rows, n)[i]).id > (
            #[trigger] recent(rows, n)[j]).id,
{
    let out = recent(rows, n);
    assert forall|i: int, j: int| 0 <= i < j < out.len() implies (#[trigger] out[i]).id > (
    #[trigger] out[j]).id by {
        assert(rows[rows.len() - 1 - j].id < rows[rows.len() - 1 - i].id);
    }
}

/// The position log.
pub struct IssRepo {
    rows: Vec<IssFetchLog>,
}

impl View for IssRepo {
    type V = Seq<PositionRow>;

    /// The snapshots in the order in which they were appended.
    closed spec fn view(&self) -> Seq<PositionRow> {
        Seq::new(self.rows@.len(), |i: int| self.rows@[i]@)
    }
}

impl IssRepo {
    /// Whether the log is well formed.
    pub open spec fn wf(&self) -> bool {
        ids_increase(self@)
    }

    /// An empty log.
    pub fn new() -> (out: IssRepo)
        ensures
            out.wf(),
            out@ == Seq::<PositionRow>::empty(),
    {
        let out = IssRepo { rows: Vec::new() };
        assert(out@ =~= Seq::<PositionRow>::empty());
        out
    }

    /// The log that holds the given snapshots, in their order; `None` where
    /// their identifiers are not positive and strictly increasing.
    pub fn from_rows(rows: Vec<IssFetchLog>) -> (out: Option<IssRepo>)
        ensures
            match out {
                Some(repo) => repo.wf() && repo@ == Seq::new(
                    rows@.len(),
                    |i: int| rows@[i]@,
                ),
                None => !ids_increase(Seq::new(rows@.len(), |i: int| rows@[i]@)),
            },
    {
        let ghost all = Seq::new(rows@.len(), |i: int| rows@[i]@);
        let mut i: usize = 0;
        while i < rows.len()
            invariant
                i <= rows@.len(),
                all == Seq::new(rows@.len(), |i: int| rows@[i]@),
                forall|a: int| 0 <= a < i ==> (#[trigger] all[a]).id >= 1,
                forall|a: int, b: int|
                    0 <= a < b < i ==> (#[trigger] all[a]).id < (#[trigger] all[b]).id,
            decreases rows@.len() - i,
        {
            if rows[i].id < 1 {
                assert(all[i as int].id < 1);
                return None;
            }
            if i > 0 && rows[i - 1].id >= rows[i].id {
                assert(all[i - 1].id >= all[i as int].id);
                return None;
            }
            proof {
                assert forall|a: int, b: int| 0 <= a < b < i + 1 implies (#[trigger] all[a]).id < (
                #[trigger] all[b]).id by {
                    if b == i && a < i - 1 {
                        assert(all[a].id < all[i - 1].id);
                    }
                }
            }
            i += 1;
        }
        let out = IssRepo { rows };
        assert(out@ =~= all);
        Some(out)
    }

    /// Appends one snapshot, fetched at `now` from `url`, and returns its
    /// identifier. Fails, and leaves the log as it was, only where the
    /// identifiers are used up.
    pub fn create_log(&mut self, url: &str, payload: &Value, now: Timestamp) -> (out: Result<
        i64,
        FetchError,
    >)
        requires
            old(self).wf(),
        ensures
            final(self).wf(),
            match out {
                Ok(id) => id == next_id(old(self)@) && final(self)@ == appended(
                    old(self)@,
                    url@,
                    json_of(*payload),
                    now@,
                ),
                Err(e) => e == FetchError::StoreUnavailable && next_id(old(self)@) > i64::MAX
                    && final(self)@ == old(self)@,
            },
    {
        let ghost before = self@;
        let total = self.rows.len();
        let id: i64 = if total == 0 {
            1
        } else {
            let last = self.rows[total - 1].id;
            assert(last == before[total - 1].id);
            if last == i64::MAX {
                return Err(FetchError::StoreUnavailable);
            }
            last + 1
        };
        proof {
            lemma_append_keeps_order(before, url@, json_of(*payload), now@);
        }
        let row = IssFetchLog {
            id,
            fetched_at: now,
            source_url: url.to_owned(),
            payload: duplicate(payload),
        };
        self.rows.push(row);
        assert(self@ =~= before.push(row@));
        Ok(id)
    }

    /// The newest snapshot; `NotFound` where the log is empty.
    pub fn get_last(&self) -> (out: Result<&IssFetchLog, NotFound>)
        ensures
            match out {
                Ok(row) => self@.len() > 0 && row@ == self@.last(),
                Err(_) => self@.len() == 0,
            },
    {
        let total = self.rows.len();
        if total == 0 {
            Err(NotFound)
        } else {
            Ok(&self.rows[total - 1])
        }
    }

    /// The `n` newest snapshots, newest first; fewer where the log is short.
    pub fn get_recent(&self, n: usize) -> (out: Vec<IssFetchLog>)
        ensures
            Seq::new(out@.len(), |i: int| out@[i]@) == recent(self@, n as int),
    {
        let total = self.rows.len();
        let mut out: Vec<IssFetchLog> = Vec::new();
        let mut k: usize = 0;
        while k < total && k < n
            invariant
                total == self.rows@.len(),
                k <= total,
                k <= n,
                out@.len() == k,
                forall|i: int| 0 <= i < k ==> (#[trigger] out@[i])@ == self@[total - 1 - i],
            decreases total - k,
        {
            out.push(self.rows[total - 1 - k].duplicate());
            k += 1;
        }
        assert(Seq::new(out@.len(), |i: int| out@[i]@) =~= recent(self@, n as int));
        out
    }

    /// The two newest snapshots, newest first.
    pub fn get_last_two(&self) -> (out: Vec<IssFetchLog>)
        ensures
            Seq::new(out@.len(), |i: int| out@[i]@) == recent(self@, 2),
    {
        self.get_recent(2)
    }

    /// The snapshot that has `k` newer ones after it: the newest for 0, the
    /// one before it for 1. `None` where the log holds no more than `k`.
    pub fn newest(&self, k: usize) -> (out: Option<&IssFetchLog>)
        ensures
            match out {
                Some(row) => k < self@.len() && row@ == self@[self@.len() - 1 - k],
                None => k >= self@.len(),
            },
    {
        let total = self.rows.len();
        if k < total {
            Some(&self.rows[total - 1 - k])
        } else {
            None
        }
    }

    /// The number of snapshots.
    pub fn len(&self) -> (out: usize)
        ensures
            out == self@.len(),
    {
        self.rows.len()
    }
}

} // verus!
