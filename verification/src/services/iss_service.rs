//! The fetcher of the orbital position, and the trend between the two
//! newest snapshots.

use crate::domain::error::{FetchError, NotFound};
use crate::domain::models::{
    document, document_of, json_view, Cycle, Fetched, IssFetchLog, PositionRow, Request, Trend,
    TrendView,
};
use crate::domain::utils::field;
use crate::json::{duplicate, is_number, json_of, member, text_of, Json};
use crate::repo::iss_repo::{appended, next_id, IssRepo};
use crate::time::{millis_from_to, Timestamp};
use serde_json::Value;
use vstd::prelude::*;

verus! {

/// The longest that a request of this fetcher may take, in seconds.
pub const ISS_TIMEOUT_SECS: u64 = 20;

/// Whether the log can take one more snapshot.
pub open spec fn has_room(rows: Seq<PositionRow>) -> bool {
    next_id(rows) <= i64::MAX
}

/// The log after a cycle: one more snapshot where there is a document to
/// store and room for it, and the log as it was in every other case.
pub open spec fn log_after(rows: Seq<PositionRow>, url: Seq<char>, fetched: Fetched, now: int) -> Seq<
    PositionRow,
> {
    match document_of(fetched) {
        Ok(Some(doc)) => if has_room(rows) {
            appended(rows, url, doc, now)
        } else {
            rows
        },
        _ => rows,
    }
}

/// How a cycle of this fetcher ends.
pub open spec fn position_cycle(rows: Seq<PositionRow>, fetched: Fetched) -> Result<
    Cycle,
    FetchError,
> {
    match document_of(fetched) {
        Ok(Some(_)) => if has_room(rows) {
            Ok(Cycle::Stored { written: 1 })
        } else {
            Err(FetchError::StoreUnavailable)
        },
        Ok(None) => Ok(Cycle::Skipped),
        Err(e) => Err(e),
    }
}

/// The reading that a payload holds under a key: the value there, where it
/// is a number or a text. Any other value, a missing key, and a payload that
/// is no object give none.
pub open spec fn reading(payload: Json, key: Seq<char>) -> Option<Json> {
    match field(payload, key) {
        Some(value) => if value is Number || value is Text {
            Some(value)
        } else {
            None
        },
        None => None,
    }
}

/// The trend without movement: no span and no reading.
pub open spec fn zero_trend() -> TrendView {
    TrendView {
        dt_millis: 0,
        from_time: None,
        to_time: None,
        velocity_kmh: None,
        from_lat: None,
        from_lon: None,
        to_lat: None,
        to_lon: None,
    }
}

/// The trend of a log. With fewer than two snapshots it is the trend without
/// movement. Otherwise it spans from the snapshot before the newest to the
/// newest, in signed whole milliseconds; the coordinates are read from both
/// payloads, and the velocity from the newer one alone.
pub open spec fn trend_of(rows: Seq<PositionRow>) -> TrendView {
    if rows.len() < 2 {
        zero_trend()
    } else {
        let older = rows[rows.len() - 2];
        let newer = rows[rows.len() - 1];
        TrendView {
            dt_millis: millis_from_to(older.fetched_at, newer.fetched_at),
            from_time: Some(older.fetched_at),
            to_time: Some(newer.fetched_at),
            velocity_kmh: reading(newer.payload, "velocity"@),
            from_lat: reading(older.payload, "latitude"@),
            from_lon: reading(older.payload, "longitude"@),
            to_lat: reading(newer.payload, "latitude"@),
            to_lon: reading(newer.payload, "longitude"@),
        }
    }
}

/// With no snapshot or one, the trend is the one without movement: no time
/// between, and every optional field absent.
pub proof fn lemma_trend_needs_two(rows: Seq<PositionRow>)
    requires
        rows.len() <= 1,
    ensures
        trend_of(rows) == zero_trend(),
        trend_of(rows).dt_millis == 0,
        trend_of(rows).from_time is None && trend_of(rows).to_time is None,
        trend_of(rows).velocity_kmh is None,
        trend_of(rows).from_lat is None && trend_of(rows).from_lon is None,
        trend_of(rows).to_lat is None && trend_of(rows).to_lon is None,
{
}

/// Two snapshots with the same payload give the same readings at both ends,
/// and the time between them is that between their fetches.
pub proof fn lemma_trend_of_equal_payloads(rows: Seq<PositionRow>)
    requires
        rows.len() >= 2,
        rows[rows.len() - 2].payload == rows[rows.len() - 1].payload,
    ensures
        trend_of(rows).from_lat == trend_of(rows).to_lat,
        trend_of(rows).from_lon == trend_of(rows).to_lon,
        trend_of(rows).dt_millis == millis_from_to(
            rows[rows.len() - 2].fetched_at,
            rows[rows.len() - 1].fetched_at,
        ),
{
}

/// Two snapshots fetched a whole number of seconds apart are that many
/// thousand milliseconds apart.
pub proof fn lemma_whole_seconds_apart(from: int, seconds: int)
    requires
        seconds >= 0,
    ensures
        millis_from_to(from, from + seconds * 1_000_000_000) == seconds * 1000,
{
    assert(seconds * 1_000_000_000 == (seconds * 1000) * 1_000_000);
    vstd::arithmetic::div_mod::lemma_fundamental_div_mod_converse(
        seconds * 1_000_000_000,
        1_000_000,
        seconds * 1000,
        0,
    );
}

/// The fetcher of the orbital position.
pub struct IssService {
    pub repo: IssRepo,
    pub iss_url: String,
}

impl IssService {
    pub open spec fn wf(&self) -> bool {
        self.repo.wf()
    }

    pub fn new(repo: IssRepo, iss_url: String) -> (out: IssService)
        ensures
            out.repo == repo,
            out.iss_url == iss_url,
    {
        IssService { repo, iss_url }
    }

    /// The request of one cycle.
    pub fn request(&self) -> (out: Request)
        ensures
            out.url@ == self.iss_url@,
            out.query@.len() == 0,
            out.timeout_secs == ISS_TIMEOUT_SECS,
    {
        Request { url: self.iss_url.clone(), query: Vec::new(), timeout_secs: ISS_TIMEOUT_SECS }
    }

    /// Appends a document to the log as a snapshot fetched at `now`.
    pub fn record(&mut self, doc: &Value, now: Timestamp) -> (out: Result<Cycle, FetchError>)
        requires
            old(self).wf(),
        ensures
            final(self).wf(),
            final(self).iss_url == old(self).iss_url,
            has_room(old(self).repo@) ==> out == Ok::<Cycle, FetchError>(
                Cycle::Stored { written: 1 },
            ) && final(self).repo@ == appended(
                old(self).repo@,
                old(self).iss_url@,
                json_of(*doc),
                now@,
            ),
            !has_room(old(self).repo@) ==> out == Err::<Cycle, FetchError>(
                FetchError::StoreUnavailable,
            ) && final(self).repo@ == old(self).repo@,
    {
        match self.repo.create_log(self.iss_url.as_str(), doc, now) {
            Ok(_) => Ok(Cycle::Stored { written: 1 }),
            Err(e) => Err(e),
        }
    }

    /// One cycle, given what was fetched. A success has its body read as
    /// JSON and appended to the log. A permission failure is passed over, and
    /// any other outcome fails the cycle; both leave the log as it was.
    pub fn fetch_and_store_iss(&mut self, fetched: &Fetched, now: Timestamp) -> (out: Result<
        Cycle,
        FetchError,
    >)
        requires
            old(self).wf(),
        ensures
            final(self).wf(),
            final(self).iss_url == old(self).iss_url,
            out == position_cycle(old(self).repo@, *fetched),
            final(self).repo@ == log_after(old(self).repo@, old(self).iss_url@, *fetched, now@),
    {
        match document(fetched) {
            Ok(Some(doc)) => self.record(&doc, now),
            Ok(None) => Ok(Cycle::Skipped),
            Err(e) => Err(e),
        }
    }

    /// The newest snapshot; `NotFound` where the log is empty.
    pub fn get_last_iss(&self) -> (out: Result<&IssFetchLog, NotFound>)
        ensures
            match out {
                Ok(row) => self.repo@.len() > 0 && row@ == self.repo@.last(),
                Err(_) => self.repo@.len() == 0,
            },
    {
        self.repo.get_last()
    }

    /// The trend between the two newest snapshots.
    pub fn get_trend(&self) -> (out: Trend)
        ensures
            out@ == trend_of(self.repo@),
    {
        match (self.repo.newest(0), self.repo.newest(1)) {
            (Some(newer), Some(older)) => Trend {
                dt_millis: newer.fetched_at.millis_between(&older.fetched_at),
                from_time: Some(older.fetched_at),
                to_time: Some(newer.fetched_at),
                velocity_kmh: read(&newer.payload, "velocity"),
                from_lat: read(&older.payload, "latitude"),
                from_lon: read(&older.payload, "longitude"),
                to_lat: read(&newer.payload, "latitude"),
                to_lon: read(&newer.payload, "longitude"),
            },
            _ => Trend {
                dt_millis: 0,
                from_time: None,
                to_time: None,
                velocity_kmh: None,
                from_lat: None,
                from_lon: None,
                to_lat: None,
                to_lon: None,
            },
        }
    }
}

/// The reading that a payload holds under a key.
pub fn read(payload: &Value, key: &str) -> (out: Option<Value>)
    ensures
        json_view(out) == reading(json_of(*payload), key@),
{
    match member(payload, key) {
        Some(value) => if is_number(value) || text_of(value).is_some() {
            Some(duplicate(value))
        } else {
            None
        },
        None => None,
    }
}

} // verus!
