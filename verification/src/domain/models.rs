//! The records that the stores hold, with their mathematical content.

use crate::config::Settings;
use crate::domain::error::FetchError;
use crate::json::{duplicate, json_from_bytes, json_of, parse, Json};
use crate::services::iss_service::IssService;
use crate::services::job_service::JobService;
use crate::services::osdr_service::OsdrService;
use crate::services::space_service::SpaceService;
use crate::time::Timestamp;
use serde_json::Value;
use vstd::prelude::*;

verus! {

/// The text of an optional string.
pub open spec fn text_view(s: Option<String>) -> Option<Seq<char>> {
    match s {
        Some(s) => Some(s@),
        None => None,
    }
}

/// The instant of an optional timestamp.
pub open spec fn instant_view(t: Option<Timestamp>) -> Option<int> {
    match t {
        Some(t) => Some(t@),
        None => None,
    }
}

/// An owned copy of an optional text.
pub fn owned_text(s: Option<&str>) -> (out: Option<String>)
    ensures
        match s {
            Some(s) => text_view(out) == Some(s@),
            None => out.is_none(),
        },
{
    match s {
        Some(s) => Some(s.to_owned()),
        None => None,
    }
}

/// A copy of an optional string.
pub fn copy_text(s: &Option<String>) -> (out: Option<String>)
    ensures
        text_view(out) == text_view(*s),
{
    match s {
        Some(s) => Some(s.clone()),
        None => None,
    }
}

/// One snapshot of the orbital position, as the position log holds it.
#[derive(Debug)]
pub struct IssFetchLog {
    pub id: i64,
    pub fetched_at: Timestamp,
    pub source_url: String,
    pub payload: Value,
}

/// The mathematical content of an [`IssFetchLog`].
pub struct PositionRow {
    pub id: int,
    pub fetched_at: int,
    pub source_url: Seq<char>,
    pub payload: Json,
}

impl View for IssFetchLog {
    type V = PositionRow;

    open spec fn view(&self) -> PositionRow {
        PositionRow {
            id: self.id as int,
            fetched_at: self.fetched_at@,
            source_url: self.source_url@,
            payload: json_of(self.payload),
        }
    }
}

impl IssFetchLog {
    /// A copy that holds the same content.
    pub fn duplicate(&self) -> (out: IssFetchLog)
        ensures
            out@ == self@,
    {
        IssFetchLog {
            id: self.id,
            fetched_at: self.fetched_at,
            source_url: self.source_url.clone(),
            payload: duplicate(&self.payload),
        }
    }
}

/// One item of the dataset catalog.
#[derive(Debug)]
pub struct CatalogItem {
    pub dataset_id: Option<String>,
    pub title: Option<String>,
    pub status: Option<String>,
    pub updated_at: Option<Timestamp>,
    pub raw: Value,
    pub first_seen_at: Timestamp,
    pub last_touched_at: Timestamp,
}

/// The mathematical content of a [`CatalogItem`].
pub struct CatalogRow {
    pub dataset_id: Option<Seq<char>>,
    pub title: Option<Seq<char>>,
    pub status: Option<Seq<char>>,
    pub updated_at: Option<int>,
    pub raw: Json,
    pub first_seen_at: int,
    pub last_touched_at: int,
}

impl View for CatalogItem {
    type V = CatalogRow;

    open spec fn view(&self) -> CatalogRow {
        CatalogRow {
            dataset_id: text_view(self.dataset_id),
            title: text_view(self.title),
            status: text_view(self.status),
            updated_at: instant_view(self.updated_at),
            raw: json_of(self.raw),
            first_seen_at: self.first_seen_at@,
            last_touched_at: self.last_touched_at@,
        }
    }
}

impl CatalogItem {
    /// A copy that holds the same content.
    pub fn duplicate(&self) -> (out: CatalogItem)
        ensures
            out@ == self@,
    {
        CatalogItem {
            dataset_id: copy_text(&self.dataset_id),
            title: copy_text(&self.title),
            status: copy_text(&self.status),
            updated_at: self.updated_at,
            raw: duplicate(&self.raw),
            first_seen_at: self.first_seen_at,
            last_touched_at: self.last_touched_at,
        }
    }
}

/// The newest payload of one source, as the cache holds it.
#[derive(Debug)]
pub struct CachedDocument {
    pub source: String,
    pub fetched_at: Timestamp,
    pub payload: Value,
}

/// The mathematical content of a [`CachedDocument`].
pub struct CachedRow {
    pub source: Seq<char>,
    pub fetched_at: int,
    pub payload: Json,
}

impl View for CachedDocument {
    type V = CachedRow;

    open spec fn view(&self) -> CachedRow {
        CachedRow {
            source: self.source@,
            fetched_at: self.fetched_at@,
            payload: json_of(self.payload),
        }
    }
}

/// The upstream sources: a closed list.
#[derive(Clone, Copy, Debug, PartialEq, Eq, Structural)]
pub enum Source {
    /// The orbital-position tracker.
    Iss,
    /// The astronomy picture of the day.
    Apod,
    /// The near-earth-object feed.
    Neo,
    /// The solar-flare feed.
    Flr,
    /// The coronal-mass-ejection feed.
    Cme,
    /// The launch schedule.
    Spacex,
    /// The dataset catalog.
    Osdr,
}

/// What becomes of a source's payload.
#[derive(Clone, Copy, Debug, PartialEq, Eq, Structural)]
pub enum Policy {
    /// One more snapshot in the position log.
    AppendPosition,
    /// The newest document of the source in the cache.
    CacheLatest,
    /// One insert-or-update in the catalog for each item.
    CatalogUpsert,
}

/// The number of sources.
pub const SOURCE_COUNT: usize = 7;

impl Source {
    /// The source's fixed name, which is its key in the cache.
    pub open spec fn spec_name(self) -> Seq<char> {
        match self {
            Source::Iss => "iss"@,
            Source::Apod => "apod"@,
            Source::Neo => "neo"@,
            Source::Flr => "flr"@,
            Source::Cme => "cme"@,
            Source::Spacex => "spacex"@,
            Source::Osdr => "osdr"@,
        }
    }

    pub open spec fn spec_policy(self) -> Policy {
        match self {
            Source::Iss => Policy::AppendPosition,
            Source::Osdr => Policy::CatalogUpsert,
            _ => Policy::CacheLatest,
        }
    }

    /// The source's place in the list, from 0.
    pub open spec fn spec_index(self) -> int {
        match self {
            Source::Iss => 0,
            Source::Apod => 1,
            Source::Neo => 2,
            Source::Flr => 3,
            Source::Cme => 4,
            Source::Spacex => 5,
            Source::Osdr => 6,
        }
    }

    pub fn name(self) -> (out: &'static str)
        ensures
            out@ == self.spec_name(),
    {
        match self {
            Source::Iss => "iss",
            Source::Apod => "apod",
            Source::Neo => "neo",
            Source::Flr => "flr",
            Source::Cme => "cme",
            Source::Spacex => "spacex",
            Source::Osdr => "osdr",
        }
    }

    pub fn policy(self) -> (out: Policy)
        ensures
            out == self.spec_policy(),
    {
        match self {
            Source::Iss => Policy::AppendPosition,
            Source::Osdr => Policy::CatalogUpsert,
            _ => Policy::CacheLatest,
        }
    }

    pub fn index(self) -> (out: usize)
        ensures
            out == self.spec_index(),
            out < SOURCE_COUNT,
    {
        match self {
            Source::Iss => 0,
            Source::Apod => 1,
            Source::Neo => 2,
            Source::Flr => 3,
            Source::Cme => 4,
            Source::Spacex => 5,
            Source::Osdr => 6,
        }
    }

    /// The source at a place in the list.
    pub fn from_index(i: usize) -> (out: Option<Source>)
        ensures
            match out {
                Some(s) => s.spec_index() == i,
                None => i >= SOURCE_COUNT,
            },
    {
        if i == 0 {
            Some(Source::Iss)
        } else if i == 1 {
            Some(Source::Apod)
        } else if i == 2 {
            Some(Source::Neo)
        } else if i == 3 {
            Some(Source::Flr)
        } else if i == 4 {
            Some(Source::Cme)
        } else if i == 5 {
            Some(Source::Spacex)
        } else if i == 6 {
            Some(Source::Osdr)
        } else {
            None
        }
    }
}

/// Two sources never share a name.
pub proof fn lemma_names_differ(a: Source, b: Source)
    requires
        a != b,
    ensures
        a.spec_name() != b.spec_name(),
{
    reveal_strlit("iss");
    reveal_strlit("apod");
    reveal_strlit("neo");
    reveal_strlit("flr");
    reveal_strlit("cme");
    reveal_strlit("spacex");
    reveal_strlit("osdr");
    let x = a.spec_name();
    let y = b.spec_name();
    if x == y {
        assert(x.len() == y.len());
        assert(x[0] == y[0]);
    }
}

/// A request for the outside to make: where to ask, with which query
/// parameters, and for how long to wait at most.
#[derive(Debug)]
pub struct Request {
    pub url: String,
    pub query: Vec<(String, String)>,
    pub timeout_secs: u64,
}

/// The query parameters as pairs of texts.
pub open spec fn query_view(query: Seq<(String, String)>) -> Seq<(Seq<char>, Seq<char>)> {
    Seq::new(query.len(), |i: int| (query[i].0@, query[i].1@))
}

/// What came of a request.
#[derive(Debug)]
pub enum Fetched {
    /// No answer: the network failed, or the wait ran out.
    Unreachable,
    /// An answer, with its HTTP status and its body.
    Response { status: u16, body: Vec<u8> },
}

/// How a fetch cycle ended when it did not fail.
#[derive(Clone, Copy, Debug, PartialEq, Eq, Structural)]
pub enum Cycle {
    /// The payload was stored, in that many writes.
    Stored { written: usize },
    /// There was nothing to do: the upstream refused permission, and the
    /// stores are as they were.
    Skipped,
}

/// How a cycle ends once the outside store has answered. A cycle that
/// stored something counts only where the write to the outside store was
/// kept; where it was not, the cycle fails for want of the store. A cycle
/// that stored nothing, or failed before, ends as it did.
pub open spec fn settled(outcome: Result<Cycle, FetchError>, kept: bool) -> Result<
    Cycle,
    FetchError,
> {
    match outcome {
        Ok(Cycle::Stored { .. }) => if kept {
            outcome
        } else {
            Err(FetchError::StoreUnavailable)
        },
        _ => outcome,
    }
}

/// How a cycle ends once the outside store has answered.
pub fn settle(outcome: Result<Cycle, FetchError>, kept: bool) -> (out: Result<Cycle, FetchError>)
    ensures
        out == settled(outcome, kept),
{
    match outcome {
        Ok(Cycle::Stored { written }) => if kept {
            Ok(Cycle::Stored { written })
        } else {
            Err(FetchError::StoreUnavailable)
        },
        Ok(Cycle::Skipped) => Ok(Cycle::Skipped),
        Err(e) => Err(e),
    }
}

/// The status of a permission failure, which a cycle passes over.
pub const FORBIDDEN: u16 = 403;

/// Whether a status is a success.
pub open spec fn is_success(status: u16) -> bool {
    200 <= status <= 299
}

/// What a cycle does with what was fetched: the body to store, nothing to
/// do (`None`), or the failure.
pub open spec fn screened(fetched: Fetched) -> Result<Option<Seq<u8>>, FetchError> {
    match fetched {
        Fetched::Unreachable => Err(FetchError::UpstreamUnavailable),
        Fetched::Response { status, body } => if is_success(status) {
            Ok(Some(body@))
        } else if status == FORBIDDEN {
            Ok(None)
        } else {
            Err(FetchError::UpstreamRejected { status })
        },
    }
}

/// What a cycle does with what was fetched.
pub fn screen(fetched: &Fetched) -> (out: Result<Option<&Vec<u8>>, FetchError>)
    ensures
        match out {
            Ok(Some(body)) => screened(*fetched) == Ok::<Option<Seq<u8>>, FetchError>(
                Some(body@),
            ),
            Ok(None) => screened(*fetched) == Ok::<Option<Seq<u8>>, FetchError>(None),
            Err(e) => screened(*fetched) == Err::<Option<Seq<u8>>, FetchError>(e),
        },
{
    match fetched {
        Fetched::Unreachable => Err(FetchError::UpstreamUnavailable),
        Fetched::Response { status, body } => if 200 <= *status && *status <= 299 {
            Ok(Some(body))
        } else if *status == FORBIDDEN {
            Ok(None)
        } else {
            Err(FetchError::UpstreamRejected { status: *status })
        },
    }
}

/// The document of a cycle: the one read from the body to store, nothing
/// where there is nothing to do, and a failure where the fetch failed or the
/// body is no JSON document.
pub open spec fn document_of(fetched: Fetched) -> Result<Option<Json>, FetchError> {
    match screened(fetched) {
        Ok(Some(body)) => match json_from_bytes(body) {
            Some(doc) => Ok(Some(doc)),
            None => Err(FetchError::MalformedResponse),
        },
        Ok(None) => Ok(None),
        Err(e) => Err(e),
    }
}

/// A permission failure gives a cycle nothing to do, whatever the body.
pub proof fn lemma_forbidden_is_passed_over(body: Vec<u8>)
    ensures
        document_of(Fetched::Response { status: FORBIDDEN, body }) == Ok::<
            Option<Json>,
            FetchError,
        >(None),
{
}

/// Any other status that is no success fails the cycle.
pub proof fn lemma_other_status_fails(status: u16, body: Vec<u8>)
    requires
        !is_success(status),
        status != FORBIDDEN,
    ensures
        document_of(Fetched::Response { status, body }) == Err::<Option<Json>, FetchError>(
            FetchError::UpstreamRejected { status },
        ),
{
}

/// The document of a cycle.
pub fn document(fetched: &Fetched) -> (out: Result<Option<Value>, FetchError>)
    ensures
        match out {
            Ok(Some(v)) => document_of(*fetched) == Ok::<Option<Json>, FetchError>(
                Some(json_of(v)),
            ),
            Ok(None) => document_of(*fetched) == Ok::<Option<Json>, FetchError>(None),
            Err(e) => document_of(*fetched) == Err::<Option<Json>, FetchError>(e),
        },
{
    match screen(fetched) {
        Ok(Some(body)) => match parse(body.as_slice()) {
            Ok(v) => Ok(Some(v)),
            Err(_) => Err(FetchError::MalformedResponse),
        },
        Ok(None) => Ok(None),
        Err(e) => Err(e),
    }
}

/// The movement trend between the two newest snapshots of the position
/// log, as far as it is made of instants and of readings. A reading is the
/// JSON value that a payload holds for a coordinate or for the velocity, as
/// it stands there; its number, and the distance between two positions, are
/// the caller's to work out.
#[derive(Debug)]
pub struct Trend {
    /// Whole milliseconds from the older snapshot to the newer; 0 without
    /// two snapshots.
    pub dt_millis: i64,
    /// When the older of the two was fetched.
    pub from_time: Option<Timestamp>,
    /// When the newer one was fetched.
    pub to_time: Option<Timestamp>,
    /// The velocity that the newer snapshot reports.
    pub velocity_kmh: Option<Value>,
    pub from_lat: Option<Value>,
    pub from_lon: Option<Value>,
    pub to_lat: Option<Value>,
    pub to_lon: Option<Value>,
}

/// The mathematical content of a [`Trend`].
pub struct TrendView {
    pub dt_millis: int,
    pub from_time: Option<int>,
    pub to_time: Option<int>,
    pub velocity_kmh: Option<Json>,
    pub from_lat: Option<Json>,
    pub from_lon: Option<Json>,
    pub to_lat: Option<Json>,
    pub to_lon: Option<Json>,
}

/// The document of an optional value.
pub open spec fn json_view(v: Option<Value>) -> Option<Json> {
    match v {
        Some(v) => Some(json_of(v)),
        None => None,
    }
}

impl View for Trend {
    type V = TrendView;

    open spec fn view(&self) -> TrendView {
        TrendView {
            dt_millis: self.dt_millis as int,
            from_time: instant_view(self.from_time),
            to_time: instant_view(self.to_time),
            velocity_kmh: json_view(self.velocity_kmh),
            from_lat: json_view(self.from_lat),
            from_lon: json_view(self.from_lon),
            to_lat: json_view(self.to_lat),
            to_lon: json_view(self.to_lon),
        }
    }
}

impl Trend {
    /// Whether both positions are there to measure a distance between:
    /// each of the four coordinates has a reading.
    pub fn has_coordinates(&self) -> (out: bool)
        ensures
            out == (self@.from_lat is Some && self@.from_lon is Some && self@.to_lat is Some
                && self@.to_lon is Some),
    {
        self.from_lat.is_some() && self.from_lon.is_some() && self.to_lat.is_some()
            && self.to_lon.is_some()
    }
}

/// The answer of a health probe.
#[derive(Debug)]
pub struct Health {
    pub status: &'static str,
    pub now: Timestamp,
}

impl Health {
    /// The answer of a service that runs, at the instant `now`.
    pub fn ok(now: Timestamp) -> (out: Health)
        ensures
            out.status@ == "ok"@,
            out.now == now,
    {
        Health { status: "ok", now }
    }
}

/// The core: the three fetchers with their stores, the scheduler, and the
/// settings they were made with.
pub struct AppState {
    pub iss_service: IssService,
    pub osdr_service: OsdrService,
    pub space_service: SpaceService,
    pub job_service: JobService,
    pub settings: Settings,
}

impl AppState {
    /// Whether every part of the core is well formed.
    pub open spec fn wf(&self) -> bool {
        &&& self.iss_service.wf()
        &&& self.osdr_service.wf()
        &&& self.space_service.wf()
        &&& self.job_service.wf()
    }
}

} // verus!
