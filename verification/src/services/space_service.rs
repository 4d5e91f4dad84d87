//! The fetcher of the sources whose newest payload goes to the cache: the
//! picture of the day, the near-earth-object feed, the two solar-event feeds
//! and the launch schedule.

use crate::domain::error::FetchError;
use crate::domain::models::{
    document, document_of, query_view, Cycle, Fetched, Policy, Request, Source,
};
use crate::json::json_of;
use crate::repo::cache_repo::{CacheRepo, Cached};
use crate::time::{date_display, Date, Timestamp, MIN_DAY};
use serde_json::Value;
use vstd::prelude::*;

verus! {

/// The longest that a request of this fetcher may take, in seconds.
pub const SPACE_TIMEOUT_SECS: u64 = 30;

/// The days that a source's date window reaches back from today.
pub open spec fn window_days(source: Source) -> int {
    match source {
        Source::Neo => 2,
        Source::Flr => 5,
        Source::Cme => 5,
        _ => 0,
    }
}

/// The query parameters of a source's request, before the credential.
pub open spec fn feed_params(source: Source, today: int) -> Seq<(Seq<char>, Seq<char>)> {
    match source {
        Source::Apod => seq![("thumbs"@, "true"@)],
        Source::Neo => seq![
            ("start_date"@, date_display(today - 2)),
            ("end_date"@, date_display(today)),
        ],
        Source::Flr => seq![
            ("startDate"@, date_display(today - 5)),
            ("endDate"@, date_display(today)),
        ],
        Source::Cme => seq![
            ("startDate"@, date_display(today - 5)),
            ("endDate"@, date_display(today)),
        ],
        _ => Seq::empty(),
    }
}

/// The parameters with the shared credential last, where there is one.
pub open spec fn with_credential(params: Seq<(Seq<char>, Seq<char>)>, key: Seq<char>) -> Seq<
    (Seq<char>, Seq<char>),
> {
    if key.len() > 0 {
        params.push(("api_key"@, key))
    } else {
        params
    }
}

/// The cache after a cycle: the document under the key where there is one
/// to store, and the cache as it was in every other case.
pub open spec fn cached_after(
    cache: Map<Seq<char>, Cached>,
    key: Seq<char>,
    fetched: Fetched,
    now: int,
) -> Map<Seq<char>, Cached> {
    match document_of(fetched) {
        Ok(Some(doc)) => cache.insert(key, Cached { fetched_at: now, payload: doc }),
        _ => cache,
    }
}

/// How a cycle of this fetcher ends.
pub open spec fn cache_cycle(fetched: Fetched) -> Result<Cycle, FetchError> {
    match document_of(fetched) {
        Ok(Some(_)) => Ok(Cycle::Stored { written: 1 }),
        Ok(None) => Ok(Cycle::Skipped),
        Err(e) => Err(e),
    }
}

/// A cycle that meets a permission failure ends without error and leaves
/// the cache as it was.
pub proof fn lemma_forbidden_leaves_cache(
    cache: Map<Seq<char>, Cached>,
    key: Seq<char>,
    body: Vec<u8>,
    now: int,
)
    ensures
        cache_cycle(Fetched::Response { status: 403, body }) == Ok::<Cycle, FetchError>(
            Cycle::Skipped,
        ),
        cached_after(cache, key, Fetched::Response { status: 403, body }, now) == cache,
{
}

/// A cycle that fails leaves the cache as it was.
pub proof fn lemma_failure_leaves_cache(
    cache: Map<Seq<char>, Cached>,
    key: Seq<char>,
    fetched: Fetched,
    now: int,
)
    requires
        cache_cycle(fetched) is Err,
    ensures
        cached_after(cache, key, fetched, now) == cache,
{
}

/// The fetcher of the cached sources.
pub struct SpaceService {
    pub cache: CacheRepo,
    pub nasa_key: String,
    pub apod_url: String,
    pub neo_url: String,
    pub donki_flr_url: String,
    pub donki_cme_url: String,
    pub spacex_next_url: String,
}

impl SpaceService {
    pub open spec fn wf(&self) -> bool {
        self.cache.wf()
    }

    /// The upstream URL of a cached source.
    pub open spec fn spec_url(&self, source: Source) -> Seq<char> {
        match source {
            Source::Apod => self.apod_url@,
            Source::Neo => self.neo_url@,
            Source::Flr => self.donki_flr_url@,
            Source::Cme => self.donki_cme_url@,
            _ => self.spacex_next_url@,
        }
    }

    pub fn new(
        cache: CacheRepo,
        nasa_key: String,
        apod_url: String,
        neo_url: String,
        donki_flr_url: String,
        donki_cme_url: String,
        spacex_next_url: String,
    ) -> (out: SpaceService)
        ensures
            out.cache == cache,
            out.nasa_key == nasa_key,
            out.apod_url == apod_url,
            out.neo_url == neo_url,
            out.donki_flr_url == donki_flr_url,
            out.donki_cme_url == donki_cme_url,
            out.spacex_next_url == spacex_next_url,
    {
        SpaceService {
            cache,
            nasa_key,
            apod_url,
            neo_url,
            donki_flr_url,
            donki_cme_url,
            spacex_next_url,
        }
    }

    /// The request for a URL with the given parameters: the shared
    /// credential is added last where it is set, and the wait is bounded.
    pub fn prepare(&self, url: &str, params: Vec<(String, String)>) -> (out: Request)
        ensures
            out.url@ == url@,
            query_view(out.query@) == with_credential(query_view(params@), self.nasa_key@),
            out.timeout_secs == SPACE_TIMEOUT_SECS,
    {
        let mut query = params;
        if !self.nasa_key.as_str().is_empty() {
            let ghost before = query@;
            query.push(("api_key".to_owned(), self.nasa_key.clone()));
            assert(query_view(query@) =~= query_view(before).push(("api_key"@, self.nasa_key@)));
        }
        Request { url: url.to_owned(), query, timeout_secs: SPACE_TIMEOUT_SECS }
    }

    /// The request of one cycle of a cached source on the day `today`. The
    /// near-earth-object feed asks for the last 2 days and the solar-event
    /// feeds for the last 5. `None` for a source that is not cached, and
    /// where the window would begin before the first day there is.
    pub fn request_for(&self, source: Source, today: Date) -> (out: Option<Request>)
        ensures
            match out {
                Some(r) => {
                    &&& source.spec_policy() == Policy::CacheLatest
                    &&& MIN_DAY <= today@ - window_days(source)
                    &&& r.url@ == self.spec_url(source)
                    &&& query_view(r.query@) == with_credential(
                        feed_params(source, today@),
                        self.nasa_key@,
                    )
                    &&& r.timeout_secs == SPACE_TIMEOUT_SECS
                },
                None => source.spec_policy() != Policy::CacheLatest || today@ - window_days(source)
                    < MIN_DAY,
            },
    {
        let mut params: Vec<(String, String)> = Vec::new();
        let day = today.day_number();
        assert(MIN_DAY <= day);
        match source {
            Source::Apod => {
                params.push(("thumbs".to_owned(), "true".to_owned()));
                assert(query_view(params@) =~= feed_params(source, today@));
                Some(self.prepare(self.apod_url.as_str(), params))
            },
            Source::Neo => match today.minus_days(2) {
                Some(from) => {
                    params.push(("start_date".to_owned(), from.text()));
                    params.push(("end_date".to_owned(), today.text()));
                    assert(query_view(params@) =~= feed_params(source, today@));
                    Some(self.prepare(self.neo_url.as_str(), params))
                },
                None => None,
            },
            Source::Flr => match today.minus_days(5) {
                Some(from) => {
                    params.push(("startDate".to_owned(), from.text()));
                    params.push(("endDate".to_owned(), today.text()));
                    assert(query_view(params@) =~= feed_params(source, today@));
                    Some(self.prepare(self.donki_flr_url.as_str(), params))
                },
                None => None,
            },
            Source::Cme => match today.minus_days(5) {
                Some(from) => {
                    params.push(("startDate".to_owned(), from.text()));
                    params.push(("endDate".to_owned(), today.text()));
                    assert(query_view(params@) =~= feed_params(source, today@));
                    Some(self.prepare(self.donki_cme_url.as_str(), params))
                },
                None => None,
            },
            Source::Spacex => {
                assert(query_view(params@) =~= feed_params(source, today@));
                Some(self.prepare(self.spacex_next_url.as_str(), params))
            },
            _ => None,
        }
    }

    /// Stores a document as the newest of its source.
    pub fn store_document(&mut self, source_key: &str, doc: &Value, now: Timestamp)
        requires
            old(self).wf(),
        ensures
            final(self).wf(),
            final(self).cache@ == old(self).cache@.insert(
                source_key@,
                Cached { fetched_at: now@, payload: json_of(*doc) },
            ),
            final(self).nasa_key == old(self).nasa_key,
            final(self).apod_url == old(self).apod_url,
            final(self).neo_url == old(self).neo_url,
            final(self).donki_flr_url == old(self).donki_flr_url,
            final(self).donki_cme_url == old(self).donki_cme_url,
            final(self).spacex_next_url == old(self).spacex_next_url,
    {
        self.cache.save(source_key, doc, now);
    }

    /// One cycle of a cached source, given what was fetched. A success has
    /// its body read as JSON and stored under the key. A permission failure
    /// is passed over: the cycle ends without error and the cache stays as it
    /// was. Any other outcome fails the cycle, and the cache stays as it was.
    pub fn fetch_and_cache(&mut self, source_key: &str, fetched: &Fetched, now: Timestamp) -> (out:
        Result<Cycle, FetchError>)
        requires
            old(self).wf(),
        ensures
            final(self).wf(),
            out == cache_cycle(*fetched),
            final(self).cache@ == cached_after(old(self).cache@, source_key@, *fetched, now@),
            final(self).nasa_key == old(self).nasa_key,
            final(self).apod_url == old(self).apod_url,
            final(self).neo_url == old(self).neo_url,
            final(self).donki_flr_url == old(self).donki_flr_url,
            final(self).donki_cme_url == old(self).donki_cme_url,
            final(self).spacex_next_url == old(self).spacex_next_url,
    {
        match document(fetched) {
            Ok(Some(doc)) => {
                self.store_document(source_key, &doc, now);
                Ok(Cycle::Stored { written: 1 })
            },
            Ok(None) => Ok(Cycle::Skipped),
            Err(e) => Err(e),
        }
    }

    /// One cycle of the picture of the day.
    pub fn fetch_apod(&mut self, fetched: &Fetched, now: Timestamp) -> (out: Result<
        Cycle,
        FetchError,
    >)
        requires
            old(self).wf(),
        ensures
            final(self).wf(),
            out == cache_cycle(*fetched),
            final(self).cache@ == cached_after(old(self).cache@, "apod"@, *fetched, now@),
            final(self).nasa_key == old(self).nasa_key,
            final(self).apod_url == old(self).apod_url,
            final(self).neo_url == old(self).neo_url,
            final(self).donki_flr_url == old(self).donki_flr_url,
            final(self).donki_cme_url == old(self).donki_cme_url,
            final(self).spacex_next_url == old(self).spacex_next_url,
    {
        self.fetch_and_cache("apod", fetched, now)
    }

    /// One cycle of the near-earth-object feed.
    pub fn fetch_neo(&mut self, fetched: &Fetched, now: Timestamp) -> (out: Result<
        Cycle,
        FetchError,
    >)
        requires
            old(self).wf(),
        ensures
            final(self).wf(),
            out == cache_cycle(*fetched),
            final(self).cache@ == cached_after(old(self).cache@, "neo"@, *fetched, now@),
            final(self).nasa_key == old(self).nasa_key,
            final(self).apod_url == old(self).apod_url,
            final(self).neo_url == old(self).neo_url,
            final(self).donki_flr_url == old(self).donki_flr_url,
            final(self).donki_cme_url == old(self).donki_cme_url,
            final(self).spacex_next_url == old(self).spacex_next_url,
    {
        self.fetch_and_cache("neo", fetched, now)
    }

    /// One cycle of the solar-flare feed.
    pub fn fetch_donki_flr(&mut self, fetched: &Fetched, now: Timestamp) -> (out: Result<
        Cycle,
        FetchError,
    >)
        requires
            old(self).wf(),
        ensures
            final(self).wf(),
            out == cache_cycle(*fetched),
            final(self).cache@ == cached_after(old(self).cache@, "flr"@, *fetched, now@),
            final(self).nasa_key == old(self).nasa_key,
            final(self).apod_url == old(self).apod_url,
            final(self).neo_url == old(self).neo_url,
            final(self).donki_flr_url == old(self).donki_flr_url,
            final(self).donki_cme_url == old(self).donki_cme_url,
            final(self).spacex_next_url == old(self).spacex_next_url,
    {
        self.fetch_and_cache("flr", fetched, now)
    }

    /// One cycle of the coronal-mass-ejection feed.
    pub fn fetch_donki_cme(&mut self, fetched: &Fetched, now: Timestamp) -> (out: Result<
        Cycle,
        FetchError,
    >)
        requires
            old(self).wf(),
        ensures
            final(self).wf(),
            out == cache_cycle(*fetched),
            final(self).cache@ == cached_after(old(self).cache@, "cme"@, *fetched, now@),
            final(self).nasa_key == old(self).nasa_key,
            final(self).apod_url == old(self).apod_url,
            final(self).neo_url == old(self).neo_url,
            final(self).donki_flr_url == old(self).donki_flr_url,
            final(self).donki_cme_url == old(self).donki_cme_url,
            final(self).spacex_next_url == old(self).spacex_next_url,
    {
        self.fetch_and_cache("cme", fetched, now)
    }

    /// One cycle of the launch schedule.
    pub fn fetch_spacex_next(&mut self, fetched: &Fetched, now: Timestamp) -> (out: Result<
        Cycle,
        FetchError,
    >)
        requires
            old(self).wf(),
        ensures
            final(self).wf(),
            out == cache_cycle(*fetched),
            final(self).cache@ == cached_after(old(self).cache@, "spacex"@, *fetched, now@),
            final(self).nasa_key == old(self).nasa_key,
            final(self).apod_url == old(self).apod_url,
            final(self).neo_url == old(self).neo_url,
            final(self).donki_flr_url == old(self).donki_flr_url,
            final(self).donki_cme_url == old(self).donki_cme_url,
            final(self).spacex_next_url == old(self).spacex_next_url,
    {
        self.fetch_and_cache("spacex", fetched, now)
    }

    /// One cycle of both solar-event feeds: the flares, then the mass
    /// ejections, each stored on its own. A failure of one does not keep the
    /// other from being stored. The cycle fails with the first failure of
    /// the two; without one, it stored as many documents as the two feeds
    /// gave.
    pub fn fetch_donki(&mut self, flr: &Fetched, cme: &Fetched, now: Timestamp) -> (out: Result<
        Cycle,
        FetchError,
    >)
        requires
            old(self).wf(),
        ensures
            final(self).wf(),
            out == donki_cycle(*flr, *cme),
            final(self).cache@ == donki_cached_after(old(self).cache@, *flr, *cme, now@),
            final(self).nasa_key == old(self).nasa_key,
            final(self).apod_url == old(self).apod_url,
            final(self).neo_url == old(self).neo_url,
            final(self).donki_flr_url == old(self).donki_flr_url,
            final(self).donki_cme_url == old(self).donki_cme_url,
            final(self).spacex_next_url == old(self).spacex_next_url,
    {
        let first = self.fetch_donki_flr(flr, now);
        let second = self.fetch_donki_cme(cme, now);
        match (first, second) {
            (Err(e), _) => Err(e),
            (Ok(_), Err(e)) => Err(e),
            (Ok(a), Ok(b)) => Ok(both(a, b)),
        }
    }
}

/// The writes of a cycle.
pub open spec fn writes_of(c: Cycle) -> int {
    match c {
        Cycle::Stored { written } => written as int,
        Cycle::Skipped => 0,
    }
}

/// Two cycles that did not fail, taken as one: skipped where both were.
pub open spec fn spec_both(a: Cycle, b: Cycle) -> Cycle {
    if a is Skipped && b is Skipped {
        Cycle::Skipped
    } else {
        Cycle::Stored { written: (writes_of(a) + writes_of(b)) as usize }
    }
}

/// Two cycles that did not fail, taken as one.
pub fn both(a: Cycle, b: Cycle) -> (out: Cycle)
    requires
        writes_of(a) + writes_of(b) <= usize::MAX,
    ensures
        out == spec_both(a, b),
{
    match (a, b) {
        (Cycle::Skipped, Cycle::Skipped) => Cycle::Skipped,
        (Cycle::Skipped, Cycle::Stored { written }) => Cycle::Stored { written },
        (Cycle::Stored { written }, Cycle::Skipped) => Cycle::Stored { written },
        (Cycle::Stored { written: x }, Cycle::Stored { written: y }) => Cycle::Stored {
            written: x + y,
        },
    }
}

/// How a cycle of both solar-event feeds ends: with the first failure of
/// the two, and without one as both taken together.
pub open spec fn donki_cycle(flr: Fetched, cme: Fetched) -> Result<Cycle, FetchError> {
    match (cache_cycle(flr), cache_cycle(cme)) {
        (Err(e), _) => Err(e),
        (Ok(_), Err(e)) => Err(e),
        (Ok(a), Ok(b)) => Ok(spec_both(a, b)),
    }
}

/// The cache after a cycle of both solar-event feeds: each feed is stored
/// under its own key, whatever became of the other.
pub open spec fn donki_cached_after(
    cache: Map<Seq<char>, Cached>,
    flr: Fetched,
    cme: Fetched,
    now: int,
) -> Map<Seq<char>, Cached> {
    cached_after(cached_after(cache, "flr"@, flr, now), "cme"@, cme, now)
}

/// A failure of one solar-event feed does not stop the other: where the
/// flares fail, a mass-ejection document is stored all the same, and the
/// flares' entry is as it was.
pub proof fn lemma_solar_feeds_are_isolated(
    cache: Map<Seq<char>, Cached>,
    flr: Fetched,
    cme: Fetched,
    now: int,
)
    requires
        cache_cycle(flr) is Err,
        document_of(cme) matches Ok(Some(_)),
    ensures
        ({
            let after = donki_cached_after(cache, flr, cme, now);
            &&& after.dom().contains("cme"@)
            &&& after["cme"@] == (Cached {
                fetched_at: now,
                payload: document_of(cme)->Ok_0->Some_0,
            })
            &&& after.dom().contains("flr"@) == cache.dom().contains("flr"@)
            &&& cache.dom().contains("flr"@) ==> after["flr"@] == cache["flr"@]
            &&& donki_cycle(flr, cme) is Err
        }),
{
    reveal_strlit("flr");
    reveal_strlit("cme");
    assert("flr"@[0] != "cme"@[0]);
}

} // verus!
