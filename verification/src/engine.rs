//! The core's interface: one fetch cycle of a source, run on demand or for
//! the scheduler, and the reads that the stores answer.

use crate::domain::error::{FetchError, NotFound};
use crate::domain::models::{
    query_view, settle, settled, AppState, CatalogItem, Cycle, Fetched, IssFetchLog, Policy,
    Request, Source, Trend, SOURCE_COUNT,
};
use crate::json::json_of;
use crate::repo::osdr_repo::newest_first;
use crate::services::iss_service::{log_after, position_cycle, trend_of, ISS_TIMEOUT_SECS};
use crate::services::job_service::{finished, tick_starts, ticked, timers};
use crate::services::osdr_service::{
    catalog_after, catalog_cycle, cycle_writes, OSDR_TIMEOUT_SECS,
};
use crate::services::space_service::{
    cache_cycle, cached_after, feed_params, window_days, with_credential, SPACE_TIMEOUT_SECS,
};
use crate::time::{Date, Timestamp, MIN_DAY};
use serde_json::Value;
use vstd::prelude::*;

verus! {

impl AppState {
    /// Whether a source's request can be made on the day `today`: its date
    /// window must not begin before the first day there is.
    pub open spec fn can_request(source: Source, today: int) -> bool {
        source.spec_policy() != Policy::CacheLatest || MIN_DAY <= today - window_days(source)
    }

    /// Whether `r` is the request of one cycle of a source on the day
    /// `today`.
    pub open spec fn is_request_of(&self, r: Request, source: Source, today: int) -> bool {
        match source.spec_policy() {
            Policy::AppendPosition => {
                &&& r.url@ == self.iss_service.iss_url@
                &&& r.query@.len() == 0
                &&& r.timeout_secs == ISS_TIMEOUT_SECS
            },
            Policy::CatalogUpsert => {
                &&& r.url@ == self.osdr_service.nasa_url@
                &&& r.query@.len() == 0
                &&& r.timeout_secs == OSDR_TIMEOUT_SECS
            },
            Policy::CacheLatest => {
                &&& r.url@ == self.space_service.spec_url(source)
                &&& query_view(r.query@) == with_credential(
                    feed_params(source, today),
                    self.space_service.nasa_key@,
                )
                &&& r.timeout_secs == SPACE_TIMEOUT_SECS
            },
        }
    }

    /// How a cycle of a source ends, given what was fetched.
    pub open spec fn cycle_of(&self, source: Source, fetched: Fetched) -> Result<Cycle, FetchError> {
        match source.spec_policy() {
            Policy::AppendPosition => position_cycle(self.iss_service.repo@, fetched),
            Policy::CatalogUpsert => catalog_cycle(fetched),
            Policy::CacheLatest => cache_cycle(fetched),
        }
    }

    /// Whether `after` is this core after a cycle of a source: the store of
    /// the source's policy has taken the payload, or is as it was where the
    /// cycle stored nothing; a catalog cycle has left copies of the rows it
    /// wrote; the other stores, the settings and the fetchers' URLs are as
    /// they were.
    pub open spec fn cycle_leads_to(
        &self,
        after: &AppState,
        source: Source,
        fetched: Fetched,
        now: int,
    ) -> bool {
        &&& after.iss_service.repo@ == if source.spec_policy() == Policy::AppendPosition {
            log_after(self.iss_service.repo@, self.iss_service.iss_url@, fetched, now)
        } else {
            self.iss_service.repo@
        }
        &&& after.osdr_service.repo@ == if source.spec_policy() == Policy::CatalogUpsert {
            catalog_after(self.osdr_service.repo@, fetched, now)
        } else {
            self.osdr_service.repo@
        }
        &&& after.osdr_service.written_view() == if source.spec_policy()
            == Policy::CatalogUpsert {
            cycle_writes(self.osdr_service.repo@, fetched, now)
        } else {
            self.osdr_service.written_view()
        }
        &&& after.space_service.cache@ == if source.spec_policy() == Policy::CacheLatest {
            cached_after(self.space_service.cache@, source.spec_name(), fetched, now)
        } else {
            self.space_service.cache@
        }
        &&& after.settings == self.settings
        &&& after.iss_service.iss_url == self.iss_service.iss_url
        &&& after.osdr_service.nasa_url == self.osdr_service.nasa_url
        &&& after.space_service.nasa_key == self.space_service.nasa_key
        &&& after.space_service.apod_url == self.space_service.apod_url
        &&& after.space_service.neo_url == self.space_service.neo_url
        &&& after.space_service.donki_flr_url == self.space_service.donki_flr_url
        &&& after.space_service.donki_cme_url == self.space_service.donki_cme_url
        &&& after.space_service.spacex_next_url == self.space_service.spacex_next_url
    }

    /// The request of one cycle of a source on the day `today`; `None`
    /// where its date window would begin before the first day there is.
    pub fn request_for(&self, source: Source, today: Date) -> (out: Option<Request>)
        ensures
            match out {
                Some(r) => AppState::can_request(source, today@) && self.is_request_of(
                    r,
                    source,
                    today@,
                ),
                None => !AppState::can_request(source, today@),
            },
    {
        match source.policy() {
            Policy::AppendPosition => Some(self.iss_service.request()),
            Policy::CatalogUpsert => Some(self.osdr_service.request()),
            Policy::CacheLatest => self.space_service.request_for(source, today),
        }
    }

    /// One fetch cycle of a source, given what was fetched: the payload goes
    /// to the store of the source's policy. A cycle that fails, or that has
    /// nothing to do, writes nothing.
    pub fn run_cycle(&mut self, source: Source, fetched: &Fetched, now: Timestamp) -> (out: Result<
        Cycle,
        FetchError,
    >)
        requires
            old(self).wf(),
        ensures
            final(self).wf(),
            out == old(self).cycle_of(source, *fetched),
            old(self).cycle_leads_to(final(self), source, *fetched, now@),
            final(self).job_service@ == old(self).job_service@,
    {
        match source.policy() {
            Policy::AppendPosition => self.iss_service.fetch_and_store_iss(fetched, now),
            Policy::CatalogUpsert => self.osdr_service.fetch_and_store_osdr(fetched, now),
            Policy::CacheLatest => self.space_service.fetch_and_cache(source.name(), fetched, now),
        }
    }

    /// One fetch cycle on demand, whatever the schedule. The failure of the
    /// cycle is the caller's to see; a cycle that had nothing to do counts as
    /// done.
    pub fn trigger_fetch(&mut self, source: Source, fetched: &Fetched, now: Timestamp) -> (out:
        Result<(), FetchError>)
        requires
            old(self).wf(),
        ensures
            final(self).wf(),
            match old(self).cycle_of(source, *fetched) {
                Ok(_) => out is Ok,
                Err(e) => out == Err::<(), FetchError>(e),
            },
            old(self).cycle_leads_to(final(self), source, *fetched, now@),
            final(self).job_service@ == old(self).job_service@,
    {
        match self.run_cycle(source, fetched, now) {
            Ok(_) => Ok(()),
            Err(e) => Err(e),
        }
    }

    /// A tick of a source's timer. Where a cycle is to start now, returns
    /// its request, and the source's job counts as running until `complete`
    /// is called. The stores are not touched.
    pub fn tick(&mut self, source: Source, today: Date) -> (out: Option<Request>)
        requires
            old(self).wf(),
        ensures
            final(self).wf(),
            out is Some <==> AppState::can_request(source, today@) && tick_starts(
                old(self).job_service@,
                source,
            ),
            out matches Some(r) ==> old(self).is_request_of(r, source, today@),
            final(self).job_service@ == if AppState::can_request(source, today@) {
                ticked(old(self).job_service@, source)
            } else {
                old(self).job_service@
            },
            final(self).iss_service == old(self).iss_service,
            final(self).osdr_service == old(self).osdr_service,
            final(self).space_service == old(self).space_service,
            final(self).settings == old(self).settings,
    {
        match self.request_for(source, today) {
            Some(r) => if self.job_service.tick(source) {
                Some(r)
            } else {
                None
            },
            None => None,
        }
    }

    /// The end of a scheduled cycle, given what was fetched: the cycle is
    /// run, and its outcome is remembered in the source's job. A failure
    /// stops nothing: it is returned to be logged, the job is idle again,
    /// and the jobs and stores of the other sources are as they were.
    pub fn complete(&mut self, source: Source, fetched: &Fetched, now: Timestamp) -> (out: Result<
        Cycle,
        FetchError,
    >)
        requires
            old(self).wf(),
        ensures
            final(self).wf(),
            out == old(self).cycle_of(source, *fetched),
            old(self).cycle_leads_to(final(self), source, *fetched, now@),
            final(self).job_service@ == finished(old(self).job_service@, source, out),
    {
        let outcome = self.run_cycle(source, fetched, now);
        self.job_service.finish(source, &outcome);
        outcome
    }

    /// The end of a scheduled cycle whose payload went to an outside store
    /// as well: `outcome` is how the cycle ended in the core, and `kept`
    /// whether the outside store kept what the cycle stored. The cycle ends
    /// as `settled` says, and that is remembered in the source's job. A
    /// failure stops nothing: it is returned to be logged, and the job is
    /// idle again.
    pub fn conclude(&mut self, source: Source, outcome: Result<Cycle, FetchError>, kept: bool) -> (out:
        Result<Cycle, FetchError>)
        requires
            old(self).wf(),
        ensures
            final(self).wf(),
            out == settled(outcome, kept),
            final(self).job_service@ == finished(old(self).job_service@, source, out),
            final(self).iss_service == old(self).iss_service,
            final(self).osdr_service == old(self).osdr_service,
            final(self).space_service == old(self).space_service,
            final(self).settings == old(self).settings,
    {
        let out = settle(outcome, kept);
        self.job_service.finish(source, &out);
        out
    }

    /// Starts the scheduler and returns the timers to run.
    pub fn start_scheduler(&mut self) -> (out: Vec<(Source, u64)>)
        requires
            old(self).wf(),
        ensures
            final(self).wf(),
            final(self).job_service@.started,
            final(self).job_service@.jobs == old(self).job_service@.jobs,
            out@ == timers(old(self).job_service@.jobs, SOURCE_COUNT as int),
            final(self).iss_service == old(self).iss_service,
            final(self).osdr_service == old(self).osdr_service,
            final(self).space_service == old(self).space_service,
            final(self).settings == old(self).settings,
    {
        self.job_service.spawn_all_jobs()
    }

    /// Stops the scheduler.
    pub fn stop_scheduler(&mut self)
        requires
            old(self).wf(),
        ensures
            final(self).wf(),
            !final(self).job_service@.started,
            final(self).job_service@.jobs == old(self).job_service@.jobs,
            final(self).iss_service == old(self).iss_service,
            final(self).osdr_service == old(self).osdr_service,
            final(self).space_service == old(self).space_service,
            final(self).settings == old(self).settings,
    {
        self.job_service.stop()
    }

    /// The newest cached document of a source; `NotFound` where none was
    /// ever stored.
    pub fn get_latest_cached(&self, source: Source) -> (out: Result<&Value, NotFound>)
        requires
            self.wf(),
        ensures
            match out {
                Ok(v) => self.space_service.cache@.dom().contains(source.spec_name()) && json_of(
                    *v,
                ) == self.space_service.cache@[source.spec_name()].payload,
                Err(_) => !self.space_service.cache@.dom().contains(source.spec_name()),
            },
    {
        self.space_service.cache.get_latest(source.name())
    }

    /// The newest position snapshot; `NotFound` where the log is empty.
    pub fn get_latest_position(&self) -> (out: Result<&IssFetchLog, NotFound>)
        ensures
            match out {
                Ok(row) => self.iss_service.repo@.len() > 0 && row@
                    == self.iss_service.repo@.last(),
                Err(_) => self.iss_service.repo@.len() == 0,
            },
    {
        self.iss_service.get_last_iss()
    }

    /// The trend between the two newest snapshots; with fewer than two,
    /// the trend without movement. It never fails.
    pub fn get_trend(&self) -> (out: Trend)
        ensures
            out@ == trend_of(self.iss_service.repo@),
    {
        self.iss_service.get_trend()
    }

    /// The `limit` catalog rows touched most recently, newest first.
    pub fn list_catalog(&self, limit: i64) -> (out: Result<Vec<CatalogItem>, FetchError>)
        ensures
            match out {
                Ok(items) => limit >= 0 && Seq::new(items@.len(), |i: int| items@[i]@)
                    == newest_first(self.osdr_service.repo@, limit as int),
                Err(e) => limit < 0 && e == FetchError::StoreUnavailable,
            },
    {
        self.osdr_service.repo.list(limit)
    }

    /// Copies of the rows that the last catalog cycle wrote, in the order
    /// in which it wrote them; none where it wrote nothing.
    pub fn catalog_writes(&self) -> (out: &Vec<CatalogItem>)
        ensures
            Seq::new(out@.len(), |i: int| out@[i]@) == self.osdr_service.written_view(),
    {
        &self.osdr_service.written
    }

    /// The number of catalog rows.
    pub fn count_catalog(&self) -> (out: u64)
        ensures
            out == self.osdr_service.repo@.len(),
    {
        self.osdr_service.repo.count()
    }
}

/// A cycle of one source leaves the stores of the other policies, the
/// scheduler and every other source's cached document as they were,
/// whatever was fetched: a fetcher that fails cannot hold another one up.
pub proof fn lemma_cycles_are_isolated(
    before: AppState,
    after: AppState,
    a: Source,
    b: Source,
    fetched: Fetched,
    now: int,
)
    requires
        before.cycle_leads_to(&after, a, fetched, now),
        a != b,
    ensures
        b.spec_policy() != a.spec_policy() && b.spec_policy() == Policy::AppendPosition
            ==> after.iss_service.repo@ == before.iss_service.repo@,
        b.spec_policy() != a.spec_policy() && b.spec_policy() == Policy::CatalogUpsert
            ==> after.osdr_service.repo@ == before.osdr_service.repo@,
        after.space_service.cache@.dom().contains(b.spec_name())
            == before.space_service.cache@.dom().contains(b.spec_name()),
        before.space_service.cache@.dom().contains(b.spec_name())
            ==> after.space_service.cache@[b.spec_name()]
            == before.space_service.cache@[b.spec_name()],
{
    crate::domain::models::lemma_names_differ(a, b);
}

/// A cycle that fails writes nothing at all.
pub proof fn lemma_failed_cycle_writes_nothing(
    before: AppState,
    after: AppState,
    a: Source,
    fetched: Fetched,
    now: int,
)
    requires
        before.cycle_leads_to(&after, a, fetched, now),
        before.cycle_of(a, fetched) is Err,
    ensures
        after.iss_service.repo@ == before.iss_service.repo@,
        after.osdr_service.repo@ == before.osdr_service.repo@,
        after.space_service.cache@ == before.space_service.cache@,
{
}

} // verus!
