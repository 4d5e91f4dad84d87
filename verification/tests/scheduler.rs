use rust_iss::domain::error::FetchError;
use rust_iss::domain::models::{Cycle, Policy, Source};
use rust_iss::services::job_service::{JobService, JobState, LastCycle};

const ALL: [Source; 7] = [
    Source::Iss,
    Source::Apod,
    Source::Neo,
    Source::Flr,
    Source::Cme,
    Source::Spacex,
    Source::Osdr,
];

#[test]
fn sources_have_names_places_and_policies() {
    let names: Vec<&str> = ALL.iter().map(|s| s.name()).collect();
    assert_eq!(names, vec!["iss", "apod", "neo", "flr", "cme", "spacex", "osdr"]);
    for (i, s) in ALL.iter().enumerate() {
        assert_eq!(s.index(), i);
        assert_eq!(Source::from_index(i), Some(*s));
    }
    assert_eq!(Source::from_index(7), None);
    assert_eq!(Source::from_index(usize::MAX), None);
    assert_eq!(Source::Iss.policy(), Policy::AppendPosition);
    assert_eq!(Source::Osdr.policy(), Policy::CatalogUpsert);
    for s in [Source::Apod, Source::Neo, Source::Flr, Source::Cme, Source::Spacex] {
        assert_eq!(s.policy(), Policy::CacheLatest);
    }
}

#[test]
fn new_scheduler_holds_the_periods() {
    let js = JobService::new(1, 2, 3, 4, 5, 6);
    assert!(!js.is_started());
    let periods: Vec<u64> = ALL.iter().map(|s| js.job(*s).period).collect();
    assert_eq!(periods, vec![1, 3, 4, 5, 5, 6, 2]);
    for s in ALL {
        let job = js.job(s);
        assert_eq!(job.source, s);
        assert_eq!(job.state, JobState::Idle);
        assert_eq!(job.last, LastCycle::Never);
    }
}

#[test]
fn spawning_returns_a_timer_for_each_enabled_job() {
    let mut js = JobService::new(120, 0, 43200, 0, 3600, 3600);
    let timers = js.spawn_all_jobs();
    assert!(js.is_started());
    assert_eq!(
        timers,
        vec![
            (Source::Iss, 120),
            (Source::Apod, 43200),
            (Source::Flr, 3600),
            (Source::Cme, 3600),
            (Source::Spacex, 3600),
        ]
    );
    let mut none = JobService::new(0, 0, 0, 0, 0, 0);
    assert!(none.spawn_all_jobs().is_empty());
}

#[test]
fn no_tick_starts_a_cycle_before_the_start() {
    let mut js = JobService::new(1, 1, 1, 1, 1, 1);
    assert!(!js.tick(Source::Iss));
    assert_eq!(js.job(Source::Iss).state, JobState::Idle);
    js.spawn_all_jobs();
    assert!(js.tick(Source::Iss));
}

#[test]
fn zero_period_disables_a_job() {
    let mut js = JobService::new(0, 1, 1, 1, 1, 1);
    js.spawn_all_jobs();
    assert!(!js.tick(Source::Iss));
    assert!(!js.tick(Source::Iss));
    assert_eq!(js.job(Source::Iss).state, JobState::Idle);
    assert!(js.tick(Source::Osdr));
}

#[test]
fn cycles_of_one_source_do_not_overlap() {
    let mut js = JobService::new(1, 1, 1, 1, 1, 1);
    js.spawn_all_jobs();
    assert!(js.tick(Source::Neo));
    assert_eq!(js.job(Source::Neo).state, JobState::Running);
    assert!(!js.tick(Source::Neo));
    assert!(!js.tick(Source::Neo));
    js.finish(Source::Neo, &Ok(Cycle::Stored { written: 1 }));
    assert_eq!(js.job(Source::Neo).state, JobState::Idle);
    assert_eq!(js.job(Source::Neo).last, LastCycle::Stored);
    assert!(js.tick(Source::Neo));
}

#[test]
fn failing_fetcher_does_not_stop_the_others() {
    let mut js = JobService::new(1, 1, 1, 1, 1, 1);
    js.spawn_all_jobs();
    for round in 0..5 {
        assert!(js.tick(Source::Apod), "round {}", round);
        assert!(js.tick(Source::Iss), "round {}", round);
        js.finish(Source::Apod, &Err(FetchError::UpstreamUnavailable));
        js.finish(Source::Iss, &Ok(Cycle::Stored { written: 1 }));
        assert_eq!(js.job(Source::Apod).last, LastCycle::Failed);
        assert_eq!(js.job(Source::Apod).state, JobState::Idle);
        assert_eq!(js.job(Source::Apod).period, 1);
        assert_eq!(js.job(Source::Iss).last, LastCycle::Stored);
        assert_eq!(js.job(Source::Neo).last, LastCycle::Never);
    }
    assert!(js.is_started());
}

#[test]
fn failure_while_another_cycle_runs() {
    let mut js = JobService::new(1, 1, 1, 1, 1, 1);
    js.spawn_all_jobs();
    assert!(js.tick(Source::Osdr));
    assert!(js.tick(Source::Flr));
    js.finish(Source::Flr, &Err(FetchError::MalformedResponse));
    assert_eq!(js.job(Source::Osdr).state, JobState::Running);
    assert_eq!(js.job(Source::Osdr).last, LastCycle::Never);
    assert!(js.tick(Source::Flr));
    assert!(js.tick(Source::Cme));
}

#[test]
fn outcomes_are_remembered() {
    let mut js = JobService::new(1, 1, 1, 1, 1, 1);
    js.spawn_all_jobs();
    js.tick(Source::Cme);
    js.finish(Source::Cme, &Ok(Cycle::Skipped));
    assert_eq!(js.job(Source::Cme).last, LastCycle::Skipped);
    js.tick(Source::Cme);
    js.finish(Source::Cme, &Err(FetchError::StoreUnavailable));
    assert_eq!(js.job(Source::Cme).last, LastCycle::Failed);
    js.tick(Source::Cme);
    js.finish(Source::Cme, &Ok(Cycle::Stored { written: 0 }));
    assert_eq!(js.job(Source::Cme).last, LastCycle::Stored);
}

#[test]
fn finish_without_a_running_cycle_changes_nothing() {
    let mut js = JobService::new(1, 1, 1, 1, 1, 1);
    js.spawn_all_jobs();
    js.finish(Source::Spacex, &Err(FetchError::UpstreamUnavailable));
    assert_eq!(js.job(Source::Spacex).last, LastCycle::Never);
    assert_eq!(js.job(Source::Spacex).state, JobState::Idle);
}

#[test]
fn stopping_lets_a_running_cycle_end() {
    let mut js = JobService::new(1, 1, 1, 1, 1, 1);
    js.spawn_all_jobs();
    assert!(js.tick(Source::Iss));
    js.stop();
    assert!(!js.is_started());
    assert_eq!(js.job(Source::Iss).state, JobState::Running);
    assert!(!js.tick(Source::Apod));
    js.finish(Source::Iss, &Ok(Cycle::Stored { written: 1 }));
    assert_eq!(js.job(Source::Iss).state, JobState::Idle);
    assert!(!js.tick(Source::Iss));
    js.spawn_all_jobs();
    assert!(js.tick(Source::Iss));
}
