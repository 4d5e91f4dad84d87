use rust_iss::domain::error::{FetchError, NotFound};
use rust_iss::domain::models::{document, screen, Cycle, Fetched, Source};
use rust_iss::repo::cache_repo::CacheRepo;
use rust_iss::repo::iss_repo::IssRepo;
use rust_iss::repo::osdr_repo::OsdrRepo;
use rust_iss::services::iss_service::{read, IssService};
use rust_iss::services::osdr_service::{ListShape, OsdrService, Wrapper};
use rust_iss::services::space_service::{both, SpaceService};
use rust_iss::time::{Date, Timestamp};
use serde_json::Value;

fn doc(text: &str) -> Value {
    serde_json::from_str(text).unwrap()
}

fn at(secs: i64) -> Timestamp {
    Timestamp::from_unix_seconds(secs).unwrap()
}

fn answer(status: u16, body: &str) -> Fetched {
    Fetched::Response { status, body: body.as_bytes().to_vec() }
}

fn space(key: &str) -> SpaceService {
    SpaceService::new(
        CacheRepo::new(),
        key.to_string(),
        "http://apod".to_string(),
        "http://neo".to_string(),
        "http://flr".to_string(),
        "http://cme".to_string(),
        "http://spacex".to_string(),
    )
}

fn pairs(query: &[(String, String)]) -> Vec<(&str, &str)> {
    query.iter().map(|(k, v)| (k.as_str(), v.as_str())).collect()
}

#[test]
fn statuses_are_screened() {
    assert!(matches!(screen(&answer(200, "x")), Ok(Some(_))));
    assert!(matches!(screen(&answer(299, "x")), Ok(Some(_))));
    assert!(matches!(screen(&answer(204, "")), Ok(Some(_))));
    assert!(matches!(screen(&answer(403, "x")), Ok(None)));
    assert_eq!(screen(&answer(199, "x")).err(), Some(FetchError::UpstreamRejected { status: 199 }));
    assert_eq!(screen(&answer(300, "x")).err(), Some(FetchError::UpstreamRejected { status: 300 }));
    assert_eq!(screen(&answer(401, "x")).err(), Some(FetchError::UpstreamRejected { status: 401 }));
    assert_eq!(screen(&answer(404, "x")).err(), Some(FetchError::UpstreamRejected { status: 404 }));
    assert_eq!(screen(&answer(500, "x")).err(), Some(FetchError::UpstreamRejected { status: 500 }));
    assert_eq!(screen(&Fetched::Unreachable).err(), Some(FetchError::UpstreamUnavailable));
    assert_eq!(screen(&answer(200, "body")).unwrap().unwrap().as_slice(), b"body");
}

#[test]
fn bodies_are_read_as_json() {
    assert_eq!(document(&answer(200, r#"{"a": [1, 2]}"#)).unwrap(), Some(doc(r#"{"a": [1, 2]}"#)));
    assert_eq!(document(&answer(200, " 7 ")).unwrap(), Some(doc("7")));
    assert_eq!(document(&answer(200, "{")).err(), Some(FetchError::MalformedResponse));
    assert_eq!(document(&answer(200, "")).err(), Some(FetchError::MalformedResponse));
    assert_eq!(document(&answer(200, "1 2")).err(), Some(FetchError::MalformedResponse));
    assert_eq!(document(&answer(403, "{")).unwrap(), None);
    assert_eq!(document(&answer(500, "{}")).err(), Some(FetchError::UpstreamRejected { status: 500 }));
    assert_eq!(document(&Fetched::Unreachable).err(), Some(FetchError::UpstreamUnavailable));
}

#[test]
fn success_is_cached_under_the_source_key() {
    let mut s = space("k");
    let out = s.fetch_and_cache("apod", &answer(200, r#"{"url": "u"}"#), at(50));
    assert_eq!(out, Ok(Cycle::Stored { written: 1 }));
    assert_eq!(s.cache.get_latest("apod").unwrap(), &doc(r#"{"url": "u"}"#));
    assert_eq!(s.cache.get_entry("apod").unwrap().fetched_at.seconds(), 50);
}

#[test]
fn forbidden_completes_without_writing() {
    let mut s = space("k");
    assert_eq!(s.fetch_apod(&answer(403, "denied"), at(1)), Ok(Cycle::Skipped));
    assert_eq!(s.cache.get_latest("apod").err(), Some(NotFound));
    s.fetch_apod(&answer(200, "1"), at(2)).unwrap();
    assert_eq!(s.fetch_apod(&answer(403, r#"{"error": "x"}"#), at(3)), Ok(Cycle::Skipped));
    assert_eq!(s.cache.get_latest("apod").unwrap(), &doc("1"));
    assert_eq!(s.cache.get_entry("apod").unwrap().fetched_at.seconds(), 2);
}

#[test]
fn failure_leaves_the_cache_as_it_was() {
    let mut s = space("k");
    s.fetch_neo(&answer(200, r#"{"n": 1}"#), at(1)).unwrap();
    assert_eq!(
        s.fetch_neo(&answer(500, r#"{"n": 2}"#), at(2)),
        Err(FetchError::UpstreamRejected { status: 500 })
    );
    assert_eq!(s.fetch_neo(&Fetched::Unreachable, at(3)), Err(FetchError::UpstreamUnavailable));
    assert_eq!(s.fetch_neo(&answer(200, "not json"), at(4)), Err(FetchError::MalformedResponse));
    assert_eq!(s.cache.get_latest("neo").unwrap(), &doc(r#"{"n": 1}"#));
    assert_eq!(s.cache.get_entry("neo").unwrap().fetched_at.seconds(), 1);
}

#[test]
fn each_feed_has_its_key() {
    let mut s = space("");
    s.fetch_apod(&answer(200, "1"), at(1)).unwrap();
    s.fetch_neo(&answer(200, "2"), at(1)).unwrap();
    s.fetch_spacex_next(&answer(200, "3"), at(1)).unwrap();
    s.store_document("custom", &doc("4"), at(1));
    assert_eq!(s.cache.get_latest("apod").unwrap(), &doc("1"));
    assert_eq!(s.cache.get_latest("neo").unwrap(), &doc("2"));
    assert_eq!(s.cache.get_latest("spacex").unwrap(), &doc("3"));
    assert_eq!(s.cache.get_latest("custom").unwrap(), &doc("4"));
}

#[test]
fn solar_feeds_are_stored_each_on_its_own() {
    let mut s = space("");
    assert_eq!(
        s.fetch_donki(&answer(200, "1"), &answer(200, "2"), at(1)),
        Ok(Cycle::Stored { written: 2 })
    );
    assert_eq!(s.cache.get_latest("flr").unwrap(), &doc("1"));
    assert_eq!(s.cache.get_latest("cme").unwrap(), &doc("2"));
    assert_eq!(
        s.fetch_donki(&answer(500, "3"), &answer(200, "4"), at(2)),
        Err(FetchError::UpstreamRejected { status: 500 })
    );
    assert_eq!(s.cache.get_latest("flr").unwrap(), &doc("1"));
    assert_eq!(s.cache.get_entry("flr").unwrap().fetched_at.seconds(), 1);
    assert_eq!(s.cache.get_latest("cme").unwrap(), &doc("4"));
    assert_eq!(s.cache.get_entry("cme").unwrap().fetched_at.seconds(), 2);
    assert_eq!(
        s.fetch_donki(&answer(200, "5"), &Fetched::Unreachable, at(3)),
        Err(FetchError::UpstreamUnavailable)
    );
    assert_eq!(s.cache.get_latest("flr").unwrap(), &doc("5"));
    assert_eq!(s.cache.get_latest("cme").unwrap(), &doc("4"));
    assert_eq!(
        s.fetch_donki(&answer(403, ""), &answer(200, "6"), at(4)),
        Ok(Cycle::Stored { written: 1 })
    );
    assert_eq!(s.cache.get_latest("flr").unwrap(), &doc("5"));
    assert_eq!(s.cache.get_latest("cme").unwrap(), &doc("6"));
    assert_eq!(s.fetch_donki(&answer(403, ""), &answer(403, ""), at(5)), Ok(Cycle::Skipped));
}

#[test]
fn first_failure_of_the_solar_feeds_is_the_cycle_s() {
    let mut s = space("");
    assert_eq!(
        s.fetch_donki(&answer(500, "x"), &Fetched::Unreachable, at(1)),
        Err(FetchError::UpstreamRejected { status: 500 })
    );
    assert_eq!(
        s.fetch_donki(&Fetched::Unreachable, &answer(500, "x"), at(2)),
        Err(FetchError::UpstreamUnavailable)
    );
    assert_eq!(
        s.fetch_donki(&answer(403, "x"), &answer(200, "{"), at(3)),
        Err(FetchError::MalformedResponse)
    );
    assert_eq!(s.cache.get_latest("flr").err(), Some(NotFound));
    assert_eq!(s.cache.get_latest("cme").err(), Some(NotFound));
}

#[test]
fn failed_flares_do_not_stop_the_mass_ejections() {
    let mut s = space("k");
    let today = Date::from_day_number(738_887).unwrap();
    let flr = s.request_for(Source::Flr, today).unwrap();
    let cme = s.request_for(Source::Cme, today).unwrap();
    for r in [&flr, &cme] {
        assert_eq!(r.query[0], ("startDate".to_string(), "2023-12-28".to_string()));
        assert_eq!(r.query[1], ("endDate".to_string(), "2024-01-02".to_string()));
    }
    s.fetch_donki_flr(&answer(200, r#"["old flare"]"#), at(1)).unwrap();
    let out = s.fetch_donki(&answer(502, "bad gateway"), &answer(200, r#"{"b": true}"#), at(9));
    assert_eq!(out, Err(FetchError::UpstreamRejected { status: 502 }));
    assert_eq!(s.cache.get_latest("cme").unwrap(), &doc(r#"{"b": true}"#));
    assert_eq!(s.cache.get_latest("flr").unwrap(), &doc(r#"["old flare"]"#));
    assert_eq!(s.nasa_key, "k");
    assert_eq!(s.donki_flr_url, "http://flr");
    assert_eq!(s.donki_cme_url, "http://cme");
}

#[test]
fn cycles_taken_together() {
    assert_eq!(both(Cycle::Skipped, Cycle::Skipped), Cycle::Skipped);
    assert_eq!(both(Cycle::Stored { written: 2 }, Cycle::Skipped), Cycle::Stored { written: 2 });
    assert_eq!(both(Cycle::Skipped, Cycle::Stored { written: 0 }), Cycle::Stored { written: 0 });
    assert_eq!(
        both(Cycle::Stored { written: 2 }, Cycle::Stored { written: 3 }),
        Cycle::Stored { written: 5 }
    );
}

#[test]
fn requests_carry_the_credential_last() {
    let s = space("secret");
    let today = Date::from_day_number(738_887).unwrap();
    let apod = s.request_for(Source::Apod, today).unwrap();
    assert_eq!(apod.url, "http://apod");
    assert_eq!(pairs(&apod.query), vec![("thumbs", "true"), ("api_key", "secret")]);
    assert_eq!(apod.timeout_secs, 30);
    let neo = s.request_for(Source::Neo, today).unwrap();
    assert_eq!(neo.url, "http://neo");
    assert_eq!(
        pairs(&neo.query),
        vec![("start_date", "2023-12-31"), ("end_date", "2024-01-02"), ("api_key", "secret")]
    );
    let flr = s.request_for(Source::Flr, today).unwrap();
    assert_eq!(flr.url, "http://flr");
    assert_eq!(
        pairs(&flr.query),
        vec![("startDate", "2023-12-28"), ("endDate", "2024-01-02"), ("api_key", "secret")]
    );
    let cme = s.request_for(Source::Cme, today).unwrap();
    assert_eq!(cme.url, "http://cme");
    assert_eq!(pairs(&cme.query), pairs(&flr.query));
    let spacex = s.request_for(Source::Spacex, today).unwrap();
    assert_eq!(spacex.url, "http://spacex");
    assert_eq!(pairs(&spacex.query), vec![("api_key", "secret")]);
}

#[test]
fn requests_without_a_credential() {
    let s = space("");
    let today = Date::from_day_number(738_887).unwrap();
    assert_eq!(pairs(&s.request_for(Source::Apod, today).unwrap().query), vec![("thumbs", "true")]);
    assert!(s.request_for(Source::Spacex, today).unwrap().query.is_empty());
    let r = s.prepare("http://any", vec![("a".to_string(), "b".to_string())]);
    assert_eq!(r.url, "http://any");
    assert_eq!(pairs(&r.query), vec![("a", "b")]);
    assert_eq!(r.timeout_secs, 30);
}

#[test]
fn requests_only_for_cached_sources_and_windows_in_range() {
    let s = space("");
    let today = Date::from_day_number(738_887).unwrap();
    assert!(s.request_for(Source::Iss, today).is_none());
    assert!(s.request_for(Source::Osdr, today).is_none());
    let first = Date::from_day_number(rust_iss::time::MIN_DAY).unwrap();
    assert!(s.request_for(Source::Apod, first).is_some());
    assert!(s.request_for(Source::Neo, first).is_none());
    assert!(s.request_for(Source::Flr, first).is_none());
    let fifth = Date::from_day_number(rust_iss::time::MIN_DAY + 4).unwrap();
    assert!(s.request_for(Source::Neo, fifth).is_some());
    assert!(s.request_for(Source::Cme, fifth).is_none());
}

#[test]
fn response_shapes_are_resolved() {
    assert_eq!(OsdrService::resolve(&doc("[]")), ListShape::Array);
    assert_eq!(OsdrService::resolve(&doc(r#"{"items": []}"#)), ListShape::WrappedArray(Wrapper::Items));
    assert_eq!(
        OsdrService::resolve(&doc(r#"{"results": [1]}"#)),
        ListShape::WrappedArray(Wrapper::Results)
    );
    assert_eq!(
        OsdrService::resolve(&doc(r#"{"items": [1], "results": [2]}"#)),
        ListShape::WrappedArray(Wrapper::Items)
    );
    assert_eq!(
        OsdrService::resolve(&doc(r#"{"items": "none", "results": [2]}"#)),
        ListShape::WrappedArray(Wrapper::Results)
    );
    assert_eq!(OsdrService::resolve(&doc(r#"{"items": 3}"#)), ListShape::SingleItem);
    assert_eq!(OsdrService::resolve(&doc(r#"{"id": "a"}"#)), ListShape::SingleItem);
    assert_eq!(OsdrService::resolve(&doc("null")), ListShape::SingleItem);
    assert_eq!(Wrapper::Items.field(), "items");
    assert_eq!(Wrapper::Results.field(), "results");
}

#[test]
fn array_of_two_items_gives_two_rows() {
    let mut s = OsdrService::new(OsdrRepo::new(), "http://osdr".to_string());
    let written = s.ingest(&doc(r#"[{"id": "a", "title": "A"}, {"id": "b", "title": "B"}]"#), at(10));
    assert_eq!(written, 2);
    assert_eq!(s.repo.count(), 2);
    let again = s.ingest(&doc(r#"[{"id": "a", "title": "new"}]"#), at(20));
    assert_eq!(again, 1);
    assert_eq!(s.repo.count(), 2);
    let a = s.repo.get("a").unwrap();
    assert_eq!(a.title.as_deref(), Some("new"));
    assert_eq!(a.first_seen_at.seconds(), 10);
    assert_eq!(a.last_touched_at.seconds(), 20);
    assert_eq!(a.raw, doc(r#"{"id": "a", "title": "new"}"#));
    let b = s.repo.get("b").unwrap();
    assert_eq!(b.title.as_deref(), Some("B"));
    assert_eq!(b.first_seen_at.seconds(), 10);
    assert_eq!(b.last_touched_at.seconds(), 10);
    assert_eq!(b.raw, doc(r#"{"id": "b", "title": "B"}"#));
}

#[test]
fn wrapped_and_single_responses_are_taken_in() {
    let mut s = OsdrService::new(OsdrRepo::new(), "http://osdr".to_string());
    assert_eq!(s.ingest(&doc(r#"{"items": [{"id": "a"}, {"id": "b"}]}"#), at(1)), 2);
    assert_eq!(s.ingest(&doc(r#"{"results": [{"id": "c"}]}"#), at(2)), 1);
    assert_eq!(s.ingest(&doc(r#"{"id": "d", "name": "single"}"#), at(3)), 1);
    assert_eq!(s.repo.count(), 4);
    assert_eq!(s.repo.get("d").unwrap().title.as_deref(), Some("single"));
    assert_eq!(s.ingest(&doc("[]"), at(4)), 0);
    assert_eq!(s.repo.count(), 4);
}

#[test]
fn fields_are_extracted_by_candidate_keys() {
    let mut s = OsdrService::new(OsdrRepo::new(), "u".to_string());
    let item = doc(
        r#"{"uuid": "u-7", "accession": "acc", "name": "N", "label": "L",
            "state": "open", "lastUpdated": "2024-01-02T03:04:05Z", "timestamp": 5}"#,
    );
    assert!(s.ingest_one(&item, at(9)));
    let row = s.repo.get("u-7").unwrap();
    assert_eq!(row.title.as_deref(), Some("N"));
    assert_eq!(row.status.as_deref(), Some("open"));
    assert_eq!(row.updated_at.unwrap().seconds(), 1_704_164_645);
    assert_eq!(row.raw, item);
    assert!(s.repo.get("acc").is_none());
}

#[test]
fn numeric_identifier_is_used_as_text() {
    let mut s = OsdrService::new(OsdrRepo::new(), "u".to_string());
    assert_eq!(s.ingest(&doc(r#"[{"id": 42}, {"id": 42, "title": "t"}]"#), at(1)), 2);
    assert_eq!(s.repo.count(), 1);
    assert_eq!(s.repo.get("42").unwrap().title.as_deref(), Some("t"));
}

#[test]
fn item_without_identifier_is_a_new_row_each_time() {
    let mut s = OsdrService::new(OsdrRepo::new(), "u".to_string());
    assert_eq!(s.ingest(&doc(r#"[{"title": "x"}, {"title": "x"}]"#), at(1)), 2);
    assert_eq!(s.ingest(&doc(r#"[{"title": "x"}]"#), at(2)), 1);
    assert_eq!(s.repo.count(), 3);
    let rows = s.repo.list(10).unwrap();
    assert!(rows.iter().all(|r| r.dataset_id.is_none()));
    assert!(rows.iter().all(|r| r.title.as_deref() == Some("x")));
}

#[test]
fn invalid_items_are_passed_over() {
    let mut s = OsdrService::new(OsdrRepo::new(), "u".to_string());
    let written = s.ingest(
        &doc(r#"[{"id": "a"}, 5, "text", {"id": "b", "title": 3}, {"id": "c", "status": ""}, {"id": "d"}]"#),
        at(1),
    );
    assert_eq!(written, 2);
    assert_eq!(s.repo.count(), 2);
    assert!(s.repo.get("a").is_some());
    assert!(s.repo.get("d").is_some());
    assert!(s.repo.get("b").is_none());
    assert!(s.repo.get("c").is_none());
    assert!(!s.ingest_one(&doc("null"), at(2)));
    assert_eq!(s.repo.count(), 2);
}

#[test]
fn catalog_cycle_by_status() {
    let mut s = OsdrService::new(OsdrRepo::new(), "http://osdr".to_string());
    assert_eq!(
        s.fetch_and_store_osdr(&answer(200, r#"[{"id": "a"}, {"id": "b"}, 1]"#), at(1)),
        Ok(Cycle::Stored { written: 2 })
    );
    assert_eq!(s.fetch_and_store_osdr(&answer(403, r#"[{"id": "z"}]"#), at(2)), Ok(Cycle::Skipped));
    assert_eq!(
        s.fetch_and_store_osdr(&answer(502, r#"[{"id": "z"}]"#), at(3)),
        Err(FetchError::UpstreamRejected { status: 502 })
    );
    assert_eq!(s.fetch_and_store_osdr(&answer(200, "["), at(4)), Err(FetchError::MalformedResponse));
    assert_eq!(s.fetch_and_store_osdr(&Fetched::Unreachable, at(5)), Err(FetchError::UpstreamUnavailable));
    assert_eq!(s.repo.count(), 2);
    assert!(s.repo.get("z").is_none());
    let r = s.request();
    assert_eq!(r.url, "http://osdr");
    assert!(r.query.is_empty());
    assert_eq!(r.timeout_secs, 45);
}

#[test]
fn position_cycle_by_status() {
    let mut s = IssService::new(IssRepo::new(), "http://iss".to_string());
    assert_eq!(s.get_last_iss().err(), Some(NotFound));
    assert_eq!(
        s.fetch_and_store_iss(&answer(200, r#"{"latitude": 10, "longitude": 20}"#), at(100)),
        Ok(Cycle::Stored { written: 1 })
    );
    assert_eq!(s.fetch_and_store_iss(&answer(403, "{}"), at(101)), Ok(Cycle::Skipped));
    assert_eq!(
        s.fetch_and_store_iss(&answer(500, "{}"), at(102)),
        Err(FetchError::UpstreamRejected { status: 500 })
    );
    assert_eq!(s.fetch_and_store_iss(&answer(200, "<html>"), at(103)), Err(FetchError::MalformedResponse));
    assert_eq!(s.fetch_and_store_iss(&Fetched::Unreachable, at(104)), Err(FetchError::UpstreamUnavailable));
    assert_eq!(s.repo.len(), 1);
    let last = s.get_last_iss().unwrap();
    assert_eq!(last.id, 1);
    assert_eq!(last.source_url, "http://iss");
    assert_eq!(last.fetched_at.seconds(), 100);
    assert_eq!(last.payload, doc(r#"{"latitude": 10, "longitude": 20}"#));
    let r = s.request();
    assert_eq!(r.url, "http://iss");
    assert!(r.query.is_empty());
    assert_eq!(r.timeout_secs, 20);
}

#[test]
fn trend_without_two_snapshots_has_no_movement() {
    let mut s = IssService::new(IssRepo::new(), "u".to_string());
    for _ in 0..2 {
        let t = s.get_trend();
        assert_eq!(t.dt_millis, 0);
        assert!(t.from_time.is_none() && t.to_time.is_none());
        assert!(t.velocity_kmh.is_none());
        assert!(t.from_lat.is_none() && t.from_lon.is_none());
        assert!(t.to_lat.is_none() && t.to_lon.is_none());
        assert!(!t.has_coordinates());
        s.record(&doc(r#"{"latitude": 10, "longitude": 20, "velocity": 27000}"#), at(1_000)).unwrap();
    }
}

#[test]
fn trend_between_identical_coordinates() {
    let mut s = IssService::new(IssRepo::new(), "u".to_string());
    s.record(&doc(r#"{"latitude": 1, "longitude": 2}"#), at(500)).unwrap();
    s.record(&doc(r#"{"latitude": 10, "longitude": 20}"#), at(1_000)).unwrap();
    s.record(&doc(r#"{"latitude": 10, "longitude": 20}"#), at(1_060)).unwrap();
    let t = s.get_trend();
    assert_eq!(t.from_time.unwrap().seconds(), 1_000);
    assert_eq!(t.to_time.unwrap().seconds(), 1_060);
    assert_eq!(t.dt_millis, 60_000);
    assert_eq!(t.dt_millis as f64 / 1000.0, 60.0);
    assert_eq!(t.from_lat, Some(doc("10")));
    assert_eq!(t.from_lon, Some(doc("20")));
    assert_eq!(t.to_lat, t.from_lat);
    assert_eq!(t.to_lon, t.from_lon);
    assert!(t.velocity_kmh.is_none());
    assert!(t.has_coordinates());
}

#[test]
fn trend_reads_velocity_from_the_newer_snapshot_only() {
    let mut s = IssService::new(IssRepo::new(), "u".to_string());
    s.record(&doc(r#"{"latitude": "51.5", "longitude": -0.12, "velocity": 1}"#), at(10)).unwrap();
    s.record(&doc(r#"{"latitude": 52, "longitude": "0.5", "velocity": 27580.5}"#), at(20)).unwrap();
    let t = s.get_trend();
    assert_eq!(t.velocity_kmh, Some(doc("27580.5")));
    assert_eq!(t.from_lat, Some(doc(r#""51.5""#)));
    assert_eq!(t.from_lon, Some(doc("-0.12")));
    assert_eq!(t.to_lat, Some(doc("52")));
    assert_eq!(t.to_lon, Some(doc(r#""0.5""#)));
    assert_eq!(t.dt_millis, 10_000);
    s.record(&doc(r#"{"latitude": 52, "longitude": 1}"#), at(30)).unwrap();
    assert!(s.get_trend().velocity_kmh.is_none());
}

#[test]
fn trend_with_absent_or_unusable_coordinates() {
    let mut s = IssService::new(IssRepo::new(), "u".to_string());
    s.record(&doc(r#"{"latitude": 1}"#), at(10)).unwrap();
    s.record(&doc(r#"{"latitude": null, "longitude": [2], "velocity": true}"#), at(25)).unwrap();
    let t = s.get_trend();
    assert_eq!(t.from_lat, Some(doc("1")));
    assert!(t.from_lon.is_none());
    assert!(t.to_lat.is_none());
    assert!(t.to_lon.is_none());
    assert!(t.velocity_kmh.is_none());
    assert!(!t.has_coordinates());
    assert_eq!(t.dt_millis, 15_000);
    assert_eq!(t.to_time.unwrap().seconds(), 25);
    s.record(&doc("[1, 2]"), at(30)).unwrap();
    let u = s.get_trend();
    assert!(u.to_lat.is_none() && u.from_lat.is_none());
    assert_eq!(u.dt_millis, 5_000);
}

#[test]
fn trend_span_is_signed() {
    let mut s = IssService::new(IssRepo::new(), "u".to_string());
    s.record(&doc("{}"), at(1_060)).unwrap();
    s.record(&doc("{}"), Timestamp::from_parts(1_000, 500_000_000).unwrap()).unwrap();
    let t = s.get_trend();
    assert_eq!(t.dt_millis, -59_500);
    assert_eq!(t.from_time.unwrap().seconds(), 1_060);
    assert_eq!(t.to_time.unwrap().nanos(), 500_000_000);
}

#[test]
fn readings_are_numbers_and_texts_only() {
    let payload = doc(r#"{"a": 1.5, "b": "x", "c": "", "d": null, "e": false, "f": {}, "g": []}"#);
    assert_eq!(read(&payload, "a"), Some(doc("1.5")));
    assert_eq!(read(&payload, "b"), Some(doc(r#""x""#)));
    assert_eq!(read(&payload, "c"), Some(doc(r#""""#)));
    for key in ["d", "e", "f", "g", "missing"] {
        assert_eq!(read(&payload, key), None);
    }
    assert_eq!(read(&doc("3"), "a"), None);
}

#[test]
fn each_solar_feed_has_its_own_cycle() {
    let mut s = space("");
    assert_eq!(s.fetch_donki_flr(&answer(200, r#"["flare"]"#), at(1)), Ok(Cycle::Stored { written: 1 }));
    assert_eq!(s.cache.get_latest("flr").unwrap(), &doc(r#"["flare"]"#));
    assert_eq!(s.cache.get_latest("cme").err(), Some(NotFound));
    assert_eq!(s.fetch_donki_cme(&answer(403, "no"), at(2)), Ok(Cycle::Skipped));
    assert_eq!(s.cache.get_latest("cme").err(), Some(NotFound));
    assert_eq!(
        s.fetch_donki_cme(&answer(503, "busy"), at(3)),
        Err(FetchError::UpstreamRejected { status: 503 })
    );
    assert_eq!(s.fetch_donki_cme(&answer(200, "[]"), at(4)), Ok(Cycle::Stored { written: 1 }));
    assert_eq!(s.cache.get_latest("cme").unwrap(), &doc("[]"));
    assert_eq!(s.cache.get_latest("flr").unwrap(), &doc(r#"["flare"]"#));
}

#[test]
fn list_of_items_is_taken_in_order() {
    let mut s = OsdrService::new(OsdrRepo::new(), "u".to_string());
    let items = vec![doc(r#"{"id": "a", "title": "1"}"#), doc("7"), doc(r#"{"id": "a", "title": "2"}"#)];
    assert_eq!(s.ingest_list(&items, at(4)), 2);
    assert_eq!(s.repo.count(), 1);
    assert_eq!(s.repo.get("a").unwrap().title.as_deref(), Some("2"));
    assert_eq!(s.ingest_list(&Vec::new(), at(5)), 0);
}

fn written_ids(s: &OsdrService) -> Vec<Option<String>> {
    s.written.iter().map(|r| r.dataset_id.clone()).collect()
}

#[test]
fn cycle_keeps_copies_of_the_rows_it_wrote() {
    let mut s = OsdrService::new(OsdrRepo::new(), "u".to_string());
    assert!(s.written.is_empty());
    s.fetch_and_store_osdr(&answer(200, r#"[{"id": "a", "title": "1"}, 5, {"title": "x"}, {"id": "b"}]"#), at(10))
        .unwrap();
    assert_eq!(written_ids(&s), vec![Some("a".to_string()), None, Some("b".to_string())]);
    assert_eq!(s.written[0].title.as_deref(), Some("1"));
    assert_eq!(s.written[0].first_seen_at.seconds(), 10);
    assert_eq!(s.written[1].title.as_deref(), Some("x"));
    assert_eq!(s.written[1].raw, doc(r#"{"title": "x"}"#));
    s.fetch_and_store_osdr(&answer(200, r#"[{"id": "b", "title": "again"}]"#), at(20)).unwrap();
    assert_eq!(written_ids(&s), vec![Some("b".to_string())]);
    assert_eq!(s.written[0].title.as_deref(), Some("again"));
    assert_eq!(s.written[0].first_seen_at.seconds(), 10);
    assert_eq!(s.written[0].last_touched_at.seconds(), 20);
    assert_eq!(s.repo.count(), 3);
}

#[test]
fn repeated_identifier_in_one_response_is_written_twice() {
    let mut s = OsdrService::new(OsdrRepo::new(), "u".to_string());
    s.ingest(&doc(r#"[{"title": "no id"}]"#), at(1));
    let out = s.fetch_and_store_osdr(
        &answer(200, r#"[{"id": "a", "title": "1"}, {"id": "a", "title": "2"}]"#),
        at(5),
    );
    assert_eq!(out, Ok(Cycle::Stored { written: 2 }));
    assert_eq!(s.repo.count(), 2);
    assert_eq!(written_ids(&s), vec![Some("a".to_string()), Some("a".to_string())]);
    assert_eq!(s.written[0].title.as_deref(), Some("1"));
    assert_eq!(s.written[1].title.as_deref(), Some("2"));
    assert_eq!(s.repo.get("a").unwrap().title.as_deref(), Some("2"));
}

#[test]
fn cycle_that_writes_nothing_keeps_no_copies() {
    let mut s = OsdrService::new(OsdrRepo::new(), "u".to_string());
    s.fetch_and_store_osdr(&answer(200, r#"[{"id": "a"}]"#), at(1)).unwrap();
    assert_eq!(s.written.len(), 1);
    s.fetch_and_store_osdr(&answer(403, "x"), at(2)).unwrap();
    assert!(s.written.is_empty());
    s.fetch_and_store_osdr(&answer(200, r#"[{"id": "a"}]"#), at(3)).unwrap();
    assert_eq!(s.written.len(), 1);
    assert!(s.fetch_and_store_osdr(&answer(500, "x"), at(4)).is_err());
    assert!(s.written.is_empty());
    s.ingest_one(&doc(r#"{"id": "c"}"#), at(5));
    s.ingest_one(&doc("7"), at(5));
    s.ingest_one(&doc(r#"{"id": "d"}"#), at(5));
    assert_eq!(written_ids(&s), vec![Some("c".to_string()), Some("d".to_string())]);
    assert_eq!(s.ingest(&doc("[]"), at(6)), 0);
    assert!(s.written.is_empty());
}
