//! The settings of the core, read from the variables of the environment
//! with a default for each.

use crate::domain::models::{query_view, AppState, CatalogRow, PositionRow};
use crate::repo::cache_repo::{CacheRepo, Cached};
use crate::repo::iss_repo::IssRepo;
use crate::repo::osdr_repo::OsdrRepo;
use crate::services::iss_service::IssService;
use crate::services::job_service::{fresh_jobs, JobService};
use crate::services::osdr_service::OsdrService;
use crate::services::space_service::SpaceService;
use vstd::prelude::*;

verus! {

/// The value of a decimal digit; none for any other character.
pub open spec fn digit_value(c: char) -> Option<int> {
    if c == '0' {
        Some(0)
    } else if c == '1' {
        Some(1)
    } else if c == '2' {
        Some(2)
    } else if c == '3' {
        Some(3)
    } else if c == '4' {
        Some(4)
    } else if c == '5' {
        Some(5)
    } else if c == '6' {
        Some(6)
    } else if c == '7' {
        Some(7)
    } else if c == '8' {
        Some(8)
    } else if c == '9' {
        Some(9)
    } else {
        None
    }
}

/// The number that a text of decimal digits stands for; none for the empty
/// text and for a text that holds anything but digits.
pub open spec fn digits_value(s: Seq<char>) -> Option<int>
    decreases s.len(),
{
    if s.len() == 0 {
        None
    } else if s.len() == 1 {
        digit_value(s[0])
    } else {
        match (digits_value(s.drop_last()), digit_value(s.last())) {
            (Some(front), Some(d)) => Some(front * 10 + d),
            _ => None,
        }
    }
}

/// The number that a text stands for as a `u64`: decimal digits, with or
/// without one plus sign before them, that give a value within `u64`.
pub open spec fn u64_from_text(s: Seq<char>) -> Option<u64> {
    let digits = if s.len() > 0 && s[0] == '+' {
        s.drop_first()
    } else {
        s
    };
    match digits_value(digits) {
        Some(v) => if v <= u64::MAX {
            Some(v as u64)
        } else {
            None
        },
        None => None,
    }
}

/// `str::parse::<u64>`: the number that the text stands for. The text is
/// one optional plus sign and then decimal digits only; an empty text, a
/// sign alone, any other character, and a value beyond `u64` give `None`.
#[verifier::external_body]
fn parse_u64(s: &str) -> (out: Option<u64>)
    ensures
        out == u64_from_text(s@),
{
    s.parse::<u64>().ok()
}

/// The URLs, credentials and polling periods of the core.
#[derive(Debug)]
pub struct Settings {
    pub redis_url: String,
    pub nasa_url: String,
    pub nasa_key: String,
    pub iss_url: String,
    pub apod_url: String,
    pub neo_url: String,
    pub donki_flr_url: String,
    pub donki_cme_url: String,
    pub spacex_next_url: String,
    pub jwst_api_url: String,
    pub jwst_api_key: String,
    pub astro_api_url: String,
    pub astro_api_id: String,
    pub astro_api_secret: String,
    pub every_osdr: u64,
    pub every_iss: u64,
    pub every_apod: u64,
    pub every_neo: u64,
    pub every_donki: u64,
    pub every_spacex: u64,
    pub rate_limit_seconds: u64,
}

/// The value of a variable: that of the first pair with its name.
pub open spec fn variable(env: Seq<(Seq<char>, Seq<char>)>, name: Seq<char>) -> Option<Seq<char>>
    decreases env.len(),
{
    if env.len() == 0 {
        None
    } else if env[0].0 == name {
        Some(env[0].1)
    } else {
        variable(env.drop_first(), name)
    }
}

/// A text setting: the variable's value, or the default where it is not
/// set.
pub open spec fn text_setting(
    env: Seq<(Seq<char>, Seq<char>)>,
    name: Seq<char>,
    default: Seq<char>,
) -> Seq<char> {
    match variable(env, name) {
        Some(value) => value,
        None => default,
    }
}

/// A number setting: the number that the variable's value stands for, or
/// the default where it is not set or stands for none.
pub open spec fn number_setting(env: Seq<(Seq<char>, Seq<char>)>, name: Seq<char>, default: u64) -> u64 {
    match variable(env, name) {
        Some(value) => match u64_from_text(value) {
            Some(n) => n,
            None => default,
        },
        None => default,
    }
}

/// The value of a variable.
pub fn lookup<'a>(env: &'a Vec<(String, String)>, name: &str) -> (out: Option<&'a str>)
    ensures
        match out {
            Some(value) => variable(query_view(env@), name@) == Some(value@),
            None => variable(query_view(env@), name@).is_none(),
        },
{
    let ghost all = query_view(env@);
    let wanted = name.to_owned();
    let mut i: usize = 0;
    assert(all.skip(0) =~= all);
    while i < env.len()
        invariant
            i <= env@.len(),
            wanted@ == name@,
            all == query_view(env@),
            variable(all, name@) == variable(all.skip(i as int), name@),
        decreases env@.len() - i,
    {
        proof {
            assert(all.skip(i as int)[0] == all[i as int]);
            assert(all.skip(i as int).drop_first() =~= all.skip(i + 1));
        }
        if env[i].0 == wanted {
            return Some(env[i].1.as_str());
        }
        i += 1;
    }
    proof {
        assert(all.skip(i as int).len() == 0);
    }
    None
}

/// A text setting.
pub fn env_str(env: &Vec<(String, String)>, k: &str, d: &str) -> (out: String)
    ensures
        out@ == text_setting(query_view(env@), k@, d@),
{
    match lookup(env, k) {
        Some(value) => value.to_owned(),
        None => d.to_owned(),
    }
}

/// A number setting.
pub fn env_u64(env: &Vec<(String, String)>, k: &str, d: u64) -> (out: u64)
    ensures
        out == number_setting(query_view(env@), k@, d),
{
    match lookup(env, k) {
        Some(value) => match parse_u64(value) {
            Some(n) => n,
            None => d,
        },
        None => d,
    }
}

/// Whether the settings are those that an environment gives: each one the
/// value of its variable, or its default.
pub open spec fn reads_env(s: Settings, env: Seq<(Seq<char>, Seq<char>)>) -> bool {
    &&& s.redis_url@ == text_setting(env, "REDIS_URL"@, "redis://redis_cache:6379/"@)
    &&& s.nasa_url@ == text_setting(
        env,
        "NASA_API_URL"@,
        "https://visualization.osdr.nasa.gov/biodata/api/v2/datasets/?format=json"@,
    )
    &&& s.nasa_key@ == text_setting(env, "NASA_API_KEY"@, "DEMO_KEY"@)
    &&& s.apod_url@ == text_setting(env, "APOD_API_URL"@, "https://api.nasa.gov/planetary/apod"@)
    &&& s.neo_url@ == text_setting(env, "NEO_API_URL"@, "https://api.nasa.gov/neo/rest/v1/feed"@)
    &&& s.donki_flr_url@ == text_setting(
        env,
        "DONKI_FLR_API_URL"@,
        "https://api.nasa.gov/DONKI/FLR"@,
    )
    &&& s.donki_cme_url@ == text_setting(
        env,
        "DONKI_CME_API_URL"@,
        "https://api.nasa.gov/DONKI/CME"@,
    )
    &&& s.iss_url@ == text_setting(
        env,
        "ISS_API_URL"@,
        "https://api.wheretheiss.at/v1/satellites/25544"@,
    )
    &&& s.spacex_next_url@ == text_setting(
        env,
        "SPACEX_NEXT_API_URL"@,
        "https://api.spacexdata.com/v4/launches/next"@,
    )
    &&& s.jwst_api_url@ == text_setting(env, "JWST_API_URL"@, ""@)
    &&& s.jwst_api_key@ == text_setting(env, "JWST_API_KEY"@, ""@)
    &&& s.astro_api_url@ == text_setting(
        env,
        "ASTRONOMY_API_URL"@,
        "https://api.astronomyapi.com/api/v2"@,
    )
    &&& s.astro_api_id@ == text_setting(env, "ASTRONOMY_API_ID"@, ""@)
    &&& s.astro_api_secret@ == text_setting(env, "ASTRONOMY_API_SECRET"@, ""@)
    &&& s.every_osdr == number_setting(env, "FETCH_EVERY_SECONDS"@, 600)
    &&& s.every_iss == number_setting(env, "ISS_EVERY_SECONDS"@, 120)
    &&& s.every_apod == number_setting(env, "APOD_EVERY_SECONDS"@, 43200)
    &&& s.every_neo == number_setting(env, "NEO_EVERY_SECONDS"@, 7200)
    &&& s.every_donki == number_setting(env, "DONKI_EVERY_SECONDS"@, 3600)
    &&& s.every_spacex == number_setting(env, "SPACEX_EVERY_SECONDS"@, 3600)
    &&& s.rate_limit_seconds == number_setting(env, "RATE_LIMIT_SECONDS"@, 1)
}

/// Whether a core is as new with its settings: empty stores, the fetchers
/// with the URLs and the credential of the settings, and a scheduler that is
/// not started, with every job idle and the period of its source.
pub open spec fn is_fresh(state: AppState) -> bool {
    &&& state.wf()
    &&& state.iss_service.repo@ == Seq::<PositionRow>::empty()
    &&& state.osdr_service.repo@ == Seq::<CatalogRow>::empty()
    &&& state.osdr_service.written_view() == Seq::<CatalogRow>::empty()
    &&& state.space_service.cache@ == Map::<Seq<char>, Cached>::empty()
    &&& state.iss_service.iss_url@ == state.settings.iss_url@
    &&& state.osdr_service.nasa_url@ == state.settings.nasa_url@
    &&& state.space_service.nasa_key@ == state.settings.nasa_key@
    &&& state.space_service.apod_url@ == state.settings.apod_url@
    &&& state.space_service.neo_url@ == state.settings.neo_url@
    &&& state.space_service.donki_flr_url@ == state.settings.donki_flr_url@
    &&& state.space_service.donki_cme_url@ == state.settings.donki_cme_url@
    &&& state.space_service.spacex_next_url@ == state.settings.spacex_next_url@
    &&& !state.job_service@.started
    &&& state.job_service@.jobs == fresh_jobs(
        state.settings.every_iss,
        state.settings.every_osdr,
        state.settings.every_apod,
        state.settings.every_neo,
        state.settings.every_donki,
        state.settings.every_spacex,
    )
}

impl Settings {
    /// The settings that an environment gives.
    pub fn from_env(env: &Vec<(String, String)>) -> (out: Settings)
        ensures
            reads_env(out, query_view(env@)),
    {
        Settings {
            redis_url: env_str(env, "REDIS_URL", "redis://redis_cache:6379/"),
            nasa_url: env_str(
                env,
                "NASA_API_URL",
                "https://visualization.osdr.nasa.gov/biodata/api/v2/datasets/?format=json",
            ),
            nasa_key: env_str(env, "NASA_API_KEY", "DEMO_KEY"),
            apod_url: env_str(env, "APOD_API_URL", "https://api.nasa.gov/planetary/apod"),
            neo_url: env_str(env, "NEO_API_URL", "https://api.nasa.gov/neo/rest/v1/feed"),
            donki_flr_url: env_str(env, "DONKI_FLR_API_URL", "https://api.nasa.gov/DONKI/FLR"),
            donki_cme_url: env_str(env, "DONKI_CME_API_URL", "https://api.nasa.gov/DONKI/CME"),
            iss_url: env_str(
                env,
                "ISS_API_URL",
                "https://api.wheretheiss.at/v1/satellites/25544",
            ),
            spacex_next_url: env_str(
                env,
                "SPACEX_NEXT_API_URL",
                "https://api.spacexdata.com/v4/launches/next",
            ),
            jwst_api_url: env_str(env, "JWST_API_URL", ""),
            jwst_api_key: env_str(env, "JWST_API_KEY", ""),
            astro_api_url: env_str(
                env,
                "ASTRONOMY_API_URL",
                "https://api.astronomyapi.com/api/v2",
            ),
            astro_api_id: env_str(env, "ASTRONOMY_API_ID", ""),
            astro_api_secret: env_str(env, "ASTRONOMY_API_SECRET", ""),
            every_osdr: env_u64(env, "FETCH_EVERY_SECONDS", 600),
            every_iss: env_u64(env, "ISS_EVERY_SECONDS", 120),
            every_apod: env_u64(env, "APOD_EVERY_SECONDS", 43200),
            every_neo: env_u64(env, "NEO_EVERY_SECONDS", 7200),
            every_donki: env_u64(env, "DONKI_EVERY_SECONDS", 3600),
            every_spacex: env_u64(env, "SPACEX_EVERY_SECONDS", 3600),
            rate_limit_seconds: env_u64(env, "RATE_LIMIT_SECONDS", 1),
        }
    }
}

/// The core with the given settings, as new.
pub fn with_settings(settings: Settings) -> (out: AppState)
    ensures
        out.settings == settings,
        is_fresh(out),
{
    let iss_service = IssService::new(IssRepo::new(), settings.iss_url.clone());
    let osdr_service = OsdrService::new(OsdrRepo::new(), settings.nasa_url.clone());
    let space_service = SpaceService::new(
        CacheRepo::new(),
        settings.nasa_key.clone(),
        settings.apod_url.clone(),
        settings.neo_url.clone(),
        settings.donki_flr_url.clone(),
        settings.donki_cme_url.clone(),
        settings.spacex_next_url.clone(),
    );
    let job_service = JobService::new(
        settings.every_iss,
        settings.every_osdr,
        settings.every_apod,
        settings.every_neo,
        settings.every_donki,
        settings.every_spacex,
    );
    AppState { iss_service, osdr_service, space_service, job_service, settings }
}

/// The core as an environment sets it up: the settings read from the
/// variables, each with its default, and everything else as new.
pub fn new(env: &Vec<(String, String)>) -> (out: AppState)
    ensures
        reads_env(out.settings, query_view(env@)),
        is_fresh(out),
{
    with_settings(Settings::from_env(env))
}

} // verus!
