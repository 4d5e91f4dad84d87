use rust_iss::domain::models::Source;
use rust_iss::refresh::{plan_pieces, refresh_plan, refresh_targets};

#[test]
fn names_reach_their_sources() {
    assert_eq!(refresh_targets("apod"), vec![Source::Apod]);
    assert_eq!(refresh_targets("neo"), vec![Source::Neo]);
    assert_eq!(refresh_targets("spacex"), vec![Source::Spacex]);
    assert_eq!(refresh_targets("donki"), vec![Source::Flr, Source::Cme]);
    assert_eq!(refresh_targets("flr"), vec![Source::Flr, Source::Cme]);
    assert_eq!(refresh_targets("cme"), vec![Source::Flr, Source::Cme]);
}

#[test]
fn other_names_reach_nothing() {
    assert!(refresh_targets("iss").is_empty());
    assert!(refresh_targets("osdr").is_empty());
    assert!(refresh_targets("").is_empty());
    assert!(refresh_targets("APOD").is_empty());
    assert!(refresh_targets(" apod").is_empty());
    assert!(refresh_targets("apod,neo").is_empty());
}

#[test]
fn default_list_asks_for_every_cached_source() {
    let plan = refresh_plan("apod,neo,donki,spacex");
    assert_eq!(
        plan,
        vec![
            ("apod".to_string(), vec![Source::Apod]),
            ("neo".to_string(), vec![Source::Neo]),
            ("donki".to_string(), vec![Source::Flr, Source::Cme]),
            ("spacex".to_string(), vec![Source::Spacex]),
        ]
    );
}

#[test]
fn pieces_are_trimmed_and_lowercased() {
    let plan = refresh_plan("  APOD , Neo,\tSpaceX\n");
    let names: Vec<&str> = plan.iter().map(|(n, _)| n.as_str()).collect();
    assert_eq!(names, vec!["apod", "neo", "spacex"]);
    let kelvin = refresh_plan("DON\u{212A}I");
    assert_eq!(kelvin, vec![("donki".to_string(), vec![Source::Flr, Source::Cme])]);
}

#[test]
fn unknown_and_empty_pieces_are_passed_over() {
    assert!(refresh_plan("").is_empty());
    assert!(refresh_plan(",,").is_empty());
    assert!(refresh_plan("iss, osdr, moon").is_empty());
    let plan = refresh_plan("moon,,cme,apod;neo,flr");
    assert_eq!(
        plan,
        vec![
            ("cme".to_string(), vec![Source::Flr, Source::Cme]),
            ("flr".to_string(), vec![Source::Flr, Source::Cme]),
        ]
    );
}

#[test]
fn repeated_names_are_kept() {
    let plan = refresh_plan("neo,neo");
    assert_eq!(plan.len(), 2);
    assert_eq!(plan[0], plan[1]);
}

#[test]
fn pieces_given_directly() {
    let pieces = vec![" Flr ".to_string(), "x".to_string(), "SPACEX".to_string()];
    assert_eq!(
        plan_pieces(&pieces),
        vec![
            ("flr".to_string(), vec![Source::Flr, Source::Cme]),
            ("spacex".to_string(), vec![Source::Spacex]),
        ]
    );
    assert!(plan_pieces(&Vec::new()).is_empty());
}
