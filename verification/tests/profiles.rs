//! Profiles, templates and the rules of a session.

use pg_proto_fuzz::connection::{TargetOptions, TcpConnectionFactory};
use pg_proto_fuzz::profile::{all_tags, is_preset, parse_profile, FuzzProfile, COPY, PLPGSQL};
use pg_proto_fuzz::session::{exit_code, progress_due, session_profile};
use pg_proto_fuzz::template::{enabled_templates, setup_sql, templates};

#[test]
fn presets_hold_their_tags() {
    let minimal = FuzzProfile::minimal();
    let standard = FuzzProfile::standard();
    let full = FuzzProfile::full();
    for tag in all_tags() {
        assert!(!minimal.is_enabled(tag));
        assert!(full.is_enabled(tag));
        let expected = ["transactions", "copy", "multi_statement"].contains(&tag);
        assert_eq!(standard.is_enabled(tag), expected, "{tag}");
    }
    assert_eq!(all_tags().len(), 7);
}

#[test]
fn tags_are_toggled() {
    let mut profile = FuzzProfile::minimal();
    profile.enable("savepoints");
    profile.enable("savepoints");
    assert!(profile.is_enabled("savepoints"));
    assert!(profile.all_enabled(&[]));
    assert!(profile.all_enabled(&["savepoints"]));
    assert!(!profile.all_enabled(&["savepoints", "copy"]));
    let copy = profile.clone();
    profile.disable("savepoints");
    assert!(!profile.is_enabled("savepoints"));
    assert!(copy.is_enabled("savepoints"));
    profile.disable("never enabled");
}

#[test]
fn extended_copy_implies_copy() {
    let mut profile = FuzzProfile::minimal();
    profile.enable("copy_extended");
    assert!(profile.is_enabled("copy_extended"));
    assert!(profile.is_enabled(COPY));
    let enabled = enabled_templates(&profile);
    assert_eq!(enabled.len(), 10);
    assert_eq!(enabled.iter().filter(|t| t.requires == [COPY]).count(), 2);
    assert_eq!(enabled.iter().filter(|t| t.requires == ["copy_extended"]).count(), 2);

    // What is asked for last holds.
    profile.disable(COPY);
    assert!(!profile.is_enabled(COPY));
    assert!(profile.is_enabled("copy_extended"));
    assert_eq!(enabled_templates(&profile).len(), 8);

    let mut other = FuzzProfile::minimal();
    other.enable_all(&["copy", "mine"]);
    assert!(other.is_enabled(COPY) && other.is_enabled("mine"));
    assert!(!other.is_enabled("copy_extended"));

    let flags = session_profile("minimal", &["copy_extended"], &[]);
    assert_eq!(enabled_templates(&flags).len(), 10);
    let without = session_profile("minimal", &["copy_extended"], &["copy".to_string()]);
    assert_eq!(enabled_templates(&without).len(), 8);
}

#[test]
fn unknown_presets_are_minimal() {
    assert!(is_preset("minimal") && is_preset("standard") && is_preset("full"));
    assert!(!is_preset("Full"));
    let profile = parse_profile("everything");
    assert!(all_tags().iter().all(|tag| !profile.is_enabled(tag)));
    assert!(parse_profile("full").is_enabled("function_call"));
}

#[test]
fn flags_add_and_then_take_away() {
    let profile = session_profile(
        "standard",
        &[PLPGSQL, "mine"],
        &["copy".to_string(), "mine".to_string()],
    );
    assert!(profile.is_enabled("transactions"));
    assert!(profile.is_enabled(PLPGSQL));
    assert!(!profile.is_enabled(COPY));
    assert!(!profile.is_enabled("mine"));
}

#[test]
fn templates_follow_the_tags() {
    let all = templates();
    assert_eq!(all.len(), 19);
    assert_eq!(enabled_templates(&FuzzProfile::minimal()).len(), 6);
    assert_eq!(enabled_templates(&FuzzProfile::standard()).len(), 12);
    let full = enabled_templates(&FuzzProfile::full());
    assert_eq!(full.len(), 19);
    for (a, b) in all.iter().zip(full.iter()) {
        assert_eq!(a.sql, b.sql);
    }
    let sql: Vec<&str> = enabled_templates(&FuzzProfile::minimal())
        .iter()
        .map(|t| t.sql)
        .collect();
    assert_eq!(
        sql,
        vec![
            "SELECT 1",
            "SELECT $1::int",
            "SELECT $1::int, $2::text",
            "SELECT * FROM pg_type LIMIT 5",
            "SLECT 1",
            "SELECT 1/0",
        ]
    );
    assert_eq!(all[2].param_count, 2);
}

#[test]
fn setup_is_listed_once() {
    assert!(setup_sql(&FuzzProfile::minimal()).is_empty());
    let table = "CREATE TABLE IF NOT EXISTS copy_test (id int)";
    assert_eq!(setup_sql(&FuzzProfile::standard()), vec![table]);
    // Two templates ask for it.
    assert_eq!(setup_sql(&FuzzProfile::full()), vec![table]);
}

#[test]
fn progress_and_end_of_a_session() {
    assert!(progress_due(100, 1000));
    assert!(progress_due(7, 7));
    assert!(!progress_due(99, 1000));
    assert_eq!(exit_code(0), 0);
    assert_eq!(exit_code(1), 1);
    assert_eq!(exit_code(1234), 1);
}

#[test]
fn the_target_falls_back_on_the_oracle() {
    let pg = TcpConnectionFactory {
        host: "localhost".into(),
        port: 5432,
        user: "postgres".into(),
        password: Some("word".into()),
        database: "postgres".into(),
    };
    assert_eq!(pg.to_text(), "postgres@localhost:5432/postgres");
    let same = pg.target(TargetOptions {
        host: None,
        port: None,
        user: None,
        password: None,
        database: None,
    });
    assert_eq!(same.to_text(), pg.to_text());
    assert_eq!(same.password.as_deref(), Some("word"));
    let other = pg.target(TargetOptions {
        host: Some("db".into()),
        port: Some(6432),
        user: Some("me".into()),
        password: Some("mine".into()),
        database: Some("test".into()),
    });
    assert_eq!(other.to_text(), "me@db:6432/test");
    assert_eq!(other.password.as_deref(), Some("mine"));
}
