use alexandrie_index::catalogue::{
    add_record, alter_record, collect_records, find_record, latest_record, match_record, select_highest,
    unyank_record, yank_record,
};
use alexandrie_index::error::IndexError;
use alexandrie_index::record::{CrateVersion, Dependency};
use alexandrie_index::version::{Version, VersionRequirement};

fn v(s: &str) -> Version {
    Version::parse(s).unwrap()
}

fn record(name: &str, vers: &str, yanked: Option<bool>) -> CrateVersion {
    CrateVersion {
        name: name.to_string(),
        vers: v(vers),
        deps: vec![Dependency {
            name: "serde".to_string(),
            req: "^1.0".to_string(),
            features: vec!["derive".to_string()],
            optional: false,
            default_features: true,
            target: None,
            kind: Some("normal".to_string()),
        }],
        features: vec![("std".to_string(), vec![])],
        cksum: "ab".repeat(32),
        yanked,
    }
}

fn versions(rs: &[CrateVersion]) -> Vec<String> {
    rs.iter().map(|r| r.vers.as_str().to_string()).collect()
}

fn req(s: &str) -> VersionRequirement {
    VersionRequirement::parse(s).unwrap()
}

#[test]
fn resolution_skips_yanked_versions() {
    let rs = vec![record("P", "1.0.0", Some(true)), record("P", "1.1.0", Some(false))];
    let m = match_record("P", rs, &req("^1.0")).unwrap();
    assert_eq!(m.vers.as_str(), "1.1.0");
    let rs = vec![record("P", "1.0.0", Some(true)), record("P", "1.1.0", Some(false))];
    let l = latest_record("P", rs).unwrap();
    assert_eq!(l.vers.as_str(), "1.1.0");
}

#[test]
fn resolution_when_all_yanked() {
    let rs = vec![record("P", "1.0.0", Some(true)), record("P", "1.1.0", Some(true))];
    let l = latest_record("P", rs).unwrap();
    assert_eq!(l.vers.as_str(), "1.1.0");
    let rs = vec![record("P", "1.0.0", Some(true)), record("P", "1.1.0", Some(true))];
    match match_record("P", rs, &req("^1.0")) {
        Err(IndexError::NoMatchingVersion { name, requirement }) => {
            assert_eq!(name, "P");
            assert_eq!(requirement, "^1.0");
        }
        other => panic!("unexpected {:?}", other),
    }
}

#[test]
fn latest_uses_semver_precedence_not_publish_order() {
    let rs = vec![
        record("q", "1.10.0", None),
        record("q", "1.9.0", None),
        record("q", "2.0.0-alpha.1", None),
        record("q", "1.2.0", None),
    ];
    assert_eq!(latest_record("q", rs).unwrap().vers.as_str(), "2.0.0-alpha.1");
    let rs = vec![record("q", "1.0.0-beta.2", None), record("q", "1.0.0-beta.11", None)];
    assert_eq!(latest_record("q", rs).unwrap().vers.as_str(), "1.0.0-beta.11");
    let rs = vec![record("q", "1.0.0", None), record("q", "1.0.0-rc.1", None)];
    assert_eq!(latest_record("q", rs).unwrap().vers.as_str(), "1.0.0");
}

#[test]
fn latest_of_no_records_is_not_found() {
    match latest_record("ghost", vec![]) {
        Err(IndexError::CrateNotFound { name }) => assert_eq!(name, "ghost"),
        other => panic!("unexpected {:?}", other),
    }
}

#[test]
fn match_respects_the_requirement() {
    let rs = vec![record("r", "1.4.0", None), record("r", "2.1.0", None), record("r", "1.7.3", None)];
    assert_eq!(match_record("r", rs, &req("^1.2")).unwrap().vers.as_str(), "1.7.3");
    let rs = vec![record("r", "1.4.0", None), record("r", "2.1.0", None)];
    assert_eq!(match_record("r", rs, &req(">=2, <3")).unwrap().vers.as_str(), "2.1.0");
    let rs = vec![record("r", "1.4.0", None)];
    assert!(matches!(
        match_record("r", rs, &req("^3")),
        Err(IndexError::NoMatchingVersion { .. })
    ));
}

#[test]
fn select_highest_honours_flags() {
    let rs = vec![record("s", "3.0.0", None), record("s", "1.0.0", None), record("s", "2.0.0", None)];
    assert_eq!(select_highest(&rs, &vec![true, true, true]), Some(0));
    assert_eq!(select_highest(&rs, &vec![false, true, true]), Some(2));
    assert_eq!(select_highest(&rs, &vec![false, true, false]), Some(1));
    assert_eq!(select_highest(&rs, &vec![false, false, false]), None);
}

#[test]
fn add_appends_in_publish_order() {
    let mut rs = vec![];
    add_record(&mut rs, record("demo", "1.1.0", None)).unwrap();
    add_record(&mut rs, record("demo", "1.0.0", None)).unwrap();
    assert_eq!(versions(&rs), vec!["1.1.0", "1.0.0"]);
}

#[test]
fn add_duplicate_is_refused_and_list_unchanged() {
    let mut rs = vec![record("demo", "1.0.0", None), record("demo", "1.1.0", None)];
    match add_record(&mut rs, record("demo", "1.0.0", Some(true))) {
        Err(IndexError::DuplicateVersion { name, version }) => {
            assert_eq!(name, "demo");
            assert_eq!(version.as_str(), "1.0.0");
        }
        other => panic!("unexpected {:?}", other),
    }
    assert_eq!(versions(&rs), vec!["1.0.0", "1.1.0"]);
    assert_eq!(rs[0].yanked, None);
}

#[test]
fn serialized_adds_keep_both() {
    let initial: Vec<CrateVersion> = vec![record("demo", "0.1.0", None)];
    // Caller A lands first.
    let mut remote = vec![record("demo", "0.1.0", None)];
    add_record(&mut remote, record("demo", "1.0.0", None)).unwrap();
    // Caller B built its change on the initial state; its push is rejected,
    // so it refreshes and redoes the addition on the remote's state.
    let mut stale = initial;
    add_record(&mut stale, record("demo", "1.1.0", None)).unwrap();
    let mut fresh = remote;
    add_record(&mut fresh, record("demo", "1.1.0", None)).unwrap();
    assert_eq!(versions(&fresh), vec!["0.1.0", "1.0.0", "1.1.0"]);
}

#[test]
fn concurrent_duplicate_is_refused_after_refresh() {
    let mut remote: Vec<CrateVersion> = vec![];
    add_record(&mut remote, record("demo", "1.0.0", None)).unwrap();
    let mut fresh = remote;
    let r = add_record(&mut fresh, record("demo", "1.0.0", None));
    assert!(matches!(r, Err(IndexError::DuplicateVersion { .. })));
    assert_eq!(versions(&fresh), vec!["1.0.0"]);
}

#[test]
fn yank_then_unyank_restores_record() {
    let mut rs = vec![record("y", "1.0.0", None), record("y", "1.1.0", None)];
    yank_record(&mut rs, "y", &v("1.0.0")).unwrap();
    assert_eq!(rs[0].yanked, Some(true));
    assert!(rs[0].is_yanked());
    assert_eq!(rs[1].yanked, None);
    unyank_record(&mut rs, "y", &v("1.0.0")).unwrap();
    assert_eq!(rs[0].yanked, Some(false));
    assert!(!rs[0].is_yanked());
    assert_eq!(rs[0].name, "y");
    assert_eq!(rs[0].vers.as_str(), "1.0.0");
    assert_eq!(rs[0].cksum, "ab".repeat(32));
    assert_eq!(rs[0].deps.len(), 1);
    assert_eq!(rs[0].deps[0].name, "serde");
    assert_eq!(rs[0].features[0].0, "std");
}

#[test]
fn yank_of_missing_version_is_not_found() {
    let mut rs = vec![record("y", "1.0.0", None)];
    match yank_record(&mut rs, "y", &v("2.0.0")) {
        Err(IndexError::VersionNotFound { name, version }) => {
            assert_eq!(name, "y");
            assert_eq!(version.as_str(), "2.0.0");
        }
        other => panic!("unexpected {:?}", other),
    }
    assert_eq!(rs[0].yanked, None);
}

#[test]
fn alter_keeps_name_and_version() {
    let mut rs = vec![record("a", "1.0.0", None), record("a", "1.1.0", None)];
    alter_record(&mut rs, "a", &v("1.1.0"), |mut c| {
        c.name = "other".to_string();
        c.vers = Version::parse("9.9.9").unwrap();
        c.cksum = "cd".repeat(32);
        c
    })
    .unwrap();
    assert_eq!(rs[1].name, "a");
    assert_eq!(rs[1].vers.as_str(), "1.1.0");
    assert_eq!(rs[1].cksum, "cd".repeat(32));
    assert_eq!(rs[0].cksum, "ab".repeat(32));
    assert_eq!(find_record(&rs, "a", &v("1.1.0")), Some(1));
    assert_eq!(find_record(&rs, "a", &v("9.9.9")), None);
}

#[test]
fn version_and_requirement_parsing() {
    assert!(Version::parse("1.2.3-beta.1+build.5").is_some());
    assert!(Version::parse("1.2").is_none());
    assert!(Version::parse("01.2.3").is_none());
    assert!(VersionRequirement::parse("^1.2").is_some());
    assert!(VersionRequirement::parse("not a req").is_none());
    assert_eq!(v("1.2.3").compare(&v("1.10.0")), -1);
    assert_eq!(v("2.0.0").compare(&v("2.0.0-rc.1")), 1);
    assert_eq!(v("1.0.0").compare(&v("1.0.0")), 0);
    assert!(req("~1.2").matches(&v("1.2.9")));
    assert!(!req("~1.2").matches(&v("1.3.0")));
    assert!(v("1.0.0").same(&v("1.0.0").duplicate()));
    assert!(!v("1.0.0").same(&v("1.0.0+meta")));
}

#[test]
fn collect_records_reports_first_bad_line() {
    let rs = collect_records(vec![Some(record("c", "1.0.0", None)), Some(record("c", "1.1.0", None))]).unwrap();
    assert_eq!(versions(&rs), vec!["1.0.0", "1.1.0"]);
    match collect_records(vec![Some(record("c", "1.0.0", None)), None, None]) {
        Err(IndexError::MalformedRecord { line }) => assert_eq!(line, 2),
        other => panic!("unexpected {:?}", other),
    }
    assert!(collect_records(vec![]).unwrap().is_empty());
}
