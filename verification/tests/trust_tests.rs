use razd::error::RazdError;
use razd::trust::{
    apply_trust_answer, ensure_trusted, normalize_path, trust_response_of, IgnoredEntry,
    TrustDecision, TrustResponse, TrustStatus, TrustStore, TrustStoreData, TrustedEntry,
};

fn empty_store() -> TrustStore {
    TrustStore::empty("/cache/razd/trusted.json".to_string())
}

#[test]
fn test_trust_store_load_empty() {
    let store = empty_store();
    assert!(store.data().trusted.is_empty());
    assert!(store.data().ignored.is_empty());
    assert_eq!(store.data().version, 1);
    assert_eq!(store.path(), "/cache/razd/trusted.json");
}

#[test]
fn test_trust_status_unknown_by_default() {
    let store = empty_store();
    assert_eq!(store.get_status("/tmp/project"), TrustStatus::Unknown);
}

#[test]
fn test_add_and_check_trusted() {
    let mut store = empty_store();
    let path = "/tmp/project";

    store.add_trusted(path, "1700000000");
    assert!(store.is_trusted(path));
    assert!(!store.is_ignored(path));
    assert_eq!(store.get_status(path), TrustStatus::Trusted);
}

#[test]
fn test_add_and_check_ignored() {
    let mut store = empty_store();
    let path = "/tmp/project";

    store.add_ignored(path, "1700000000");
    assert!(!store.is_trusted(path));
    assert!(store.is_ignored(path));
    assert_eq!(store.get_status(path), TrustStatus::Ignored);
}

#[test]
fn test_trust_replaces_ignore() {
    let mut store = empty_store();
    let path = "/tmp/project";

    store.add_ignored(path, "1");
    assert!(store.is_ignored(path));

    store.add_trusted(path, "2");
    assert!(store.is_trusted(path));
    assert!(!store.is_ignored(path));
}

#[test]
fn test_ignore_replaces_trust() {
    let mut store = empty_store();
    let path = "/tmp/project";

    store.add_trusted(path, "1");
    assert!(store.is_trusted(path));

    store.add_ignored(path, "2");
    assert!(!store.is_trusted(path));
    assert!(store.is_ignored(path));
}

#[test]
fn test_remove_trusted() {
    let mut store = empty_store();
    let path = "/tmp/project";

    store.add_trusted(path, "1");
    assert!(store.is_trusted(path));

    store.remove_trusted(path);
    assert!(!store.is_trusted(path));
}

#[test]
fn test_remove_all() {
    let mut store = empty_store();
    let path = "/tmp/project";

    store.add_trusted(path, "1");
    store.remove_all(path);
    assert_eq!(store.get_status(path), TrustStatus::Unknown);
}

#[test]
fn store_keeps_other_paths_and_their_order() {
    let data = TrustStoreData {
        version: 1,
        trusted: vec![
            TrustedEntry { path: "/a".to_string(), trusted_at: "1".to_string() },
            TrustedEntry { path: "/b".to_string(), trusted_at: "2".to_string() },
            TrustedEntry { path: "/a".to_string(), trusted_at: "3".to_string() },
            TrustedEntry { path: "/c".to_string(), trusted_at: "4".to_string() },
        ],
        ignored: vec![IgnoredEntry { path: "/d".to_string(), ignored_at: "5".to_string() }],
    };
    let mut store = TrustStore::new(data, "store.json".to_string());

    // Trusting a trusted path adds nothing.
    store.add_trusted("/b", "9");
    assert_eq!(store.data().trusted.len(), 4);
    assert_eq!(store.data().trusted[1].trusted_at, "2");

    // Every entry of the path goes, the others stay in place.
    store.remove_trusted("/a");
    let left: Vec<&str> = store.data().trusted.iter().map(|e| e.path.as_str()).collect();
    assert_eq!(left, vec!["/b", "/c"]);
    assert_eq!(store.data().trusted[1].trusted_at, "4");
    assert_eq!(store.data().ignored.len(), 1);

    // A new entry goes last and carries the time.
    store.add_ignored("/e", "10");
    let ignored: Vec<&str> = store.data().ignored.iter().map(|e| e.path.as_str()).collect();
    assert_eq!(ignored, vec!["/d", "/e"]);
    assert_eq!(store.data().ignored[1].ignored_at, "10");

    store.remove_ignored("/d");
    assert!(!store.is_ignored("/d"));
    assert!(store.is_ignored("/e"));
    store.remove_ignored("/nowhere");
    assert_eq!(store.data().ignored.len(), 1);

    // Trusted comes before ignored where a store holds a path in both lists.
    let both = TrustStoreData {
        version: 1,
        trusted: vec![TrustedEntry { path: "/x".to_string(), trusted_at: "1".to_string() }],
        ignored: vec![IgnoredEntry { path: "/x".to_string(), ignored_at: "1".to_string() }],
    };
    let store = TrustStore::new(both, "store.json".to_string());
    assert_eq!(store.get_status("/x"), TrustStatus::Trusted);
    assert_eq!(store.get_status("/X"), TrustStatus::Unknown);

    let d = TrustStoreData::default();
    assert_eq!(d.version, 0);
    assert!(d.trusted.is_empty() && d.ignored.is_empty());
}

#[test]
fn paths_are_normalized_on_windows_only() {
    assert_eq!(normalize_path("/Home/User/Project", false), "/Home/User/Project");
    assert_eq!(normalize_path("C:\\Users\\Me\\Project", false), "C:\\Users\\Me\\Project");
    assert_eq!(normalize_path("C:\\Users\\Me\\Project", true), "c:/users/me/project");
    assert_eq!(normalize_path("C:/Already/Fine", true), "c:/already/fine");
    assert_eq!(normalize_path("", true), "");
}

#[test]
fn trust_answers_by_position() {
    assert_eq!(trust_response_of(0), TrustResponse::Yes);
    assert_eq!(trust_response_of(1), TrustResponse::No);
    assert_eq!(trust_response_of(2), TrustResponse::Ignore);
    assert_eq!(trust_response_of(3), TrustResponse::No);
    assert_eq!(trust_response_of(usize::MAX), TrustResponse::No);
}

#[test]
fn trust_decision_for_each_status() {
    // No configuration: nothing to trust.
    for status in [TrustStatus::Trusted, TrustStatus::Ignored, TrustStatus::Unknown] {
        assert!(matches!(ensure_trusted(false, status, false, "/p"), TrustDecision::Proceed));
    }
    assert!(matches!(
        ensure_trusted(true, TrustStatus::Trusted, false, "/p"),
        TrustDecision::Proceed
    ));
    assert!(matches!(
        ensure_trusted(true, TrustStatus::Unknown, true, "/p"),
        TrustDecision::AutoTrust
    ));
    assert!(matches!(
        ensure_trusted(true, TrustStatus::Unknown, false, "/p"),
        TrustDecision::Prompt
    ));
    // An ignored project is blocked even with the general yes.
    for auto_yes in [false, true] {
        match ensure_trusted(true, TrustStatus::Ignored, auto_yes, "/p") {
            TrustDecision::Blocked(RazdError::Config(message)) => assert_eq!(
                message,
                "Project is ignored: /p\n\nThis project was previously marked as ignored.\nTo remove from ignore list, run:\n  razd trust --untrust\n  razd trust"
            ),
            other => panic!("{:?}", other),
        }
    }
}

#[test]
fn trust_answer_changes_the_store() {
    let mut store = empty_store();
    assert!(apply_trust_answer(&mut store, TrustResponse::Yes, "/p", "1").is_ok());
    assert_eq!(store.get_status("/p"), TrustStatus::Trusted);
    assert_eq!(store.data().trusted[0].trusted_at, "1");

    let mut store = empty_store();
    let no = apply_trust_answer(&mut store, TrustResponse::No, "/p", "1").unwrap_err();
    assert_eq!(
        no.message(),
        "Configuration error: Project is not trusted: /p\n\nTo trust this project, run:\n  razd trust\n\nOr run with --yes to auto-trust:\n  razd --yes up"
    );
    assert_eq!(store.get_status("/p"), TrustStatus::Unknown);

    let ignore = apply_trust_answer(&mut store, TrustResponse::Ignore, "/p", "2").unwrap_err();
    assert_eq!(ignore.message(), "Configuration error: Project added to ignore list: /p");
    assert_eq!(store.get_status("/p"), TrustStatus::Ignored);
}

#[test]
fn trust_answer_keeps_the_other_entries_and_records_the_time() {
    let data = TrustStoreData {
        version: 7,
        trusted: vec![TrustedEntry { path: "/a".to_string(), trusted_at: "1".to_string() }],
        ignored: vec![
            IgnoredEntry { path: "/b".to_string(), ignored_at: "2".to_string() },
            IgnoredEntry { path: "/p".to_string(), ignored_at: "3".to_string() },
        ],
    };
    let mut store = TrustStore::new(data, "store.json".to_string());

    assert!(apply_trust_answer(&mut store, TrustResponse::Yes, "/p", "10").is_ok());
    let trusted: Vec<(&str, &str)> = store
        .data()
        .trusted
        .iter()
        .map(|e| (e.path.as_str(), e.trusted_at.as_str()))
        .collect();
    assert_eq!(trusted, vec![("/a", "1"), ("/p", "10")]);
    let ignored: Vec<(&str, &str)> = store
        .data()
        .ignored
        .iter()
        .map(|e| (e.path.as_str(), e.ignored_at.as_str()))
        .collect();
    assert_eq!(ignored, vec![("/b", "2")]);
    assert_eq!(store.data().version, 7);

    assert!(apply_trust_answer(&mut store, TrustResponse::Ignore, "/a", "11").is_err());
    let trusted: Vec<(&str, &str)> = store
        .data()
        .trusted
        .iter()
        .map(|e| (e.path.as_str(), e.trusted_at.as_str()))
        .collect();
    assert_eq!(trusted, vec![("/p", "10")]);
    let ignored: Vec<(&str, &str)> = store
        .data()
        .ignored
        .iter()
        .map(|e| (e.path.as_str(), e.ignored_at.as_str()))
        .collect();
    assert_eq!(ignored, vec![("/b", "2"), ("/a", "11")]);

    // A second yes for a trusted path keeps the time of the first.
    assert!(apply_trust_answer(&mut store, TrustResponse::Yes, "/p", "12").is_ok());
    assert_eq!(store.data().trusted[0].trusted_at, "10");
    assert_eq!(store.path(), "store.json");
}
