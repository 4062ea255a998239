use razd::canonical::hash_string;
use razd::file_tracker::{
    atomic_write_steps, check_file_changes, compute_semantic_hash, get_tracking_file_path,
    hash_path, rename_failed_step, same_digest, update_tracking_state, write_plan,
    ChangeDetection, FileTrackingState, Timestamp, WriteStep,
};
use razd::ordered_map::OrderedMap;
use razd::razdfile::RazdfileConfig;

fn record(razdfile: Option<&str>, mise: Option<&str>) -> Option<FileTrackingState> {
    Some(update_tracking_state(
        razdfile.map(|s| s.to_string()),
        mise.map(|s| s.to_string()),
        Timestamp { secs: 1, nanos: 0 },
    ))
}

fn digest(s: &str) -> Option<String> {
    Some(s.to_string())
}

#[test]
fn test_hash_path_deterministic() {
    let path = "/home/user/project";
    let hash1 = hash_path(path);
    let hash2 = hash_path(path);
    assert_eq!(hash1, hash2);
}

#[test]
fn test_hash_path_unique() {
    let path1 = "/home/user/project1";
    let path2 = "/home/user/project2";
    let hash1 = hash_path(path1);
    let hash2 = hash_path(path2);
    assert_ne!(hash1, hash2);
}

#[test]
fn tracking_path_is_made_of_four_parts() {
    let parts = get_tracking_file_path("/data/razd", "/home/user/project");
    assert_eq!(
        parts,
        vec![
            "/data/razd".to_string(),
            "file_tracking".to_string(),
            hash_string("/home/user/project"),
            "tracking.json".to_string(),
        ]
    );
    assert_eq!(parts[2].len(), 64);
    let other = get_tracking_file_path("/data/razd", "/home/user/other");
    assert_ne!(parts[2], other[2]);
}

#[test]
fn test_check_file_changes_first_run() {
    // No record yet, and a manifest exists.
    let detection = check_file_changes(&None, &digest("r"), &None);
    assert_eq!(detection, ChangeDetection::RazdfileChanged);
}

#[test]
fn first_run_with_any_file_counts_as_a_change_of_the_manifest() {
    assert_eq!(check_file_changes(&None, &None, &None), ChangeDetection::NoChanges);
    assert_eq!(check_file_changes(&None, &None, &digest("m")), ChangeDetection::RazdfileChanged);
    assert_eq!(
        check_file_changes(&None, &digest("r"), &digest("m")),
        ChangeDetection::RazdfileChanged
    );
}

#[test]
fn test_check_file_changes_no_changes() {
    let state = record(Some("r0"), Some("m0"));
    let detection = check_file_changes(&state, &digest("r0"), &digest("m0"));
    assert_eq!(detection, ChangeDetection::NoChanges);
}

#[test]
fn test_check_file_changes_razdfile_modified() {
    let state = record(Some("r0"), Some("m0"));
    let detection = check_file_changes(&state, &digest("r1"), &digest("m0"));
    assert_eq!(detection, ChangeDetection::RazdfileChanged);
}

#[test]
fn change_table_has_four_cases() {
    let state = record(Some("r0"), Some("m0"));
    assert_eq!(check_file_changes(&state, &digest("r0"), &digest("m0")), ChangeDetection::NoChanges);
    assert_eq!(
        check_file_changes(&state, &digest("r1"), &digest("m0")),
        ChangeDetection::RazdfileChanged
    );
    assert_eq!(
        check_file_changes(&state, &digest("r0"), &digest("m1")),
        ChangeDetection::MiseTomlChanged
    );
    assert_eq!(
        check_file_changes(&state, &digest("r1"), &digest("m1")),
        ChangeDetection::BothChanged
    );
}

#[test]
fn a_file_that_came_or_went_has_changed() {
    let state = record(Some("r0"), None);
    assert_eq!(check_file_changes(&state, &digest("r0"), &None), ChangeDetection::NoChanges);
    assert_eq!(
        check_file_changes(&state, &digest("r0"), &digest("m")),
        ChangeDetection::MiseTomlChanged
    );
    assert_eq!(check_file_changes(&state, &None, &None), ChangeDetection::RazdfileChanged);
    assert_eq!(check_file_changes(&state, &None, &digest("m")), ChangeDetection::BothChanged);
}

#[test]
fn same_digest_compares_presence_and_text() {
    assert!(same_digest(&None, &None));
    assert!(same_digest(&digest("a"), &digest("a")));
    assert!(!same_digest(&digest("a"), &digest("b")));
    assert!(!same_digest(&digest("a"), &None));
    assert!(!same_digest(&None, &digest("a")));
    assert!(same_digest(&digest(""), &digest("")));
    assert!(!same_digest(&digest(""), &None));
}

#[test]
fn updated_record_holds_the_digests_and_the_format() {
    let state = update_tracking_state(digest("abc123"), None, Timestamp { secs: 7, nanos: 9 });
    assert_eq!(state.razdfile_hash, Some("abc123".to_string()));
    assert_eq!(state.mise_toml_hash, None);
    assert_eq!(state.format_version, Some("semantic-v1".to_string()));
    assert_eq!(state.razdfile_modified, None);
    assert_eq!(state.mise_toml_modified, None);
    assert_eq!(state.last_sync_time, Timestamp { secs: 7, nanos: 9 });
    // Right after an update nothing has changed.
    assert_eq!(
        check_file_changes(&Some(state), &digest("abc123"), &None),
        ChangeDetection::NoChanges
    );
}

#[test]
fn test_semantic_change_detection_formatting_only() {
    // Both texts are read as the same manifest: version 3 and no tasks.
    let manifest = RazdfileConfig {
        version: "3".to_string(),
        mise: None,
        env: None,
        vars: None,
        tasks: OrderedMap::new(),
    };

    // Write initial version
    let before = "version: '3'\ntasks: {}";
    let state =
        record(Some(&compute_semantic_hash("Razdfile.yml", before, Some(&manifest))), None);

    // Modify only formatting (add blank lines, change spacing)
    let after = "version: '3'\n\n\ntasks: {}";
    let now = Some(compute_semantic_hash("Razdfile.yml", after, Some(&manifest)));

    // Should NOT detect change (semantic content unchanged)
    let detection = check_file_changes(&state, &now, &None);
    assert_eq!(detection, ChangeDetection::NoChanges);
}

#[test]
fn formatting_of_the_tool_manifest_is_no_change() {
    let before = "[tools]\nnode = \"22\"";
    let after = "[tools]\n\n\nnode   =   \"22\"\n";
    let state = record(None, Some(&compute_semantic_hash("mise.toml", before, None)));
    let now = Some(compute_semantic_hash("mise.toml", after, None));
    assert_eq!(check_file_changes(&state, &None, &now), ChangeDetection::NoChanges);
}

#[test]
fn semantic_hash_goes_by_the_file_name() {
    let manifest = RazdfileConfig {
        version: "3".to_string(),
        mise: None,
        env: None,
        vars: None,
        tasks: OrderedMap::new(),
    };
    assert_eq!(
        compute_semantic_hash("Razdfile.yml", "version: '3'\ntasks: {}", Some(&manifest)),
        hash_string("v:3\ntasks:\n")
    );
    assert_eq!(
        compute_semantic_hash("Razdfile.yml", "version: '3'\ntasks: {}", None),
        hash_string("version: '3'\ntasks: {}")
    );
    assert_eq!(
        compute_semantic_hash("mise.toml", "[tools]\nnode = \"22\"", None),
        hash_string("[tools]\nnode=22\n")
    );
    // Any other file is hashed as it is, whatever was parsed.
    assert_eq!(
        compute_semantic_hash("other.toml", "[tools]\nnode = \"22\"", Some(&manifest)),
        hash_string("[tools]\nnode = \"22\"")
    );
    assert_eq!(
        compute_semantic_hash("razdfile.yml", "x", Some(&manifest)),
        hash_string("x")
    );
}

#[test]
fn test_atomic_write_file() {
    let steps = atomic_write_steps("test.txt", "test.tmp", "test content").unwrap();
    assert_eq!(
        steps,
        vec![
            WriteStep::WriteTemp { temp: "test.tmp".to_string(), content: "test content".to_string() },
            WriteStep::Rename { temp: "test.tmp".to_string(), target: "test.txt".to_string() },
        ]
    );
    assert_eq!(
        rename_failed_step("test.tmp"),
        WriteStep::RemoveTemp { temp: "test.tmp".to_string() }
    );
}

#[test]
fn write_plan_keeps_a_copy_first_and_refuses_a_target_that_is_its_own_temp() {
    assert_eq!(
        write_plan("mise.toml", "mise.tmp", "new", true).unwrap(),
        vec![
            WriteStep::Backup { from: "mise.toml".to_string(), to: "mise.toml.backup".to_string() },
            WriteStep::WriteTemp { temp: "mise.tmp".to_string(), content: "new".to_string() },
            WriteStep::Rename { temp: "mise.tmp".to_string(), target: "mise.toml".to_string() },
        ]
    );
    assert_eq!(write_plan("mise.toml", "mise.tmp", "new", false).unwrap().len(), 2);
    assert_eq!(write_plan("state.tmp", "state.tmp", "new", false), None);
    assert_eq!(write_plan("state.tmp", "state.tmp", "new", true), None);
    assert_eq!(atomic_write_steps("state.tmp", "state.tmp", "new"), None);
}

fn carry_out(files: &mut Vec<(String, String)>, step: &WriteStep) {
    let read = |files: &Vec<(String, String)>, path: &str| {
        files.iter().find(|(p, _)| p == path).map(|(_, c)| c.clone())
    };
    match step {
        WriteStep::Backup { from, to } => {
            if let Some(text) = read(files, from) {
                files.retain(|(p, _)| p != to);
                files.push((to.clone(), text));
            }
        }
        WriteStep::WriteTemp { temp, content } => {
            files.retain(|(p, _)| p != temp);
            files.push((temp.clone(), content.clone()));
        }
        WriteStep::Rename { temp, target } => {
            if let Some(text) = read(files, temp) {
                files.retain(|(p, _)| p != temp && p != target);
                files.push((target.clone(), text));
            }
        }
        WriteStep::RemoveTemp { temp } => files.retain(|(p, _)| p != temp),
    }
}

fn text_of_file(files: &Vec<(String, String)>, path: &str) -> Option<String> {
    files.iter().find(|(p, _)| p == path).map(|(_, c)| c.clone())
}

#[test]
fn atomic_write_leaves_the_target_alone_until_the_rename() {
    // The steps, carried out on a directory held in memory.
    for backup in [false, true] {
        let mut files: Vec<(String, String)> = vec![("state.json".to_string(), "old".to_string())];
        let steps = write_plan("state.json", "state.tmp", "new", backup).unwrap();
        let (last, before) = steps.split_last().unwrap();

        for step in before {
            carry_out(&mut files, step);
            assert_eq!(text_of_file(&files, "state.json"), Some("old".to_string()));
        }
        if backup {
            assert_eq!(text_of_file(&files, "state.json.backup"), Some("old".to_string()));
        }

        let mut stopped = files.clone();
        carry_out(&mut stopped, &rename_failed_step("state.tmp"));
        assert_eq!(text_of_file(&stopped, "state.json"), Some("old".to_string()));
        assert_eq!(text_of_file(&stopped, "state.tmp"), None);

        carry_out(&mut files, last);
        assert_eq!(text_of_file(&files, "state.json"), Some("new".to_string()));
        assert_eq!(text_of_file(&files, "state.tmp"), None);
    }

    // A target that does not exist yet is not there until the rename.
    let mut files: Vec<(String, String)> = vec![];
    let steps = write_plan("mise.toml", "mise.tmp", "new", true).unwrap();
    carry_out(&mut files, &steps[0]);
    carry_out(&mut files, &steps[1]);
    assert_eq!(text_of_file(&files, "mise.toml"), None);
    assert_eq!(text_of_file(&files, "mise.toml.backup"), None);
    carry_out(&mut files, &steps[2]);
    assert_eq!(text_of_file(&files, "mise.toml"), Some("new".to_string()));
}
