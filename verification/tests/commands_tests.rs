use razd::commands::{
    column_width, estimate_task_line, get_workflow_config, mise_exec_args, programs_to_try,
    prompt_yes_no, resolve_config_path, task_info, tool_spec, visible_tasks, workflow_args,
    workflow_file_name, TaskInfo, TaskLocation, TaskSummary, WorkflowSource,
};
use razd::error::RazdError;
use razd::ordered_map::OrderedMap;
use razd::razdfile::{RazdfileConfig, TaskConfig};

fn listed(desc: &str, internal: bool) -> TaskConfig {
    TaskConfig {
        desc: Some(desc.to_string()),
        cmds: vec![],
        internal,
        deps: None,
        env: None,
        vars: None,
        silent: None,
        platforms: None,
    }
}

fn with_tasks(tasks: OrderedMap<TaskConfig>) -> RazdfileConfig {
    RazdfileConfig { version: "1.0.0".to_string(), mise: None, env: None, vars: None, tasks }
}

#[test]
fn test_list_extracts_non_internal_tasks() {
    let mut tasks = OrderedMap::new();
    tasks.insert("build".to_string(), listed("Build project", false));
    tasks.insert("internal-task".to_string(), listed("Internal task", true));

    let razdfile = with_tasks(tasks);

    let visible_tasks: Vec<String> =
        visible_tasks(&razdfile, false).into_iter().map(|t| t.name).collect();

    assert_eq!(visible_tasks.len(), 1);
    assert_eq!(visible_tasks[0], "build");
}

#[test]
fn test_task_sorting() {
    let task_names = vec!["zebra", "apple", "middle"];
    let mut sorted = task_names.clone();
    sorted.sort();

    assert_eq!(sorted, vec!["apple", "middle", "zebra"]);
}

#[test]
fn test_list_all_includes_internal_tasks() {
    let mut tasks = OrderedMap::new();
    tasks.insert("public-task".to_string(), listed("Public task", false));
    tasks.insert("internal-task".to_string(), listed("Internal task", true));
    let razdfile = with_tasks(tasks);

    // Test with list_all = false (default behavior)
    let list_all = false;
    let filtered_tasks: Vec<String> =
        visible_tasks(&razdfile, list_all).into_iter().map(|t| t.name).collect();
    assert_eq!(filtered_tasks.len(), 1);
    assert_eq!(filtered_tasks[0], "public-task");

    // Test with list_all = true
    let list_all = true;
    let all_tasks: Vec<String> =
        visible_tasks(&razdfile, list_all).into_iter().map(|t| t.name).collect();
    assert_eq!(all_tasks.len(), 2);
}

#[test]
fn test_task_field_equals_name() {
    let task = TaskInfo {
        name: "test-task".to_string(),
        task: "test-task".to_string(),
        desc: "".to_string(),
        summary: String::new(),
        aliases: Vec::new(),
        location: TaskLocation { taskfile: "Razdfile.yml".to_string(), line: 1, column: 3 },
        internal: false,
    };

    assert_eq!(task.name, task.task);
}

#[test]
fn test_location_has_all_required_fields() {
    let location =
        TaskLocation { taskfile: "/absolute/path/Razdfile.yml".to_string(), line: 10, column: 3 };

    assert!(!location.taskfile.is_empty());
    assert!(location.line > 0);
    assert!(location.column > 0);
}

#[test]
fn listed_tasks_keep_the_order_of_the_manifest() {
    let mut tasks = OrderedMap::new();
    tasks.insert("zebra".to_string(), listed("Z", false));
    tasks.insert("hidden".to_string(), listed("H", true));
    tasks.insert(
        "apple".to_string(),
        TaskConfig { desc: None, ..listed("", false) },
    );
    let razdfile = with_tasks(tasks);

    let shown = visible_tasks(&razdfile, false);
    assert_eq!(shown.len(), 2);
    assert_eq!((shown[0].name.as_str(), shown[0].desc.as_str(), shown[0].internal), ("zebra", "Z", false));
    assert_eq!((shown[1].name.as_str(), shown[1].desc.as_str(), shown[1].internal), ("apple", "", false));

    let all = visible_tasks(&razdfile, true);
    let names: Vec<&str> = all.iter().map(|t| t.name.as_str()).collect();
    assert_eq!(names, vec!["zebra", "hidden", "apple"]);
    assert!(all[1].internal);

    assert!(visible_tasks(&with_tasks(OrderedMap::new()), true).is_empty());
}

#[test]
fn task_info_repeats_the_name_and_stands_in_column_three() {
    let summary =
        TaskSummary { name: "build".to_string(), desc: "Build project".to_string(), internal: true };
    let info = task_info(&summary, "/path/to/Razdfile.yml", 5);
    assert_eq!(info.name, "build");
    assert_eq!(info.task, "build");
    assert_eq!(info.desc, "Build project");
    assert_eq!(info.summary, "");
    assert!(info.aliases.is_empty());
    assert_eq!(info.location.taskfile, "/path/to/Razdfile.yml");
    assert_eq!(info.location.line, 5);
    assert_eq!(info.location.column, 3);
    assert!(info.internal);
}

#[test]
fn task_line_is_the_first_line_that_begins_the_task() {
    let content = "version: '3'\n\ntasks:\n  # build: not this one\n  build:\n    desc: x\n  test:\n    cmds:\n      - build: nested\n";
    assert_eq!(estimate_task_line("build", content), 5);
    assert_eq!(estimate_task_line("test", content), 7);
    assert_eq!(estimate_task_line("tasks", content), 3);
    assert_eq!(estimate_task_line("version", content), 1);
    // Not found: line one.
    assert_eq!(estimate_task_line("deploy", content), 1);
    assert_eq!(estimate_task_line("build", ""), 1);
    // The name must be followed by a colon at once.
    assert_eq!(estimate_task_line("bui", content), 1);
    assert_eq!(estimate_task_line("build", "a\r\n\tbuild:\r\n"), 2);
}

#[test]
fn column_width_is_the_longest_name_and_one() {
    let s = |name: &str| TaskSummary { name: name.to_string(), desc: String::new(), internal: false };
    assert_eq!(column_width(&vec![]), 1);
    assert_eq!(column_width(&vec![s("build")]), 6);
    assert_eq!(column_width(&vec![s("a"), s("install"), s("dev")]), 8);
    // Bytes, not characters.
    assert_eq!(column_width(&vec![s("é")]), 3);
}

#[test]
fn workflow_comes_from_the_manifest_before_the_defaults() {
    let mut tasks = OrderedMap::new();
    tasks.insert("default".to_string(), listed("Default task", false));
    tasks.insert("up".to_string(), listed("Up task", false));
    tasks.insert("custom".to_string(), listed("Custom", false));
    let with_default = with_tasks(tasks);

    let mut tasks = OrderedMap::new();
    tasks.insert("build".to_string(), listed("Build task", false));
    let without_default = with_tasks(tasks);

    assert_eq!(get_workflow_config("default", Some(&with_default)).unwrap(), WorkflowSource::Razdfile);
    assert_eq!(get_workflow_config("custom", Some(&with_default)).unwrap(), WorkflowSource::Razdfile);
    assert_eq!(get_workflow_config("build", Some(&without_default)).unwrap(), WorkflowSource::Razdfile);
    // Not in the manifest: the built-in workflows, where they have it.
    assert_eq!(get_workflow_config("dev", Some(&with_default)).unwrap(), WorkflowSource::Builtin);
    assert_eq!(get_workflow_config("nothing", Some(&with_default)).unwrap(), WorkflowSource::NotFound);
    // A manifest without a default task is an error for `default`.
    match get_workflow_config("default", Some(&without_default)) {
        Err(RazdError::NoDefaultTask) => {}
        other => panic!("{:?}", other),
    }
    assert_eq!(
        RazdError::no_default_task().message(),
        "No default task found in Razdfile.yml.\nPlease add a 'default' task or specify a task name: razd run <name>"
    );
}

#[test]
fn test_workflow_config_fallback() {
    // Test with no Razdfile.yml - should use built-in defaults
    let result = get_workflow_config("dev", None).unwrap();
    assert_eq!(result, WorkflowSource::Builtin);

    let workflow = razd::defaults::get_default_workflow("dev").unwrap();
    assert!(workflow.contains("version: '3'"));
    assert!(workflow.contains("dev:"));

    assert_eq!(get_workflow_config("default", None).unwrap(), WorkflowSource::Builtin);
    assert_eq!(get_workflow_config("custom", None).unwrap(), WorkflowSource::NotFound);
}

#[test]
fn yes_no_answers() {
    for default in [false, true] {
        assert_eq!(prompt_yes_no("y", default), Some(true));
        assert_eq!(prompt_yes_no(" YES \n", default), Some(true));
        assert_eq!(prompt_yes_no("n", default), Some(false));
        assert_eq!(prompt_yes_no("No\r\n", default), Some(false));
        assert_eq!(prompt_yes_no("", default), Some(default));
        assert_eq!(prompt_yes_no("  \n", default), Some(default));
        assert_eq!(prompt_yes_no("maybe", default), None);
        assert_eq!(prompt_yes_no("yes please", default), None);
    }
}

#[test]
fn config_path_prefers_razdfile_over_taskfile() {
    assert_eq!(resolve_config_path(Some("r.yml"), Some("t.yml")), Some("r.yml".to_string()));
    assert_eq!(resolve_config_path(None, Some("t.yml")), Some("t.yml".to_string()));
    assert_eq!(resolve_config_path(Some("r.yml"), None), Some("r.yml".to_string()));
    assert_eq!(resolve_config_path(None, None), None);
}

#[test]
fn arguments_of_the_tools() {
    assert_eq!(programs_to_try("task", false), vec!["task".to_string()]);
    assert_eq!(programs_to_try("task", true), vec!["task".to_string(), "task.exe".to_string()]);
    assert_eq!(
        mise_exec_args(&vec!["--dir".to_string(), "x".to_string()]),
        vec!["exec", "task", "--", "task", "--dir", "x"]
    );
    assert_eq!(mise_exec_args(&vec![]), vec!["exec", "task", "--", "task"]);
    assert_eq!(workflow_file_name("build"), "razd-workflow-build.yml");
    assert_eq!(
        workflow_args("/tmp/w.yml", "/project", "build"),
        vec!["--taskfile", "/tmp/w.yml", "--dir", "/project", "build"]
    );
    assert_eq!(tool_spec("task", "latest"), "task@latest");
}
