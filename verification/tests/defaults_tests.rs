use razd::defaults::{
    generate_default_razdfile, generate_project_razdfile, get_default_workflow,
    has_default_workflow, DEFAULT_WORKFLOWS,
};
use razd::detection::{
    detect_project_type, detect_template_kind, generate_mise_config, generate_taskfile_config,
    get_razdfile_template, get_recommended_tools, has_mise_config, has_project_configuration,
    has_razd_config, has_taskfile_config, ProjectFiles,
};

#[test]
fn test_has_default_workflow() {
    assert!(has_default_workflow("up"));
    assert!(has_default_workflow("install"));
    assert!(has_default_workflow("dev"));
    assert!(has_default_workflow("build"));
    assert!(!has_default_workflow("unknown"));
}

#[test]
fn test_default_workflows_valid_yaml() {
    // Test that the default workflows string is valid YAML
    let parsed: Result<serde_yaml::Value, _> = serde_yaml::from_str(DEFAULT_WORKFLOWS);
    assert!(parsed.is_ok(), "Default workflows should be valid YAML");

    let yaml = parsed.unwrap();
    assert_eq!(yaml["version"], "3");
    assert!(yaml["tasks"]["default"].is_mapping());
    assert!(yaml["tasks"]["install"].is_mapping());
    assert!(yaml["tasks"]["dev"].is_mapping());
    assert!(yaml["tasks"]["build"].is_mapping());
}

#[test]
fn default_workflow_is_the_same_for_every_command() {
    assert!(has_default_workflow("default"));
    assert!(!has_default_workflow(""));
    assert!(!has_default_workflow("Up"));
    assert_eq!(get_default_workflow("dev"), Some(DEFAULT_WORKFLOWS));
    assert_eq!(get_default_workflow("no-such-command"), Some(DEFAULT_WORKFLOWS));
    assert_eq!(generate_default_razdfile(), DEFAULT_WORKFLOWS);
    assert_eq!(generate_project_razdfile("rust"), DEFAULT_WORKFLOWS);
    assert!(DEFAULT_WORKFLOWS.starts_with("version: '3'\nmise:\n  tools:\n    task: latest\n"));
}

#[test]
fn test_has_project_configuration_empty() {
    let files = ProjectFiles::none();

    assert!(!has_project_configuration(&files));
}

#[test]
fn test_has_project_configuration_with_razdfile() {
    let files = ProjectFiles { razdfile_yml: true, ..ProjectFiles::none() };

    assert!(has_project_configuration(&files));
}

#[test]
fn test_has_project_configuration_with_taskfile() {
    let files = ProjectFiles { taskfile_yml: true, ..ProjectFiles::none() };

    assert!(has_project_configuration(&files));
}

#[test]
fn test_has_project_configuration_with_mise_toml() {
    let files = ProjectFiles { mise_toml: true, ..ProjectFiles::none() };

    assert!(has_project_configuration(&files));
}

#[test]
fn test_has_project_configuration_with_dot_mise_toml() {
    let files = ProjectFiles { dot_mise_toml: true, ..ProjectFiles::none() };

    assert!(has_project_configuration(&files));
}

#[test]
fn test_has_project_configuration_with_multiple_files() {
    let files = ProjectFiles { razdfile_yml: true, taskfile_yml: true, ..ProjectFiles::none() };

    assert!(has_project_configuration(&files));
}

#[test]
fn test_has_project_configuration_only_git() {
    // A directory that holds nothing but `.git` has none of the files.
    let files = ProjectFiles::none();

    assert!(!has_project_configuration(&files));
    assert!(!has_razd_config(&files));
}

#[test]
fn test_has_mise_config_with_mise_toml() {
    let files = ProjectFiles { dot_mise_toml: true, ..ProjectFiles::none() };

    assert!(has_mise_config(&files, false));
}

#[test]
fn test_has_mise_config_with_tool_versions() {
    let files = ProjectFiles { tool_versions: true, ..ProjectFiles::none() };

    assert!(has_mise_config(&files, false));
}

#[test]
fn test_has_mise_config_with_neither() {
    let files = ProjectFiles::none();

    assert!(!has_mise_config(&files, false));
}

#[test]
fn test_has_mise_config_with_both() {
    let files = ProjectFiles { dot_mise_toml: true, tool_versions: true, ..ProjectFiles::none() };

    assert!(has_mise_config(&files, false));
}

#[test]
fn mise_config_of_a_manifest_with_tools_counts() {
    assert!(has_mise_config(&ProjectFiles::none(), true));
    assert!(has_mise_config(&ProjectFiles { mise_toml: true, ..ProjectFiles::none() }, false));
    // A task file alone is no configuration of tools.
    assert!(!has_mise_config(&ProjectFiles { taskfile_yml: true, ..ProjectFiles::none() }, false));
}

#[test]
fn test_has_taskfile_config_with_taskfile_yml() {
    let files = ProjectFiles { taskfile_yml: true, ..ProjectFiles::none() };

    assert!(has_taskfile_config(&files));
}

#[test]
fn test_has_taskfile_config_with_taskfile_yaml() {
    let files = ProjectFiles { taskfile_yaml: true, ..ProjectFiles::none() };

    assert!(has_taskfile_config(&files));
}

#[test]
fn test_has_taskfile_config_with_neither() {
    let files = ProjectFiles::none();

    assert!(!has_taskfile_config(&files));
}

#[test]
fn test_has_taskfile_config_with_both() {
    let files = ProjectFiles { taskfile_yml: true, taskfile_yaml: true, ..ProjectFiles::none() };

    assert!(has_taskfile_config(&files));
}

#[test]
fn project_type_goes_by_the_first_file_found() {
    let none = ProjectFiles::none();
    assert_eq!(detect_project_type(&none), "generic");
    assert_eq!(detect_project_type(&ProjectFiles { package_json: true, ..none }), "node");
    assert_eq!(detect_project_type(&ProjectFiles { requirements_txt: true, ..none }), "python");
    assert_eq!(detect_project_type(&ProjectFiles { pyproject_toml: true, ..none }), "python");
    assert_eq!(detect_project_type(&ProjectFiles { setup_py: true, ..none }), "python");
    assert_eq!(detect_project_type(&ProjectFiles { cargo_toml: true, ..none }), "rust");
    assert_eq!(detect_project_type(&ProjectFiles { go_mod: true, ..none }), "go");
    assert_eq!(detect_project_type(&ProjectFiles { dockerfile: true, ..none }), "docker");
    // Node.js before Python before Rust before Go before Docker.
    assert_eq!(
        detect_project_type(&ProjectFiles { package_json: true, cargo_toml: true, ..none }),
        "node"
    );
    assert_eq!(
        detect_project_type(&ProjectFiles { setup_py: true, cargo_toml: true, ..none }),
        "python"
    );
    assert_eq!(
        detect_project_type(&ProjectFiles { go_mod: true, cargo_toml: true, ..none }),
        "rust"
    );
    assert_eq!(
        detect_project_type(&ProjectFiles { go_mod: true, dockerfile: true, ..none }),
        "go"
    );
}

#[test]
fn template_kind_puts_rust_before_python() {
    let none = ProjectFiles::none();
    assert_eq!(detect_template_kind(&none), "Generic");
    assert_eq!(detect_template_kind(&ProjectFiles { package_json: true, ..none }), "Node.js");
    assert_eq!(detect_template_kind(&ProjectFiles { go_mod: true, ..none }), "Go");
    assert_eq!(
        detect_template_kind(&ProjectFiles { cargo_toml: true, requirements_txt: true, ..none }),
        "Rust"
    );
    assert_eq!(detect_template_kind(&ProjectFiles { pyproject_toml: true, ..none }), "Python");
    // `setup.py` alone does not make a Python project here.
    assert_eq!(detect_template_kind(&ProjectFiles { setup_py: true, ..none }), "Generic");
}

#[test]
fn recommended_tools_and_the_tool_manifest_made_of_them() {
    assert_eq!(get_recommended_tools("node"), vec!["node", "npm", "yarn"]);
    assert_eq!(get_recommended_tools("python"), vec!["python", "pip", "poetry"]);
    assert_eq!(get_recommended_tools("rust"), vec!["rust", "cargo"]);
    assert_eq!(get_recommended_tools("go"), vec!["go"]);
    assert_eq!(get_recommended_tools("docker"), vec!["docker", "docker-compose"]);
    assert!(get_recommended_tools("generic").is_empty());

    assert_eq!(generate_mise_config("node"), "node = \"lts\"\n");
    assert_eq!(generate_mise_config("python"), "python = \"3.11\"\n");
    assert_eq!(generate_mise_config("rust"), "rust = \"stable\"\n");
    assert_eq!(generate_mise_config("go"), "go = \"latest\"\n");
    assert_eq!(generate_mise_config("docker"), "");
    assert_eq!(generate_mise_config("generic"), "");
}

#[test]
fn templates_fit_the_kind() {
    assert!(generate_taskfile_config("node").contains("npm run dev"));
    assert!(generate_taskfile_config("python").contains("pytest"));
    assert!(generate_taskfile_config("rust").contains("cargo build --release"));
    assert!(generate_taskfile_config("go").contains("go test ./..."));
    assert!(generate_taskfile_config("docker").contains("Please configure your tasks"));
    assert!(generate_taskfile_config("node").starts_with("version: '3'\n\ntasks:\n  default:\n"));

    assert!(get_razdfile_template("Node.js").contains("npm install"));
    assert!(get_razdfile_template("Rust").contains("cargo build --release"));
    assert!(get_razdfile_template("Python").contains("python -m pytest"));
    assert!(get_razdfile_template("Go").contains("go mod download"));
    assert!(get_razdfile_template("Generic").contains("Project setup completed!"));
    assert_eq!(get_razdfile_template("node"), get_razdfile_template("Generic"));
    assert!(get_razdfile_template("Rust").starts_with("tasks:\n  default:\n"));
}
