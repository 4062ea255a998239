//! What kind of project a directory holds, judged by the files that are in
//! it, and what a project of each kind starts with.

use vstd::prelude::*;
use vstd::string::*;
use crate::text::same_text;

verus! {

/// Which of the files that tell of a project's kind and configuration exist
/// in a directory.
#[derive(Debug, Clone, Copy, PartialEq, Eq, Structural)]
pub struct ProjectFiles {
    pub razdfile_yml: bool,
    pub taskfile_yml: bool,
    pub taskfile_yaml: bool,
    pub mise_toml: bool,
    pub dot_mise_toml: bool,
    pub tool_versions: bool,
    pub package_json: bool,
    pub requirements_txt: bool,
    pub pyproject_toml: bool,
    pub setup_py: bool,
    pub cargo_toml: bool,
    pub go_mod: bool,
    pub dockerfile: bool,
}

impl ProjectFiles {
    /// A directory that holds none of the files.
    pub fn none() -> (files: Self)
        ensures
            files == (ProjectFiles {
                razdfile_yml: false,
                taskfile_yml: false,
                taskfile_yaml: false,
                mise_toml: false,
                dot_mise_toml: false,
                tool_versions: false,
                package_json: false,
                requirements_txt: false,
                pyproject_toml: false,
                setup_py: false,
                cargo_toml: false,
                go_mod: false,
                dockerfile: false,
            }),
    {
        ProjectFiles {
            razdfile_yml: false,
            taskfile_yml: false,
            taskfile_yaml: false,
            mise_toml: false,
            dot_mise_toml: false,
            tool_versions: false,
            package_json: false,
            requirements_txt: false,
            pyproject_toml: false,
            setup_py: false,
            cargo_toml: false,
            go_mod: false,
            dockerfile: false,
        }
    }
}

/// The kind of a project: the first of Node.js, Python, Rust, Go and Docker
/// of which a file is there, else generic.
pub open spec fn project_type_of(files: ProjectFiles) -> Seq<char> {
    if files.package_json {
        "node"@
    } else if files.requirements_txt || files.pyproject_toml || files.setup_py {
        "python"@
    } else if files.cargo_toml {
        "rust"@
    } else if files.go_mod {
        "go"@
    } else if files.dockerfile {
        "docker"@
    } else {
        "generic"@
    }
}

/// The kind of the project whose directory holds `files`.
pub fn detect_project_type(files: &ProjectFiles) -> (r: String)
    ensures
        r@ == project_type_of(*files),
{
    if files.package_json {
        String::from_str("node")
    } else if files.requirements_txt || files.pyproject_toml || files.setup_py {
        String::from_str("python")
    } else if files.cargo_toml {
        String::from_str("rust")
    } else if files.go_mod {
        String::from_str("go")
    } else if files.dockerfile {
        String::from_str("docker")
    } else {
        String::from_str("generic")
    }
}

/// The tools that are recommended for a project of each kind.
pub open spec fn recommended_tools_of(project_type: Seq<char>) -> Seq<Seq<char>> {
    if project_type == "node"@ {
        seq!["node"@, "npm"@, "yarn"@]
    } else if project_type == "python"@ {
        seq!["python"@, "pip"@, "poetry"@]
    } else if project_type == "rust"@ {
        seq!["rust"@, "cargo"@]
    } else if project_type == "go"@ {
        seq!["go"@]
    } else if project_type == "docker"@ {
        seq!["docker"@, "docker-compose"@]
    } else {
        Seq::empty()
    }
}

/// The texts of `v`.
pub open spec fn static_texts(v: Seq<&'static str>) -> Seq<Seq<char>> {
    Seq::new(v.len(), |i: int| v[i]@)
}

/// The tools that are recommended for a project of the kind `project_type`.
pub fn get_recommended_tools(project_type: &str) -> (r: Vec<&'static str>)
    ensures
        static_texts(r@) == recommended_tools_of(project_type@),
{
    let mut r: Vec<&'static str> = Vec::new();
    if same_text(project_type, "node") {
        r.push("node");
        r.push("npm");
        r.push("yarn");
    } else if same_text(project_type, "python") {
        r.push("python");
        r.push("pip");
        r.push("poetry");
    } else if same_text(project_type, "rust") {
        r.push("rust");
        r.push("cargo");
    } else if same_text(project_type, "go") {
        r.push("go");
    } else if same_text(project_type, "docker") {
        r.push("docker");
        r.push("docker-compose");
    }
    assert(static_texts(r@) =~= recommended_tools_of(project_type@));
    r
}

/// The line of a tool manifest for a recommended tool, if the tool has one.
pub open spec fn tool_line_of(tool: Seq<char>) -> Seq<char> {
    if tool == "node"@ {
        "node = \"lts\"\n"@
    } else if tool == "python"@ {
        "python = \"3.11\"\n"@
    } else if tool == "rust"@ {
        "rust = \"stable\"\n"@
    } else if tool == "go"@ {
        "go = \"latest\"\n"@
    } else {
        Seq::empty()
    }
}

/// The lines of `tools`, one after the other.
pub open spec fn tool_lines_of(tools: Seq<Seq<char>>) -> Seq<char>
    decreases tools.len(),
{
    if tools.len() == 0 {
        Seq::empty()
    } else {
        tool_lines_of(tools.drop_last()) + tool_line_of(tools.last())
    }
}

/// The text of the tool manifest that a project of each kind starts with.
pub open spec fn mise_config_of(project_type: Seq<char>) -> Seq<char> {
    tool_lines_of(recommended_tools_of(project_type))
}

/// The text of the tool manifest that a project of the kind `project_type`
/// starts with: a line for each recommended tool that has one.
pub fn generate_mise_config(project_type: &str) -> (config: String)
    ensures
        config@ == mise_config_of(project_type@),
{
    let tools = get_recommended_tools(project_type);
    let ghost all = recommended_tools_of(project_type@);
    let mut config = String::new();
    let mut i: usize = 0;
    assert(all.take(0) =~= Seq::<Seq<char>>::empty());
    while i < tools.len()
        invariant
            all == static_texts(tools@),
            i <= tools@.len(),
            config@ == tool_lines_of(all.take(i as int)),
        decreases tools@.len() - i,
    {
        proof {
            let next = all.take(i + 1);
            assert(next.drop_last() =~= all.take(i as int));
            assert(next.last() == tools@[i as int]@);
        }
        let tool = tools[i];
        if same_text(tool, "node") {
            config.append("node = \"lts\"\n");
        } else if same_text(tool, "python") {
            config.append("python = \"3.11\"\n");
        } else if same_text(tool, "rust") {
            config.append("rust = \"stable\"\n");
        } else if same_text(tool, "go") {
            config.append("go = \"latest\"\n");
        } else {
            assert(config@ + Seq::<char>::empty() =~= config@);
        }
        i = i + 1;
    }
    assert(all.take(tools@.len() as int) =~= all);
    config
}

pub const NODE_TASKFILE: &'static str = r#"version: '3'

tasks:
  default:
    desc: "Run development server"
    cmds:
      - npm run dev
      
  setup:
    desc: "Install dependencies"
    cmds:
      - npm install
      
  build:
    desc: "Build for production"
    cmds:
      - npm run build
      
  test:
    desc: "Run tests"
    cmds:
      - npm test
"#;

pub const PYTHON_TASKFILE: &'static str = r#"version: '3'

tasks:
  default:
    desc: "Run application"
    cmds:
      - python -m src.main
      
  setup:
    desc: "Install dependencies"
    cmds:
      - pip install -r requirements.txt
      
  build:
    desc: "Build package"
    cmds:
      - python -m build
      
  test:
    desc: "Run tests"
    cmds:
      - pytest
"#;

pub const RUST_TASKFILE: &'static str = r#"version: '3'

tasks:
  default:
    desc: "Run application"
    cmds:
      - cargo run
      
  setup:
    desc: "Build dependencies"
    cmds:
      - cargo build
      
  build:
    desc: "Build for production"
    cmds:
      - cargo build --release
      
  test:
    desc: "Run tests"
    cmds:
      - cargo test
"#;

pub const GO_TASKFILE: &'static str = r#"version: '3'

tasks:
  default:
    desc: "Run application"
    cmds:
      - go run .
      
  setup:
    desc: "Download dependencies"
    cmds:
      - go mod download
      
  build:
    desc: "Build binary"
    cmds:
      - go build -o bin/app
      
  test:
    desc: "Run tests"
    cmds:
      - go test ./...
"#;

pub const GENERIC_TASKFILE: &'static str = r#"version: '3'

tasks:
  default:
    desc: "Default task"
    cmds:
      - echo "Please configure your tasks"
      
  setup:
    desc: "Setup project"
    cmds:
      - echo "Setup your project here"
      
  build:
    desc: "Build project"
    cmds:
      - echo "Build your project here"
      
  test:
    desc: "Run tests"
    cmds:
      - echo "Run your tests here"
"#;

/// The text of the task file that a project of each kind starts with.
pub open spec fn taskfile_config_of(project_type: Seq<char>) -> Seq<char> {
    if project_type == "node"@ {
        NODE_TASKFILE@
    } else if project_type == "python"@ {
        PYTHON_TASKFILE@
    } else if project_type == "rust"@ {
        RUST_TASKFILE@
    } else if project_type == "go"@ {
        GO_TASKFILE@
    } else {
        GENERIC_TASKFILE@
    }
}

/// The text of the task file that a project of the kind `project_type`
/// starts with.
pub fn generate_taskfile_config(project_type: &str) -> (r: String)
    ensures
        r@ == taskfile_config_of(project_type@),
{
    if same_text(project_type, "node") {
        String::from_str(NODE_TASKFILE)
    } else if same_text(project_type, "python") {
        String::from_str(PYTHON_TASKFILE)
    } else if same_text(project_type, "rust") {
        String::from_str(RUST_TASKFILE)
    } else if same_text(project_type, "go") {
        String::from_str(GO_TASKFILE)
    } else {
        String::from_str(GENERIC_TASKFILE)
    }
}

/// Whether a directory holds a project configuration: a manifest, a task
/// file, or a tool manifest.
pub open spec fn is_configured(files: ProjectFiles) -> bool {
    files.razdfile_yml || files.taskfile_yml || files.mise_toml || files.dot_mise_toml
}

/// Whether the directory that holds `files` has a project configuration.
pub fn has_project_configuration(files: &ProjectFiles) -> (r: bool)
    ensures
        r == is_configured(*files),
{
    let has_razdfile = files.razdfile_yml;
    let has_taskfile = files.taskfile_yml;
    let has_mise = files.mise_toml || files.dot_mise_toml;
    has_razdfile || has_taskfile || has_mise
}

/// Whether the directory that holds `files` has any of the files that must
/// be trusted before they are acted on.
pub fn has_razd_config(files: &ProjectFiles) -> (r: bool)
    ensures
        r == is_configured(*files),
{
    files.razdfile_yml || files.taskfile_yml || files.mise_toml || files.dot_mise_toml
}

/// Whether the directory that holds `files` has a task file.
pub fn has_taskfile_config(files: &ProjectFiles) -> (r: bool)
    ensures
        r == (files.taskfile_yml || files.taskfile_yaml),
{
    files.taskfile_yml || files.taskfile_yaml
}

/// Whether the directory that holds `files` has a configuration of tools:
/// a manifest with a tool section, or one of the tool manager's own files.
/// `razdfile_has_tools` says whether the manifest was loaded and has a tool
/// section.
pub fn has_mise_config(files: &ProjectFiles, razdfile_has_tools: bool) -> (r: bool)
    ensures
        r == (razdfile_has_tools || files.mise_toml || files.dot_mise_toml
            || files.tool_versions),
{
    if razdfile_has_tools {
        return true;
    }
    files.mise_toml || files.dot_mise_toml || files.tool_versions
}

/// The kind of a project as it is shown to the user when a manifest is made
/// for it.
pub open spec fn template_kind_of(files: ProjectFiles) -> Seq<char> {
    if files.package_json {
        "Node.js"@
    } else if files.cargo_toml {
        "Rust"@
    } else if files.requirements_txt || files.pyproject_toml {
        "Python"@
    } else if files.go_mod {
        "Go"@
    } else {
        "Generic"@
    }
}

/// The kind of the project whose directory holds `files`, as it is shown
/// when a manifest is made for it.
pub fn detect_template_kind(files: &ProjectFiles) -> (r: String)
    ensures
        r@ == template_kind_of(*files),
{
    if files.package_json {
        String::from_str("Node.js")
    } else if files.cargo_toml {
        String::from_str("Rust")
    } else if files.requirements_txt || files.pyproject_toml {
        String::from_str("Python")
    } else if files.go_mod {
        String::from_str("Go")
    } else {
        String::from_str("Generic")
    }
}

pub const NODE_RAZDFILE: &'static str = r#"tasks:
  default:
    desc: "Set up and start Node.js project"
    cmds:
      - mise install
      - npm install
      - npm run dev

  install:
    desc: "Install dependencies"
    cmds:
      - mise install
      - npm install

  dev:
    desc: "Start development server"
    cmds:
      - npm run dev

  build:
    desc: "Build project"
    cmds:
      - npm run build

  test:
    desc: "Run tests"
    cmds:
      - npm test
"#;

pub const RUST_RAZDFILE: &'static str = r#"tasks:
  default:
    desc: "Set up and build Rust project"
    cmds:
      - mise install
      - cargo build

  install:
    desc: "Install tools"
    cmds:
      - mise install

  dev:
    desc: "Run in development mode"
    cmds:
      - cargo run

  build:
    desc: "Build project"
    cmds:
      - cargo build --release

  test:
    desc: "Run tests"
    cmds:
      - cargo test
"#;

pub const PYTHON_RAZDFILE: &'static str = r#"tasks:
  default:
    desc: "Set up and start Python project"
    cmds:
      - mise install
      - pip install -r requirements.txt
      - python main.py

  install:
    desc: "Install dependencies"
    cmds:
      - mise install
      - pip install -r requirements.txt

  dev:
    desc: "Start development server"
    cmds:
      - python main.py

  test:
    desc: "Run tests"
    cmds:
      - python -m pytest
"#;

pub const GO_RAZDFILE: &'static str = r#"tasks:
  default:
    desc: "Set up and run Go project"
    cmds:
      - mise install
      - go mod download
      - go run .

  install:
    desc: "Install dependencies"
    cmds:
      - mise install
      - go mod download

  dev:
    desc: "Run in development mode"
    cmds:
      - go run .

  build:
    desc: "Build project"
    cmds:
      - go build

  test:
    desc: "Run tests"
    cmds:
      - go test ./...
"#;

pub const GENERIC_RAZDFILE: &'static str = r#"tasks:
  default:
    desc: "Set up project"
    cmds:
      - mise install
      - echo "Project setup completed!"

  install:
    desc: "Install tools and dependencies"
    cmds:
      - mise install

  dev:
    desc: "Start development"
    cmds:
      - echo "Starting development..."

  build:
    desc: "Build project"
    cmds:
      - echo "Building project..."

  test:
    desc: "Run tests"
    cmds:
      - echo "Running tests..."
"#;

/// The text of the manifest that is made for a project of each kind.
pub open spec fn razdfile_template_of(kind: Seq<char>) -> Seq<char> {
    if kind == "Node.js"@ {
        NODE_RAZDFILE@
    } else if kind == "Rust"@ {
        RUST_RAZDFILE@
    } else if kind == "Python"@ {
        PYTHON_RAZDFILE@
    } else if kind == "Go"@ {
        GO_RAZDFILE@
    } else {
        GENERIC_RAZDFILE@
    }
}

/// The text of the manifest that is made for a project of the kind `kind`.
pub fn get_razdfile_template(kind: &str) -> (r: String)
    ensures
        r@ == razdfile_template_of(kind@),
{
    if same_text(kind, "Node.js") {
        String::from_str(NODE_RAZDFILE)
    } else if same_text(kind, "Rust") {
        String::from_str(RUST_RAZDFILE)
    } else if same_text(kind, "Python") {
        String::from_str(PYTHON_RAZDFILE)
    } else if same_text(kind, "Go") {
        String::from_str(GO_RAZDFILE)
    } else {
        String::from_str(GENERIC_RAZDFILE)
    }
}

} // verus!
