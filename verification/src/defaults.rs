//! The workflows that are used where a project has no manifest of its own.

use vstd::prelude::*;
use vstd::string::*;
use crate::text::same_text;

verus! {

/// The manifest that stands in for a project that has none.
pub const DEFAULT_WORKFLOWS: &'static str = r#"version: '3'
mise:
  tools:
    task: latest
tasks:
  default:
    desc: "Set up project and start development"
    cmds:
      - echo "🚀 Setting up project..."
      - task: install
      
  install:
    desc: "Install development tools via mise"
    cmds:
      - echo "📦 Installing tools..."
      - mise install
      
  dev:
    desc: "Start development workflow"
    cmds:
      - echo "🚀 Starting development..."

      
  build:
    desc: "Build project"
    cmds:
      - echo "🔨 Building project..."
"#;

/// The built-in workflows, as the text of a manifest. They are the same for
/// every command.
pub fn get_default_workflow(_command: &str) -> (r: Option<&'static str>)
    ensures
        r == Some(DEFAULT_WORKFLOWS),
{
    Some(DEFAULT_WORKFLOWS)
}

/// The commands that have a built-in workflow.
pub open spec fn is_default_workflow(command: Seq<char>) -> bool {
    command == "up"@ || command == "default"@ || command == "install"@ || command == "dev"@
        || command == "build"@
}

/// Whether `command` has a built-in workflow.
pub fn has_default_workflow(command: &str) -> (r: bool)
    ensures
        r == is_default_workflow(command@),
{
    same_text(command, "up") || same_text(command, "default") || same_text(command, "install")
        || same_text(command, "dev") || same_text(command, "build")
}

/// The text of the manifest that a new project starts with.
pub fn generate_default_razdfile() -> (r: String)
    ensures
        r@ == DEFAULT_WORKFLOWS@,
{
    String::from_str(DEFAULT_WORKFLOWS)
}

/// The text of the manifest that a new project of the kind `project_type`
/// starts with: the same for every kind.
pub fn generate_project_razdfile(_project_type: &str) -> (r: String)
    ensures
        r@ == DEFAULT_WORKFLOWS@,
{
    generate_default_razdfile()
}

} // verus!
