//! The single error type that every fallible operation of the crate returns.

use vstd::prelude::*;
use vstd::string::*;

verus! {

/// An error of the engine or of the tools around it.
#[derive(Debug, Clone, PartialEq, Eq)]
pub enum RazdError {
    Git(String),
    Mise(String),
    Task(String),
    /// A failed read, write or rename, with the path and the cause as text.
    Io(String),
    InvalidUrl(String),
    MissingTool { tool: String, help: String },
    Config(String),
    Command(String),
    NoProjectConfig { suggestion: String },
    NoDefaultTask,
    SetupCancelled,
    UnknownProjectType { project_type: String },
}

/// The mathematical value of a [`RazdError`]: its variant and its texts.
pub enum ErrorView {
    Git(Seq<char>),
    Mise(Seq<char>),
    Task(Seq<char>),
    Io(Seq<char>),
    InvalidUrl(Seq<char>),
    MissingTool { tool: Seq<char>, help: Seq<char> },
    Config(Seq<char>),
    Command(Seq<char>),
    NoProjectConfig { suggestion: Seq<char> },
    NoDefaultTask,
    SetupCancelled,
    UnknownProjectType { project_type: Seq<char> },
}

impl View for RazdError {
    type V = ErrorView;

    open spec fn view(&self) -> ErrorView {
        match *self {
            RazdError::Git(m) => ErrorView::Git(m@),
            RazdError::Mise(m) => ErrorView::Mise(m@),
            RazdError::Task(m) => ErrorView::Task(m@),
            RazdError::Io(m) => ErrorView::Io(m@),
            RazdError::InvalidUrl(m) => ErrorView::InvalidUrl(m@),
            RazdError::MissingTool { tool, help } => ErrorView::MissingTool {
                tool: tool@,
                help: help@,
            },
            RazdError::Config(m) => ErrorView::Config(m@),
            RazdError::Command(m) => ErrorView::Command(m@),
            RazdError::NoProjectConfig { suggestion } => ErrorView::NoProjectConfig {
                suggestion: suggestion@,
            },
            RazdError::NoDefaultTask => ErrorView::NoDefaultTask,
            RazdError::SetupCancelled => ErrorView::SetupCancelled,
            RazdError::UnknownProjectType { project_type } => ErrorView::UnknownProjectType {
                project_type: project_type@,
            },
        }
    }
}

/// The view of a result: of its value, or of its error.
pub open spec fn result_view<T: View>(r: Result<T, RazdError>) -> Result<T::V, ErrorView> {
    match r {
        Ok(v) => Ok(v@),
        Err(e) => Err(e@),
    }
}

/// The text shown for an error: a fixed lead for its variant, then its texts.
pub open spec fn error_text(e: ErrorView) -> Seq<char> {
    match e {
        ErrorView::Git(m) => "Git operation failed: "@ + m,
        ErrorView::Mise(m) => "Mise operation failed: "@ + m,
        ErrorView::Task(m) => "Task operation failed: "@ + m,
        ErrorView::Io(m) => "IO error: "@ + m,
        ErrorView::InvalidUrl(m) => "Invalid URL: "@ + m,
        ErrorView::MissingTool { tool, help } => "Missing required tool: "@ + tool
            + ". Please install it first.\nInstallation guide: "@ + help,
        ErrorView::Config(m) => "Configuration error: "@ + m,
        ErrorView::Command(m) => "Command error: "@ + m,
        ErrorView::NoProjectConfig { suggestion } =>
            "No project configuration found in current directory.\n"@ + suggestion,
        ErrorView::NoDefaultTask =>
            "No default task found in Razdfile.yml.\nPlease add a 'default' task or specify a task name: razd run <name>"@,
        ErrorView::SetupCancelled => "Interactive setup cancelled by user"@,
        ErrorView::UnknownProjectType { project_type } => "Project type '"@ + project_type
            + "' not recognized. Using generic template."@,
    }
}

/// `lead` followed by `rest`, as a new string.
pub fn join2(lead: &str, rest: &str) -> (out: String)
    ensures
        out@ == lead@ + rest@,
{
    let mut out = String::from_str(lead);
    out.append(rest);
    out
}

/// `a`, `b` and `c` one after the other, as a new string.
pub fn join3(a: &str, b: &str, c: &str) -> (out: String)
    ensures
        out@ == a@ + b@ + c@,
{
    let mut out = String::from_str(a);
    out.append(b);
    out.append(c);
    out
}

impl RazdError {
    pub fn git(msg: &str) -> (e: Self)
        ensures
            e@ == ErrorView::Git(msg@),
    {
        RazdError::Git(String::from_str(msg))
    }

    pub fn mise(msg: &str) -> (e: Self)
        ensures
            e@ == ErrorView::Mise(msg@),
    {
        RazdError::Mise(String::from_str(msg))
    }

    pub fn task(msg: &str) -> (e: Self)
        ensures
            e@ == ErrorView::Task(msg@),
    {
        RazdError::Task(String::from_str(msg))
    }

    pub fn io(msg: &str) -> (e: Self)
        ensures
            e@ == ErrorView::Io(msg@),
    {
        RazdError::Io(String::from_str(msg))
    }

    pub fn invalid_url(msg: &str) -> (e: Self)
        ensures
            e@ == ErrorView::InvalidUrl(msg@),
    {
        RazdError::InvalidUrl(String::from_str(msg))
    }

    pub fn missing_tool(tool: &str, help: &str) -> (e: Self)
        ensures
            e@ == (ErrorView::MissingTool { tool: tool@, help: help@ }),
    {
        RazdError::MissingTool { tool: String::from_str(tool), help: String::from_str(help) }
    }

    pub fn config(msg: &str) -> (e: Self)
        ensures
            e@ == ErrorView::Config(msg@),
    {
        RazdError::Config(String::from_str(msg))
    }

    pub fn command(msg: &str) -> (e: Self)
        ensures
            e@ == ErrorView::Command(msg@),
    {
        RazdError::Command(String::from_str(msg))
    }

    pub fn no_project_config(suggestion: &str) -> (e: Self)
        ensures
            e@ == (ErrorView::NoProjectConfig { suggestion: suggestion@ }),
    {
        RazdError::NoProjectConfig { suggestion: String::from_str(suggestion) }
    }

    pub fn no_default_task() -> (e: Self)
        ensures
            e@ == ErrorView::NoDefaultTask,
    {
        RazdError::NoDefaultTask
    }

    pub fn setup_cancelled() -> (e: Self)
        ensures
            e@ == ErrorView::SetupCancelled,
    {
        RazdError::SetupCancelled
    }

    pub fn unknown_project_type(project_type: &str) -> (e: Self)
        ensures
            e@ == (ErrorView::UnknownProjectType { project_type: project_type@ }),
    {
        RazdError::UnknownProjectType { project_type: String::from_str(project_type) }
    }

    /// The text shown to the user for this error.
    pub fn message(&self) -> (out: String)
        ensures
            out@ == error_text(self@),
    {
        match self {
            RazdError::Git(m) => join2("Git operation failed: ", m.as_str()),
            RazdError::Mise(m) => join2("Mise operation failed: ", m.as_str()),
            RazdError::Task(m) => join2("Task operation failed: ", m.as_str()),
            RazdError::Io(m) => join2("IO error: ", m.as_str()),
            RazdError::InvalidUrl(m) => join2("Invalid URL: ", m.as_str()),
            RazdError::MissingTool { tool, help } => {
                let mut out = join3(
                    "Missing required tool: ",
                    tool.as_str(),
                    ". Please install it first.\nInstallation guide: ",
                );
                out.append(help.as_str());
                out
            },
            RazdError::Config(m) => join2("Configuration error: ", m.as_str()),
            RazdError::Command(m) => join2("Command error: ", m.as_str()),
            RazdError::NoProjectConfig { suggestion } => join2(
                "No project configuration found in current directory.\n",
                suggestion.as_str(),
            ),
            RazdError::NoDefaultTask => String::from_str(
                "No default task found in Razdfile.yml.\nPlease add a 'default' task or specify a task name: razd run <name>",
            ),
            RazdError::SetupCancelled => String::from_str("Interactive setup cancelled by user"),
            RazdError::UnknownProjectType { project_type } => join3(
                "Project type '",
                project_type.as_str(),
                "' not recognized. Using generic template.",
            ),
        }
    }
}

} // verus!
