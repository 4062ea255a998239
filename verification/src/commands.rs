//! What the commands compute before they print or run anything: the tasks
//! to list, where a task stands in the manifest, which workflow a command
//! runs, what a typed answer means, and the arguments of the tools that are
//! started.

use vstd::prelude::*;
use vstd::string::*;
use crate::defaults::{has_default_workflow, is_default_workflow};
use crate::error::{join2, join3, ErrorView, RazdError};
use crate::razdfile::{opt_view, seq_view, Manifest, RazdfileConfig, Task};
use crate::text::{
    has_prefix, is_prefix, lines_of, lowercase, same_text, split_lines, text_of, to_lowercase,
    trim, trim_of, trim_start, trim_start_of,
};

verus! {

/// A task as it is listed: its name, its description (empty where it has
/// none) and whether it is internal.
#[derive(Debug, Clone)]
pub struct TaskSummary {
    pub name: String,
    pub desc: String,
    pub internal: bool,
}

pub struct TaskSummaryView {
    pub name: Seq<char>,
    pub desc: Seq<char>,
    pub internal: bool,
}

impl View for TaskSummary {
    type V = TaskSummaryView;

    open spec fn view(&self) -> TaskSummaryView {
        TaskSummaryView { name: self.name@, desc: self.desc@, internal: self.internal }
    }
}

/// The tasks of `tasks` that are listed, in the order of the manifest:
/// all of them where `list_all` is set, else those that are not internal.
pub open spec fn listed_tasks(tasks: Seq<(Seq<char>, Task)>, list_all: bool) -> Seq<
    TaskSummaryView,
>
    decreases tasks.len(),
{
    if tasks.len() == 0 {
        Seq::empty()
    } else {
        let rest = listed_tasks(tasks.drop_last(), list_all);
        let (name, task) = tasks.last();
        if list_all || !task.internal {
            rest.push(
                TaskSummaryView {
                    name,
                    desc: match task.desc {
                        Some(d) => d,
                        None => Seq::empty(),
                    },
                    internal: task.internal,
                },
            )
        } else {
            rest
        }
    }
}

/// The tasks of `config` that are listed.
pub fn visible_tasks(config: &RazdfileConfig, list_all: bool) -> (r: Vec<TaskSummary>)
    ensures
        seq_view(r@) == listed_tasks(config@.tasks, list_all),
{
    let n = config.tasks.len();
    config.tasks.entries_known();
    let ghost all = config.tasks@;
    let mut r: Vec<TaskSummary> = Vec::new();
    let mut i: usize = 0;
    assert(all.take(0) =~= Seq::<(Seq<char>, Task)>::empty());
    assert(seq_view(r@) =~= Seq::<TaskSummaryView>::empty());
    while i < n
        invariant
            config.tasks.wf(),
            all == config.tasks@,
            n == all.len(),
            n == config.tasks.keys().len(),
            i <= n,
            seq_view(r@) == listed_tasks(all.take(i as int), list_all),
        decreases n - i,
    {
        let ghost before = seq_view(r@);
        proof {
            let next = all.take(i + 1);
            assert(next.drop_last() =~= all.take(i as int));
            assert(next.last() == all[i as int]);
        }
        match config.tasks.get_index(i) {
            Some((name, task)) => {
                if list_all || !task.internal {
                    let desc = match &task.desc {
                        Some(d) => d.clone(),
                        None => String::new(),
                    };
                    let summary = TaskSummary { name: name.clone(), desc, internal: task.internal };
                    r.push(summary);
                    assert(seq_view(r@) =~= before.push(summary@));
                }
            },
            None => {
                assert(false);
            },
        }
        i = i + 1;
    }
    assert(all.take(n as int) =~= all);
    r
}

/// Whether the line `line` begins the task `name`: after its indentation it
/// begins with the name and a colon, and it is no comment.
pub open spec fn defines_task(line: Seq<char>, name: Seq<char>) -> bool {
    is_prefix(name + ":"@, trim_start_of(line)) && !is_prefix("#"@, trim_start_of(line))
}

/// The number of the first line from the `i`th on that begins the task
/// `name`, counting from one; one where there is no such line.
pub open spec fn task_line_from(lines: Seq<Seq<char>>, name: Seq<char>, i: int) -> int
    decreases lines.len() - i,
{
    if i < 0 || i >= lines.len() {
        1
    } else if defines_task(lines[i], name) {
        i + 1
    } else {
        task_line_from(lines, name, i + 1)
    }
}

/// The number of the line of the manifest text `content` on which the task
/// `task_name` begins, counting from one; one where no line begins it.
pub fn estimate_task_line(task_name: &str, content: &str) -> (line: usize)
    ensures
        line == task_line_from(lines_of(content@), task_name@, 0),
{
    let lines = split_lines(content);
    let key = join2(task_name, ":");
    let ghost all = lines_of(content@);
    let mut i: usize = 0;
    while i < lines.len()
        invariant
            all == lines_of(content@),
            lines@.len() == all.len(),
            forall|j: int| 0 <= j < lines@.len() ==> (#[trigger] lines@[j])@ == all[j],
            key@ == task_name@ + ":"@,
            i <= lines@.len(),
            task_line_from(all, task_name@, 0) == task_line_from(all, task_name@, i as int),
        decreases lines@.len() - i,
    {
        assert(lines@[i as int]@ == all[i as int]);
        let text = text_of(&lines[i]);
        let trimmed = trim_start(text.as_str());
        assert(trimmed@ == trim_start_of(all[i as int]));
        if has_prefix(trimmed, key.as_str()) && !has_prefix(trimmed, "#") {
            assert(defines_task(all[i as int], task_name@));
            assert(task_line_from(all, task_name@, i as int) == i + 1);
            return i + 1;
        }
        assert(!defines_task(all[i as int], task_name@));
        i = i + 1;
    }
    1
}

/// The width of the column of names: the longest name in bytes, and one
/// more for the colon.
pub open spec fn column_width_of(names: Seq<Seq<char>>) -> int
    decreases names.len(),
{
    if names.len() == 0 {
        1
    } else {
        let rest = column_width_of(names.drop_last());
        let here: int = vstd::utf8::encode_utf8(names.last()).len() as int + 1;
        if here > rest {
            here
        } else {
            rest
        }
    }
}

/// The names of the summaries `tasks`.
pub open spec fn summary_names(tasks: Seq<TaskSummary>) -> Seq<Seq<char>> {
    Seq::new(tasks.len(), |i: int| tasks[i].name@)
}

/// The width of the column in which the names of `tasks` are printed; a
/// width that does not fit the machine's word is cut to the largest one
/// that does.
pub fn column_width(tasks: &Vec<TaskSummary>) -> (width: usize)
    ensures
        width == if column_width_of(summary_names(tasks@)) <= usize::MAX {
            column_width_of(summary_names(tasks@))
        } else {
            usize::MAX as int
        },
{
    let ghost names = summary_names(tasks@);
    let mut longest: usize = 0;
    let mut i: usize = 0;
    assert(names.take(0) =~= Seq::<Seq<char>>::empty());
    while i < tasks.len()
        invariant
            names == summary_names(tasks@),
            i <= tasks@.len(),
            longest + 1 == column_width_of(names.take(i as int)),
        decreases tasks@.len() - i,
    {
        proof {
            let next = names.take(i + 1);
            assert(next.drop_last() =~= names.take(i as int));
            assert(next.last() == tasks@[i as int].name@);
        }
        let len = tasks[i].name.as_str().as_bytes().len();
        if len > longest {
            longest = len;
        }
        i = i + 1;
    }
    assert(names.take(tasks@.len() as int) =~= names);
    if longest < usize::MAX {
        longest + 1
    } else {
        longest
    }
}

/// Where a task stands: the file, and the line and column in it.
#[derive(Debug, Clone)]
pub struct TaskLocation {
    pub taskfile: String,
    pub line: usize,
    pub column: usize,
}

/// A task as it is listed for other programs.
#[derive(Debug, Clone)]
pub struct TaskInfo {
    pub name: String,
    /// The name once more, as task runners expect it.
    pub task: String,
    pub desc: String,
    pub summary: String,
    pub aliases: Vec<String>,
    pub location: TaskLocation,
    pub internal: bool,
}

/// The listing of a manifest's tasks for other programs.
#[derive(Debug, Clone)]
pub struct TaskListOutput {
    pub tasks: Vec<TaskInfo>,
    pub location: Option<String>,
}

/// The column in which the name of a task begins: tasks are indented by two
/// spaces.
pub const TASK_COLUMN: usize = 3;

/// The entry of the task `summary`, which begins on line `line` of the file
/// `taskfile`: without summary and aliases, in column three.
pub fn task_info(summary: &TaskSummary, taskfile: &str, line: usize) -> (info: TaskInfo)
    ensures
        info.name@ == summary.name@,
        info.task@ == summary.name@,
        info.desc@ == summary.desc@,
        info.summary@.len() == 0,
        info.aliases@.len() == 0,
        info.location.taskfile@ == taskfile@,
        info.location.line == line,
        info.location.column == TASK_COLUMN,
        info.internal == summary.internal,
{
    TaskInfo {
        name: summary.name.clone(),
        task: summary.name.clone(),
        desc: summary.desc.clone(),
        summary: String::new(),
        aliases: Vec::new(),
        location: TaskLocation { taskfile: String::from_str(taskfile), line, column: TASK_COLUMN },
        internal: summary.internal,
    }
}

/// Where a workflow comes from.
#[derive(Debug, Clone, Copy, PartialEq, Eq, Structural)]
pub enum WorkflowSource {
    /// The project's manifest has the task.
    Razdfile,
    /// The built-in workflows have it.
    Builtin,
    /// Nothing has it.
    NotFound,
}

/// The source of the workflow of `command`: the manifest where it has the
/// task, else the built-in workflows where they have it. For `default` a
/// manifest without a `default` task is an error.
pub open spec fn workflow_source_of(command: Seq<char>, manifest: Option<Manifest>) -> Result<
    WorkflowSource,
    ErrorView,
> {
    let in_manifest = match manifest {
        Some(m) => crate::ordered_map::names_of(m.tasks).contains(command),
        None => false,
    };
    if in_manifest {
        Ok(WorkflowSource::Razdfile)
    } else if manifest is Some && command == "default"@ {
        Err(ErrorView::NoDefaultTask)
    } else if is_default_workflow(command) {
        Ok(WorkflowSource::Builtin)
    } else {
        Ok(WorkflowSource::NotFound)
    }
}

/// Where the workflow of `command` comes from, given the project's manifest
/// if it has one.
pub fn get_workflow_config(command: &str, razdfile: Option<&RazdfileConfig>) -> (r: Result<
    WorkflowSource,
    RazdError,
>)
    ensures
        match r {
            Ok(source) => workflow_source_of(
                command@,
                match razdfile {
                    Some(c) => Some(c@),
                    None => None,
                },
            ) == Ok::<WorkflowSource, ErrorView>(source),
            Err(e) => workflow_source_of(
                command@,
                match razdfile {
                    Some(c) => Some(c@),
                    None => None,
                },
            ) == Err::<WorkflowSource, ErrorView>(e@),
        },
{
    match razdfile {
        Some(config) => {
            config.tasks.entries_known();
            let found = if same_text(command, "default") {
                config.get_primary_task().is_some()
            } else {
                config.has_task(command)
            };
            if found {
                return Ok(WorkflowSource::Razdfile);
            } else if same_text(command, "default") {
                return Err(RazdError::no_default_task());
            }
        },
        None => {},
    }
    if has_default_workflow(command) {
        Ok(WorkflowSource::Builtin)
    } else {
        Ok(WorkflowSource::NotFound)
    }
}

/// What a typed answer to a yes-or-no question means: `y` and `yes` are
/// yes, `n` and `no` are no, nothing is the default, in any case of
/// letters and with white space around it; anything else is no answer.
pub open spec fn yes_no_of(input: Seq<char>, default: bool) -> Option<bool> {
    let answer = lowercase(trim_of(input));
    if answer == "y"@ || answer == "yes"@ {
        Some(true)
    } else if answer == "n"@ || answer == "no"@ {
        Some(false)
    } else if answer.len() == 0 {
        Some(default)
    } else {
        None
    }
}

/// What the answer `input` means, or `None` where the question is to be
/// asked again.
pub fn prompt_yes_no(input: &str, default: bool) -> (r: Option<bool>)
    ensures
        r == yes_no_of(input@, default),
{
    let answer = to_lowercase(trim(input));
    let a = answer.as_str();
    if same_text(a, "y") || same_text(a, "yes") {
        Some(true)
    } else if same_text(a, "n") || same_text(a, "no") {
        Some(false)
    } else if a.is_empty() {
        Some(default)
    } else {
        None
    }
}

/// The path of the configuration file that was asked for: that of
/// `--razdfile`, else that of `--taskfile`.
pub fn resolve_config_path(razdfile: Option<&str>, taskfile: Option<&str>) -> (r: Option<String>)
    ensures
        opt_view(r) == match razdfile {
            Some(p) => Some(p@),
            None => match taskfile {
                Some(p) => Some(p@),
                None => None,
            },
        },
{
    match razdfile {
        Some(p) => Some(String::from_str(p)),
        None => match taskfile {
            Some(p) => Some(String::from_str(p)),
            None => None,
        },
    }
}

/// The names under which the program `program` is looked for: its name,
/// and on Windows its name with `.exe`.
pub fn programs_to_try(program: &str, windows: bool) -> (r: Vec<String>)
    ensures
        seq_view(r@) == if windows {
            seq![program@, program@ + ".exe"@]
        } else {
            seq![program@]
        },
{
    let mut r: Vec<String> = Vec::new();
    r.push(String::from_str(program));
    if windows {
        r.push(join2(program, ".exe"));
        assert(seq_view(r@) =~= seq![program@, program@ + ".exe"@]);
    } else {
        assert(seq_view(r@) =~= seq![program@]);
    }
    r
}

/// The arguments with which the tool manager runs `task` with the
/// arguments `args`.
pub open spec fn mise_exec_args_of(args: Seq<Seq<char>>) -> Seq<Seq<char>> {
    seq!["exec"@, "task"@, "--"@, "task"@] + args
}

/// The arguments with which the tool manager runs `task` with `args`.
pub fn mise_exec_args(args: &Vec<String>) -> (r: Vec<String>)
    ensures
        seq_view(r@) == mise_exec_args_of(seq_view(args@)),
{
    let mut r: Vec<String> = Vec::new();
    r.push(String::from_str("exec"));
    r.push(String::from_str("task"));
    r.push(String::from_str("--"));
    r.push(String::from_str("task"));
    let ghost head = seq!["exec"@, "task"@, "--"@, "task"@];
    assert(seq_view(r@) =~= head);
    let mut i: usize = 0;
    while i < args.len()
        invariant
            i <= args@.len(),
            seq_view(r@) == head + seq_view(args@).take(i as int),
        decreases args@.len() - i,
    {
        let ghost before = seq_view(r@);
        r.push(args[i].clone());
        assert(seq_view(r@) =~= before.push(args@[i as int]@));
        assert(seq_view(args@).take(i + 1) =~= seq_view(args@).take(i as int).push(
            args@[i as int]@,
        ));
        i = i + 1;
    }
    assert(seq_view(args@).take(args@.len() as int) =~= seq_view(args@));
    r
}

/// The name of the file that holds the workflow of `task_name` while it
/// runs.
pub fn workflow_file_name(task_name: &str) -> (r: String)
    ensures
        r@ == "razd-workflow-"@ + task_name@ + ".yml"@,
{
    join3("razd-workflow-", task_name, ".yml")
}

/// The arguments with which `task` runs the task `task_name` of the task
/// file `taskfile` in the directory `dir`.
pub fn workflow_args(taskfile: &str, dir: &str, task_name: &str) -> (r: Vec<String>)
    ensures
        seq_view(r@) == seq!["--taskfile"@, taskfile@, "--dir"@, dir@, task_name@],
{
    let mut r: Vec<String> = Vec::new();
    r.push(String::from_str("--taskfile"));
    r.push(String::from_str(taskfile));
    r.push(String::from_str("--dir"));
    r.push(String::from_str(dir));
    r.push(String::from_str(task_name));
    assert(seq_view(r@) =~= seq!["--taskfile"@, taskfile@, "--dir"@, dir@, task_name@]);
    r
}

/// How the tool manager is told of the version `version` of `tool`.
pub fn tool_spec(tool: &str, version: &str) -> (r: String)
    ensures
        r@ == tool@ + "@"@ + version@,
{
    join3(tool, "@", version)
}

} // verus!
