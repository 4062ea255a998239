//! The manifest as it is held in memory: the tool section, the tasks and
//! their commands, each with the mathematical value that contracts speak of.

use vstd::prelude::*;
use vstd::string::*;
use crate::error::{ErrorView, RazdError};
use crate::mise_validator::{
    plugin_url_verdict_of, regex_match, tool_name_outcome, validate_plugin_url,
    validate_tool_name, verdict_view, PLUGIN_URL_PATTERN,
};
use crate::ordered_map::{names_of, OrderedMap};

verus! {

/// The views of the items of `v`, in order.
pub open spec fn seq_view<T: View>(v: Seq<T>) -> Seq<T::V> {
    Seq::new(v.len(), |i: int| v[i]@)
}

/// The view of what `o` holds, if it holds anything.
pub open spec fn opt_view<T: View>(o: Option<T>) -> Option<T::V> {
    match o {
        Some(x) => Some(x@),
        None => None,
    }
}

/// The texts of an optional list of strings.
pub open spec fn opt_texts(o: Option<Vec<String>>) -> Option<Seq<Seq<char>>> {
    match o {
        Some(v) => Some(seq_view(v@)),
        None => None,
    }
}

/// A value bound to a variable: a string, a number, a truth value, nothing,
/// a list of values, or a map from names to values.
#[derive(Debug)]
pub enum VarValue {
    Text(String),
    /// A number, as the text that stands for it in the manifest.
    Number(String),
    Bool(bool),
    Null,
    List(Vec<VarValue>),
    /// A nested map: its names with their values, in the order of the
    /// manifest.
    Nested(Vec<(String, VarValue)>),
}

pub enum VarSpec {
    Text(Seq<char>),
    Number(Seq<char>),
    Bool(bool),
    Null,
    List(Seq<VarSpec>),
    Nested(Seq<(Seq<char>, VarSpec)>),
}

/// The mathematical value of `value`.
pub open spec fn var_spec_of(value: VarValue) -> VarSpec
    decreases value,
{
    match value {
        VarValue::Text(s) => VarSpec::Text(s@),
        VarValue::Number(s) => VarSpec::Number(s@),
        VarValue::Bool(b) => VarSpec::Bool(b),
        VarValue::Null => VarSpec::Null,
        VarValue::List(items) => VarSpec::List(
            Seq::new(
                items@.len(),
                |i: int|
                    if 0 <= i < items@.len() {
                        var_spec_of(items@[i])
                    } else {
                        VarSpec::Null
                    },
            ),
        ),
        VarValue::Nested(entries) => VarSpec::Nested(
            Seq::new(
                entries@.len(),
                |i: int|
                    if 0 <= i < entries@.len() {
                        (entries@[i].0@, var_spec_of(entries@[i].1))
                    } else {
                        (Seq::empty(), VarSpec::Null)
                    },
            ),
        ),
    }
}

impl View for VarValue {
    type V = VarSpec;

    open spec fn view(&self) -> VarSpec {
        var_spec_of(*self)
    }
}

/// The views of the items of a list of values.
pub open spec fn var_items_view(items: Seq<VarValue>) -> Seq<VarSpec> {
    Seq::new(items.len(), |i: int| items[i]@)
}

/// The views of the entries of a nested map.
pub open spec fn var_entries_view(entries: Seq<(String, VarValue)>) -> Seq<(Seq<char>, VarSpec)> {
    Seq::new(entries.len(), |i: int| (entries[i].0@, entries[i].1@))
}

/// The view of a list is the views of its items.
pub proof fn lemma_var_list_view(items: Vec<VarValue>)
    ensures
        VarValue::List(items)@ == VarSpec::List(var_items_view(items@)),
{
    let v = VarValue::List(items);
    assert(v@ is List);
    assert(v@->List_0 =~= var_items_view(items@));
}

/// The view of a nested map is the views of its entries.
pub proof fn lemma_var_map_view(entries: Vec<(String, VarValue)>)
    ensures
        VarValue::Nested(entries)@ == VarSpec::Nested(var_entries_view(entries@)),
{
    let v = VarValue::Nested(entries);
    assert(v@ is Nested);
    assert(v@->Nested_0 =~= var_entries_view(entries@));
}

/// A copy of the values `items`.
pub fn copy_vars(items: &Vec<VarValue>) -> (copy: Vec<VarValue>)
    ensures
        var_items_view(copy@) == var_items_view(items@),
    decreases items,
{
    let mut copy: Vec<VarValue> = Vec::new();
    let mut i: usize = 0;
    while i < items.len()
        invariant
            i <= items@.len(),
            copy@.len() == i,
            forall|j: int| 0 <= j < i ==> (#[trigger] copy@[j])@ == items@[j]@,
        decreases items@.len() - i,
    {
        proof {
            vstd::std_specs::vec::axiom_vec_index_decreases(*items, i as int);
        }
        copy.push(copy_var(&items[i]));
        i = i + 1;
    }
    assert(var_items_view(copy@) =~= var_items_view(items@));
    copy
}

/// A copy of the bindings `entries`.
pub fn copy_bindings(entries: &Vec<(String, VarValue)>) -> (copy: Vec<(String, VarValue)>)
    ensures
        var_entries_view(copy@) == var_entries_view(entries@),
    decreases entries,
{
    let mut copy: Vec<(String, VarValue)> = Vec::new();
    let mut i: usize = 0;
    while i < entries.len()
        invariant
            i <= entries@.len(),
            copy@.len() == i,
            forall|j: int|
                0 <= j < i ==> (#[trigger] copy@[j]).0@ == entries@[j].0@ && copy@[j].1@
                    == entries@[j].1@,
        decreases entries@.len() - i,
    {
        proof {
            vstd::std_specs::vec::axiom_vec_index_decreases(*entries, i as int);
        }
        copy.push((entries[i].0.clone(), copy_var(&entries[i].1)));
        i = i + 1;
    }
    assert(var_entries_view(copy@) =~= var_entries_view(entries@));
    copy
}

/// A copy of `value`.
pub fn copy_var(value: &VarValue) -> (r: VarValue)
    ensures
        r@ == value@,
    decreases value,
{
    match value {
        VarValue::Text(s) => VarValue::Text(s.clone()),
        VarValue::Number(s) => VarValue::Number(s.clone()),
        VarValue::Bool(b) => VarValue::Bool(*b),
        VarValue::Null => VarValue::Null,
        VarValue::List(items) => {
            let copy = copy_vars(items);
            proof {
                lemma_var_list_view(*items);
                lemma_var_list_view(copy);
            }
            VarValue::List(copy)
        },
        VarValue::Nested(entries) => {
            let copy = copy_bindings(entries);
            proof {
                lemma_var_map_view(*entries);
                lemma_var_map_view(copy);
            }
            VarValue::Nested(copy)
        },
    }
}

impl Clone for VarValue {
    fn clone(&self) -> (r: Self)
        ensures
            r@ == self@,
    {
        copy_var(self)
    }
}

/// One step of a task: a shell command, or a call of another task.
#[derive(Debug, Clone)]
pub enum Command {
    /// A shell command, such as `echo hello`.
    String(String),
    /// A call of the task `task`, with variables bound for it.
    TaskRef { task: String, vars: Option<OrderedMap<VarValue>>, silent: Option<bool> },
    /// A shell command with options that say how it runs.
    Complex {
        cmd: String,
        silent: Option<bool>,
        platforms: Option<Vec<String>>,
        ignore_error: Option<bool>,
        set: Option<Vec<String>>,
        shopt: Option<Vec<String>>,
    },
}

pub enum CommandSpec {
    Shell(Seq<char>),
    TaskRef { task: Seq<char>, vars: Option<Seq<(Seq<char>, VarSpec)>>, silent: Option<bool> },
    Complex {
        cmd: Seq<char>,
        silent: Option<bool>,
        platforms: Option<Seq<Seq<char>>>,
        ignore_error: Option<bool>,
        set: Option<Seq<Seq<char>>>,
        shopt: Option<Seq<Seq<char>>>,
    },
}

impl View for Command {
    type V = CommandSpec;

    open spec fn view(&self) -> CommandSpec {
        match *self {
            Command::String(s) => CommandSpec::Shell(s@),
            Command::TaskRef { task, vars, silent } => CommandSpec::TaskRef {
                task: task@,
                vars: opt_view(vars),
                silent,
            },
            Command::Complex { cmd, silent, platforms, ignore_error, set, shopt } =>
                CommandSpec::Complex {
                    cmd: cmd@,
                    silent,
                    platforms: opt_texts(platforms),
                    ignore_error,
                    set: opt_texts(set),
                    shopt: opt_texts(shopt),
                },
        }
    }
}

/// A task that must run before another.
#[derive(Debug, Clone)]
pub enum Dependency {
    /// The task's name.
    Simple(String),
    /// The task's name, with variables bound for it.
    Complex { task: String, vars: Option<OrderedMap<VarValue>>, silent: Option<bool> },
}

pub enum DependencySpec {
    Simple(Seq<char>),
    Complex { task: Seq<char>, vars: Option<Seq<(Seq<char>, VarSpec)>>, silent: Option<bool> },
}

impl View for Dependency {
    type V = DependencySpec;

    open spec fn view(&self) -> DependencySpec {
        match *self {
            Dependency::Simple(s) => DependencySpec::Simple(s@),
            Dependency::Complex { task, vars, silent } => DependencySpec::Complex {
                task: task@,
                vars: opt_view(vars),
                silent,
            },
        }
    }
}

/// A task of the manifest.
#[derive(Debug, Clone)]
pub struct TaskConfig {
    pub desc: Option<String>,
    /// The commands, in the order in which they run.
    pub cmds: Vec<Command>,
    /// Whether the task is hidden from listings. `false` is never written out.
    pub internal: bool,
    pub deps: Option<Vec<Dependency>>,
    pub env: Option<OrderedMap<VarValue>>,
    pub vars: Option<OrderedMap<VarValue>>,
    pub silent: Option<bool>,
    pub platforms: Option<Vec<String>>,
}

pub struct Task {
    pub desc: Option<Seq<char>>,
    pub cmds: Seq<CommandSpec>,
    pub internal: bool,
    pub deps: Option<Seq<DependencySpec>>,
    pub env: Option<Seq<(Seq<char>, VarSpec)>>,
    pub vars: Option<Seq<(Seq<char>, VarSpec)>>,
    pub silent: Option<bool>,
    pub platforms: Option<Seq<Seq<char>>>,
}

impl View for TaskConfig {
    type V = Task;

    open spec fn view(&self) -> Task {
        Task {
            desc: opt_view(self.desc),
            cmds: seq_view(self.cmds@),
            internal: self.internal,
            deps: match self.deps {
                Some(d) => Some(seq_view(d@)),
                None => None,
            },
            env: opt_view(self.env),
            vars: opt_view(self.vars),
            silent: self.silent,
            platforms: opt_texts(self.platforms),
        }
    }
}

/// How one tool is to be installed.
#[derive(Debug, Clone)]
pub enum ToolConfig {
    /// A version, such as `"22"`.
    Simple(String),
    /// A version with options.
    Complex {
        version: String,
        postinstall: Option<String>,
        os: Option<Vec<String>>,
        install_env: Option<OrderedMap<String>>,
    },
}

pub enum ToolSpec {
    Simple(Seq<char>),
    Complex {
        version: Seq<char>,
        postinstall: Option<Seq<char>>,
        os: Option<Seq<Seq<char>>>,
        install_env: Option<Seq<(Seq<char>, Seq<char>)>>,
    },
}

impl View for ToolConfig {
    type V = ToolSpec;

    open spec fn view(&self) -> ToolSpec {
        match *self {
            ToolConfig::Simple(v) => ToolSpec::Simple(v@),
            ToolConfig::Complex { version, postinstall, os, install_env } => ToolSpec::Complex {
                version: version@,
                postinstall: opt_view(postinstall),
                os: opt_texts(os),
                install_env: opt_view(install_env),
            },
        }
    }
}

/// No name occurs twice in the installation environment of a tool. This
/// holds of every tool that the crate's maps can hold.
pub open spec fn valid_tool(tool: ToolSpec) -> bool {
    match tool {
        ToolSpec::Complex { install_env: Some(env), .. } => names_of(env).no_duplicates(),
        _ => true,
    }
}

impl ToolConfig {
    /// Tells the verifier what holds of every tool: no name occurs twice
    /// in its installation environment. Does nothing when the program runs.
    pub fn known_valid(&self)
        ensures
            valid_tool(self@),
    {
        match self {
            ToolConfig::Complex { install_env: Some(env), .. } => {
                env.entries_known();
            },
            _ => {},
        }
    }
}

/// The tool section of a manifest: tools by name, and plugins by name with
/// the URL of each.
#[derive(Debug, Clone)]
pub struct MiseConfig {
    pub tools: Option<OrderedMap<ToolConfig>>,
    pub plugins: Option<OrderedMap<String>>,
}

pub struct ToolSection {
    pub tools: Option<Seq<(Seq<char>, ToolSpec)>>,
    pub plugins: Option<Seq<(Seq<char>, Seq<char>)>>,
}

impl View for MiseConfig {
    type V = ToolSection;

    open spec fn view(&self) -> ToolSection {
        ToolSection { tools: opt_view(self.tools), plugins: opt_view(self.plugins) }
    }
}

/// A manifest: its version, its tool section and its tasks by name.
#[derive(Debug, Clone)]
pub struct RazdfileConfig {
    pub version: String,
    pub mise: Option<MiseConfig>,
    pub env: Option<OrderedMap<VarValue>>,
    pub vars: Option<OrderedMap<VarValue>>,
    pub tasks: OrderedMap<TaskConfig>,
}

pub struct Manifest {
    pub version: Seq<char>,
    pub mise: Option<ToolSection>,
    pub env: Option<Seq<(Seq<char>, VarSpec)>>,
    pub vars: Option<Seq<(Seq<char>, VarSpec)>>,
    pub tasks: Seq<(Seq<char>, Task)>,
}

impl View for RazdfileConfig {
    type V = Manifest;

    open spec fn view(&self) -> Manifest {
        Manifest {
            version: self.version@,
            mise: opt_view(self.mise),
            env: opt_view(self.env),
            vars: opt_view(self.vars),
            tasks: self.tasks@,
        }
    }
}

/// The version that a manifest has where it states none.
pub fn default_version() -> (v: String)
    ensures
        v@ == "3"@,
{
    String::from_str("3")
}

impl RazdfileConfig {
    /// The task called `name`, if the manifest has one.
    pub fn get_task(&self, name: &str) -> (r: Option<&TaskConfig>)
        ensures
            match r {
                Some(t) => self.tasks.keys().contains(name@) && *t == self.tasks.value_of(name@),
                None => !self.tasks.keys().contains(name@),
            },
    {
        self.tasks.get(name)
    }

    /// Whether the manifest has a task called `name`.
    pub fn has_task(&self, name: &str) -> (r: bool)
        ensures
            r == self.tasks.keys().contains(name@),
    {
        self.tasks.contains_key(name)
    }

    /// The task that runs where none is asked for: `default`, if the manifest
    /// has a task of that name.
    pub fn get_primary_task(&self) -> (r: Option<&'static str>)
        ensures
            match r {
                Some(name) => name@ == "default"@ && self.tasks.keys().contains("default"@),
                None => !self.tasks.keys().contains("default"@),
            },
    {
        if self.has_task("default") {
            Some("default")
        } else {
            None
        }
    }
}

/// The verdict on the names `names`: that of the first name that is
/// refused, or none.
pub open spec fn names_verdict(names: Seq<Seq<char>>) -> Result<(), ErrorView>
    decreases names.len(),
{
    if names.len() == 0 {
        Ok(())
    } else {
        match tool_name_outcome(names[0]) {
            Ok(_) => names_verdict(names.drop_first()),
            Err(e) => Err(e),
        }
    }
}

/// The verdict on one plugin: on its name, then on its URL.
pub open spec fn plugin_verdict(name: Seq<char>, url: Seq<char>) -> Result<(), ErrorView> {
    match tool_name_outcome(name) {
        Ok(_) => plugin_url_verdict_of(url, regex_match(PLUGIN_URL_PATTERN@, url)),
        Err(e) => Err(e),
    }
}

/// The verdict on the plugins `plugins`: that of the first plugin that is
/// refused, or none.
pub open spec fn plugins_verdict(plugins: Seq<(Seq<char>, Seq<char>)>) -> Result<(), ErrorView>
    decreases plugins.len(),
{
    if plugins.len() == 0 {
        Ok(())
    } else {
        match plugin_verdict(plugins[0].0, plugins[0].1) {
            Ok(_) => plugins_verdict(plugins.drop_first()),
            Err(e) => Err(e),
        }
    }
}

/// The verdict on a tool section: on the names of its tools in order, then
/// on its plugins in order.
pub open spec fn section_verdict(section: ToolSection) -> Result<(), ErrorView> {
    let tools = match section.tools {
        Some(entries) => names_verdict(names_of(entries)),
        None => Ok(()),
    };
    match tools {
        Ok(_) => match section.plugins {
            Some(entries) => plugins_verdict(entries),
            None => Ok(()),
        },
        Err(e) => Err(e),
    }
}

/// Checks the names of the tools of `tools`.
pub fn validate_tool_names(tools: &OrderedMap<ToolConfig>) -> (r: Result<(), RazdError>)
    ensures
        verdict_view(r) == names_verdict(names_of(tools@)),
{
    let n = tools.len();
    tools.entries_known();
    let ghost names = names_of(tools@);
    let mut i: usize = 0;
    assert(names.skip(0) =~= names);
    while i < n
        invariant
            tools.wf(),
            names == names_of(tools@),
            names == tools.keys(),
            n == names.len(),
            i <= n,
            names_verdict(names) == names_verdict(names.skip(i as int)),
        decreases n - i,
    {
        proof {
            assert(names.skip(i as int).drop_first() =~= names.skip(i + 1));
            assert(names.skip(i as int)[0] == names[i as int]);
        }
        match tools.get_index(i) {
            Some((name, _)) => {
                match validate_tool_name(name.as_str()) {
                    Ok(_) => {},
                    Err(e) => {
                        return Err(e);
                    },
                }
            },
            None => {
                assert(false);
            },
        }
        i = i + 1;
    }
    Ok(())
}

/// Checks the names and the URLs of the plugins of `plugins`.
pub fn validate_plugins(plugins: &OrderedMap<String>) -> (r: Result<(), RazdError>)
    ensures
        verdict_view(r) == plugins_verdict(plugins@),
{
    let n = plugins.len();
    plugins.entries_known();
    let ghost entries = plugins@;
    let mut i: usize = 0;
    assert(entries.skip(0) =~= entries);
    while i < n
        invariant
            plugins.wf(),
            entries == plugins@,
            n == entries.len(),
            n == plugins.keys().len(),
            i <= n,
            plugins_verdict(entries) == plugins_verdict(entries.skip(i as int)),
        decreases n - i,
    {
        proof {
            assert(entries.skip(i as int).drop_first() =~= entries.skip(i + 1));
            assert(entries.skip(i as int)[0] == entries[i as int]);
        }
        match plugins.get_index(i) {
            Some((name, url)) => {
                match validate_tool_name(name.as_str()) {
                    Ok(_) => {},
                    Err(e) => {
                        return Err(e);
                    },
                }
                match validate_plugin_url(url.as_str()) {
                    Ok(_) => {},
                    Err(e) => {
                        return Err(e);
                    },
                }
            },
            None => {
                assert(false);
            },
        }
        i = i + 1;
    }
    Ok(())
}

impl MiseConfig {
    /// Checks the names of the tools, then the names and URLs of the
    /// plugins; the first that is refused gives the error.
    pub fn validate(&self) -> (r: Result<(), RazdError>)
        ensures
            verdict_view(r) == section_verdict(self@),
    {
        match &self.tools {
            Some(tools) => {
                match validate_tool_names(tools) {
                    Ok(_) => {},
                    Err(e) => {
                        return Err(e);
                    },
                }
            },
            None => {},
        }
        match &self.plugins {
            Some(plugins) => validate_plugins(plugins),
            None => Ok(()),
        }
    }
}

/// The verdict on a manifest: that on its tool section, if it has one.
pub open spec fn manifest_verdict(manifest: Manifest) -> Result<(), ErrorView> {
    match manifest.mise {
        Some(section) => section_verdict(section),
        None => Ok(()),
    }
}

impl RazdfileConfig {
    /// Checks the tool section of the manifest, if it has one. A manifest
    /// counts as loaded only when this check has passed.
    pub fn validate_mise_config(&self) -> (r: Result<(), RazdError>)
        ensures
            verdict_view(r) == manifest_verdict(self@),
    {
        match &self.mise {
            Some(section) => section.validate(),
            None => Ok(()),
        }
    }
}

} // verus!
