//! Writing a tool manifest: from a tool section to the tables of a TOML
//! document, by the rules below, and from the tables to text, by the
//! `toml_edit` crate.
//!
//! A tool with a plain version is a string. A tool with options is an inline
//! table of `version`, `postinstall`, `os` and `install_env`, in that order,
//! each option only where the tool states it. A section without entries is
//! left out.

use vstd::prelude::*;
use vstd::string::*;
use crate::error::RazdError;
use crate::ordered_map::{names_of, OrderedMap};
use crate::razdfile::{
    opt_texts, opt_view, seq_view, valid_tool, MiseConfig, ToolConfig, ToolSection, ToolSpec,
};
use crate::toml_tree::{
    distinct_keys, edit_entries_view, edit_sections_view, edit_tree_of, entries_view, items_view,
    lemma_array_view, lemma_table_view, render_document, to_edit_value, toml_text, writable,
    TomlTree, TomlValue,
};

verus! {

/// The strings `texts` as TOML strings.
pub open spec fn text_items(texts: Seq<Seq<char>>) -> Seq<TomlTree> {
    Seq::new(texts.len(), |i: int| TomlTree::Str(texts[i]))
}

/// The entries `entries` with each text as a TOML string.
pub open spec fn text_entries(entries: Seq<(Seq<char>, Seq<char>)>) -> Seq<(Seq<char>, TomlTree)> {
    Seq::new(entries.len(), |i: int| (entries[i].0, TomlTree::Str(entries[i].1)))
}

pub open spec fn postinstall_field(postinstall: Option<Seq<char>>) -> Seq<(Seq<char>, TomlTree)> {
    match postinstall {
        Some(cmd) => seq![("postinstall"@, TomlTree::Str(cmd))],
        None => Seq::empty(),
    }
}

pub open spec fn os_field(os: Option<Seq<Seq<char>>>) -> Seq<(Seq<char>, TomlTree)> {
    match os {
        Some(list) => seq![("os"@, TomlTree::Array(text_items(list)))],
        None => Seq::empty(),
    }
}

pub open spec fn install_env_field(install_env: Option<Seq<(Seq<char>, Seq<char>)>>) -> Seq<
    (Seq<char>, TomlTree),
> {
    match install_env {
        Some(env) => seq![("install_env"@, TomlTree::Table(text_entries(env)))],
        None => Seq::empty(),
    }
}

/// The TOML value that stands for a tool.
pub open spec fn encode_tool(tool: ToolSpec) -> TomlTree {
    match tool {
        ToolSpec::Simple(version) => TomlTree::Str(version),
        ToolSpec::Complex { version, postinstall, os, install_env } => TomlTree::Table(
            seq![("version"@, TomlTree::Str(version))] + postinstall_field(postinstall) + os_field(
                os,
            ) + install_env_field(install_env),
        ),
    }
}

/// The entries of the `[tools]` table.
pub open spec fn tool_entries(tools: Seq<(Seq<char>, ToolSpec)>) -> Seq<(Seq<char>, TomlTree)> {
    Seq::new(tools.len(), |i: int| (tools[i].0, encode_tool(tools[i].1)))
}

pub open spec fn tools_section(tools: Option<Seq<(Seq<char>, ToolSpec)>>) -> Seq<
    (Seq<char>, Seq<(Seq<char>, TomlTree)>),
> {
    match tools {
        Some(entries) => if entries.len() > 0 {
            seq![("tools"@, tool_entries(entries))]
        } else {
            Seq::empty()
        },
        None => Seq::empty(),
    }
}

pub open spec fn plugins_section(plugins: Option<Seq<(Seq<char>, Seq<char>)>>) -> Seq<
    (Seq<char>, Seq<(Seq<char>, TomlTree)>),
> {
    match plugins {
        Some(entries) => if entries.len() > 0 {
            seq![("plugins"@, text_entries(entries))]
        } else {
            Seq::empty()
        },
        None => Seq::empty(),
    }
}

/// The tables of the document that stands for a tool section: `tools`, then
/// `plugins`, each only where it has entries.
pub open spec fn encode_section(section: ToolSection) -> Seq<
    (Seq<char>, Seq<(Seq<char>, TomlTree)>),
> {
    tools_section(section.tools) + plugins_section(section.plugins)
}

/// The text of the tool manifest that stands for a tool section.
pub open spec fn mise_toml_text(section: ToolSection) -> Seq<char> {
    toml_text(encode_section(section))
}

/// The entries of a map of strings, each value as a TOML string.
pub fn encode_texts(map: &OrderedMap<String>) -> (r: Vec<(String, TomlValue)>)
    ensures
        entries_view(r@) == text_entries(map@),
{
    let n = map.len();
    let mut r: Vec<(String, TomlValue)> = Vec::new();
    let mut i: usize = 0;
    while i < n
        invariant
            map.wf(),
            n == map.keys().len(),
            i <= n,
            r@.len() == i,
            forall|j: int|
                0 <= j < i ==> (#[trigger] r@[j]).0@ == map@[j].0 && r@[j].1@ == TomlTree::Str(
                    map@[j].1,
                ),
        decreases n - i,
    {
        match map.get_index(i) {
            Some((name, value)) => {
                r.push((name.clone(), TomlValue::Str(value.clone())));
            },
            None => {
                assert(false);
            },
        }
        i = i + 1;
    }
    assert(entries_view(r@) =~= text_entries(map@));
    r
}

/// The strings `list` as a TOML array.
pub fn encode_list(list: &Vec<String>) -> (r: TomlValue)
    ensures
        r@ == TomlTree::Array(text_items(seq_view(list@))),
{
    let mut items: Vec<TomlValue> = Vec::new();
    let mut i: usize = 0;
    while i < list.len()
        invariant
            i <= list@.len(),
            items@.len() == i,
            forall|j: int| 0 <= j < i ==> (#[trigger] items@[j])@ == TomlTree::Str(list@[j]@),
        decreases list@.len() - i,
    {
        items.push(TomlValue::Str(list[i].clone()));
        i = i + 1;
    }
    proof {
        lemma_array_view(items);
        assert(items_view(items@) =~= text_items(seq_view(list@)));
    }
    TomlValue::Array(items)
}

/// The TOML value that stands for `tool`.
pub fn encode_tool_value(tool: &ToolConfig) -> (r: TomlValue)
    ensures
        r@ == encode_tool(tool@),
{
    match tool {
        ToolConfig::Simple(version) => TomlValue::Str(version.clone()),
        ToolConfig::Complex { version, postinstall, os, install_env } => {
            let mut fields: Vec<(String, TomlValue)> = Vec::new();
            fields.push((String::from_str("version"), TomlValue::Str(version.clone())));
            let ghost a = seq![("version"@, TomlTree::Str(version@))];
            assert(entries_view(fields@) =~= a);
            match postinstall {
                Some(cmd) => {
                    fields.push((String::from_str("postinstall"), TomlValue::Str(cmd.clone())));
                },
                None => {},
            }
            let ghost b = postinstall_field(opt_view(*postinstall));
            assert(entries_view(fields@) =~= a + b);
            match os {
                Some(list) => {
                    fields.push((String::from_str("os"), encode_list(list)));
                },
                None => {},
            }
            let ghost c = os_field(opt_texts(*os));
            assert(entries_view(fields@) =~= a + b + c);
            match install_env {
                Some(env) => {
                    let entries = encode_texts(env);
                    proof {
                        lemma_table_view(entries);
                    }
                    fields.push((String::from_str("install_env"), TomlValue::Table(entries)));
                },
                None => {},
            }
            let ghost d = install_env_field(opt_view(*install_env));
            assert(entries_view(fields@) =~= a + b + c + d);
            proof {
                lemma_table_view(fields);
            }
            TomlValue::Table(fields)
        },
    }
}

/// Every tool stands for a value that can be written out.
pub proof fn lemma_encode_tool_writable(tool: ToolSpec)
    ensures
        writable(encode_tool(tool)),
{
    match tool {
        ToolSpec::Simple(version) => {},
        ToolSpec::Complex { version, postinstall, os, install_env } => {
            let fields = encode_tool(tool)->Table_0;
            assert forall|i: int| 0 <= i < fields.len() implies writable(
                (#[trigger] fields[i]).1,
            ) by {
                let value = fields[i].1;
                match value {
                    TomlTree::Array(items) => {
                        assert(os is Some);
                        assert(items == text_items(os->Some_0));
                        assert forall|j: int| 0 <= j < items.len() implies writable(
                            #[trigger] items[j],
                        ) by {}
                    },
                    TomlTree::Table(entries) => {
                        assert(install_env is Some);
                        assert(entries == text_entries(install_env->Some_0));
                        assert forall|j: int| 0 <= j < entries.len() implies writable(
                            (#[trigger] entries[j]).1,
                        ) by {}
                    },
                    _ => {},
                }
            }
        },
    }
}

/// The names of the fields of a tool's table differ from each other.
pub proof fn lemma_field_names_differ()
    ensures
        "version"@ != "postinstall"@,
        "version"@ != "os"@,
        "version"@ != "install_env"@,
        "postinstall"@ != "os"@,
        "postinstall"@ != "install_env"@,
        "os"@ != "install_env"@,
        "tools"@ != "plugins"@,
{
    reveal_strlit("version");
    reveal_strlit("postinstall");
    reveal_strlit("os");
    reveal_strlit("install_env");
    reveal_strlit("tools");
    reveal_strlit("plugins");
    assert("version"@.len() == 7);
    assert("postinstall"@.len() == 11);
    assert("os"@.len() == 2);
    assert("install_env"@.len() == 11);
    assert("postinstall"@[0] == 'p');
    assert("install_env"@[0] == 'i');
    assert("tools"@.len() == 5);
    assert("plugins"@.len() == 7);
}

/// No table of the value that a tool stands for has a key twice.
pub proof fn lemma_encode_tool_distinct(tool: ToolSpec)
    requires
        valid_tool(tool),
    ensures
        distinct_keys(encode_tool(tool)),
{
    match tool {
        ToolSpec::Simple(version) => {},
        ToolSpec::Complex { version, postinstall, os, install_env } => {
            lemma_field_names_differ();
            let fields = encode_tool(tool)->Table_0;
            let names = names_of(fields);
            assert forall|i: int, j: int|
                0 <= i < names.len() && 0 <= j < names.len() && i != j implies names[i]
                != names[j] by {
                assert(names[i] == fields[i].0);
                assert(names[j] == fields[j].0);
            }
            assert forall|i: int| 0 <= i < fields.len() implies distinct_keys(
                (#[trigger] fields[i]).1,
            ) by {
                match fields[i].1 {
                    TomlTree::Array(items) => {
                        assert(os is Some);
                        assert(items == text_items(os->Some_0));
                        assert forall|j: int| 0 <= j < items.len() implies distinct_keys(
                            #[trigger] items[j],
                        ) by {}
                    },
                    TomlTree::Table(entries) => {
                        assert(install_env is Some);
                        assert(entries == text_entries(install_env->Some_0));
                        assert(names_of(entries) =~= names_of(install_env->Some_0));
                        assert forall|j: int| 0 <= j < entries.len() implies distinct_keys(
                            (#[trigger] entries[j]).1,
                        ) by {}
                    },
                    _ => {},
                }
            }
        },
    }
}

/// The entries of the `[tools]` table, ready to be written out.
pub fn tool_table(tools: &OrderedMap<ToolConfig>) -> (r: Vec<(String, toml_edit::Value)>)
    ensures
        edit_entries_view(r@) == tool_entries(tools@),
{
    let n = tools.len();
    let mut r: Vec<(String, toml_edit::Value)> = Vec::new();
    let mut i: usize = 0;
    while i < n
        invariant
            tools.wf(),
            n == tools.keys().len(),
            i <= n,
            r@.len() == i,
            forall|j: int|
                0 <= j < i ==> (#[trigger] r@[j]).0@ == tools@[j].0 && edit_tree_of(r@[j].1)
                    == encode_tool(tools@[j].1),
        decreases n - i,
    {
        match tools.get_index(i) {
            Some((name, tool)) => {
                let tree = encode_tool_value(tool);
                tool.known_valid();
                proof {
                    lemma_encode_tool_writable(tool@);
                    lemma_encode_tool_distinct(tool@);
                }
                match to_edit_value(&tree) {
                    Some(value) => {
                        r.push((name.clone(), value));
                    },
                    None => {
                        assert(false);
                    },
                }
            },
            None => {
                assert(false);
            },
        }
        i = i + 1;
    }
    assert(edit_entries_view(r@) =~= tool_entries(tools@));
    r
}

/// The entries of the `[plugins]` table, ready to be written out.
pub fn plugin_table(plugins: &OrderedMap<String>) -> (r: Vec<(String, toml_edit::Value)>)
    ensures
        edit_entries_view(r@) == text_entries(plugins@),
{
    let n = plugins.len();
    let mut r: Vec<(String, toml_edit::Value)> = Vec::new();
    let mut i: usize = 0;
    while i < n
        invariant
            plugins.wf(),
            n == plugins.keys().len(),
            i <= n,
            r@.len() == i,
            forall|j: int|
                0 <= j < i ==> (#[trigger] r@[j]).0@ == plugins@[j].0 && edit_tree_of(r@[j].1)
                    == TomlTree::Str(plugins@[j].1),
        decreases n - i,
    {
        match plugins.get_index(i) {
            Some((name, url)) => {
                let tree = TomlValue::Str(url.clone());
                match to_edit_value(&tree) {
                    Some(value) => {
                        r.push((name.clone(), value));
                    },
                    None => {
                        assert(false);
                    },
                }
            },
            None => {
                assert(false);
            },
        }
        i = i + 1;
    }
    assert(edit_entries_view(r@) =~= text_entries(plugins@));
    r
}

/// The text of the tool manifest that stands for `mise_config`.
///
/// Always succeeds. A section of the manifest is written only where the
/// tool section has entries for it.
pub fn generate_mise_toml(mise_config: &MiseConfig) -> (r: Result<String, RazdError>)
    ensures
        r is Ok,
        r->Ok_0@ == mise_toml_text(mise_config@),
{
    let mut sections: Vec<(String, Vec<(String, toml_edit::Value)>)> = Vec::new();
    match &mise_config.tools {
        Some(tools) => {
            if tools.len() > 0 {
                tools.entries_known();
                sections.push((String::from_str("tools"), tool_table(tools)));
            }
        },
        None => {},
    }
    let ghost first = tools_section(mise_config@.tools);
    assert(edit_sections_view(sections@) =~= first);
    match &mise_config.plugins {
        Some(plugins) => {
            if plugins.len() > 0 {
                plugins.entries_known();
                sections.push((String::from_str("plugins"), plugin_table(plugins)));
            }
        },
        None => {},
    }
    assert(edit_sections_view(sections@) =~= first + plugins_section(mise_config@.plugins));
    Ok(render_document(&sections))
}

} // verus!
