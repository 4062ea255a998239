//! Reading a tool manifest: from the text to a TOML tree, by the `toml`
//! crate, and from the tree to a tool section, by the rules below.
//!
//! A tool is a version string or a table with a `version`. In such a table
//! `postinstall` counts where it is a string, `os` where it is a string or an
//! array (of which the strings count), `install_env` where it is a table. A
//! plugin counts where its value is a string. A section without entries is
//! held as absent.

use vstd::prelude::*;
use vstd::string::*;
use crate::error::{join3, result_view, ErrorView, RazdError};
use crate::ordered_map::{names_of, put, OrderedMap};
use crate::razdfile::{MiseConfig, ToolConfig, ToolSection, ToolSpec};
use crate::text::{first_index_of, lemma_first_index_of, same_text};
use crate::toml_tree::{
    entries_view, items_view, lemma_array_view, lemma_table_view, toml_document, toml_from_str,
    toml_to_tree, TomlTree, TomlValue,
};

verus! {

/// The value under the first key `key` of a table, if the table has that key.
pub open spec fn field(entries: Seq<(Seq<char>, TomlTree)>, key: Seq<char>) -> Option<TomlTree> {
    let i = first_index_of(names_of(entries), key);
    if i < entries.len() {
        Some(entries[i].1)
    } else {
        None
    }
}

/// The string under `key`, if the table has `key` and a string under it.
pub open spec fn text_field(entries: Seq<(Seq<char>, TomlTree)>, key: Seq<char>) -> Option<
    Seq<char>,
> {
    match field(entries, key) {
        Some(TomlTree::Str(s)) => Some(s),
        _ => None,
    }
}

/// `acc`, then the strings among `items`, in order.
pub open spec fn string_items_from(items: Seq<TomlTree>, acc: Seq<Seq<char>>) -> Seq<Seq<char>>
    decreases items.len(),
{
    if items.len() == 0 {
        acc
    } else {
        match items[0] {
            TomlTree::Str(s) => string_items_from(items.drop_first(), acc.push(s)),
            _ => string_items_from(items.drop_first(), acc),
        }
    }
}

/// The systems that a tool's table names: one for a string, the strings of
/// an array where it has any.
pub open spec fn os_of(fields: Seq<(Seq<char>, TomlTree)>) -> Option<Seq<Seq<char>>> {
    match field(fields, "os"@) {
        Some(TomlTree::Str(s)) => Some(seq![s]),
        Some(TomlTree::Array(items)) => {
            let list = string_items_from(items, Seq::empty());
            if list.len() == 0 {
                None
            } else {
                Some(list)
            }
        },
        _ => None,
    }
}

/// `acc` with the entries of an `install_env` table put into it in order;
/// a value that is no string counts as the empty string.
pub open spec fn env_from(entries: Seq<(Seq<char>, TomlTree)>, acc: Seq<(Seq<char>, Seq<char>)>) -> Seq<
    (Seq<char>, Seq<char>),
>
    decreases entries.len(),
{
    if entries.len() == 0 {
        acc
    } else {
        let value = match entries[0].1 {
            TomlTree::Str(s) => s,
            _ => Seq::empty(),
        };
        env_from(entries.drop_first(), put(acc, entries[0].0, value))
    }
}

pub open spec fn install_env_of(fields: Seq<(Seq<char>, TomlTree)>) -> Option<
    Seq<(Seq<char>, Seq<char>)>,
> {
    match field(fields, "install_env"@) {
        Some(TomlTree::Table(entries)) => Some(env_from(entries, Seq::empty())),
        _ => None,
    }
}

/// The tool that the value `value` under the name `name` stands for.
pub open spec fn decode_tool(name: Seq<char>, value: TomlTree) -> Result<ToolSpec, ErrorView> {
    match value {
        TomlTree::Str(version) => Ok(ToolSpec::Simple(version)),
        TomlTree::Table(fields) => match text_field(fields, "version"@) {
            Some(version) => Ok(
                ToolSpec::Complex {
                    version,
                    postinstall: text_field(fields, "postinstall"@),
                    os: os_of(fields),
                    install_env: install_env_of(fields),
                },
            ),
            None => Err(ErrorView::Config("Tool '"@ + name + "' is missing 'version' field"@)),
        },
        _ => Err(ErrorView::Config("Invalid tool config for '"@ + name + "'"@)),
    }
}

/// `acc` with the tools of `entries` put into it in order; the error of the
/// first entry that is no tool.
pub open spec fn tools_from(entries: Seq<(Seq<char>, TomlTree)>, acc: Seq<(Seq<char>, ToolSpec)>) -> Result<
    Seq<(Seq<char>, ToolSpec)>,
    ErrorView,
>
    decreases entries.len(),
{
    if entries.len() == 0 {
        Ok(acc)
    } else {
        match decode_tool(entries[0].0, entries[0].1) {
            Ok(tool) => tools_from(entries.drop_first(), put(acc, entries[0].0, tool)),
            Err(e) => Err(e),
        }
    }
}

/// `acc` with the plugins of `entries` put into it in order; an entry whose
/// value is no string is passed over.
pub open spec fn plugins_from(
    entries: Seq<(Seq<char>, TomlTree)>,
    acc: Seq<(Seq<char>, Seq<char>)>,
) -> Seq<(Seq<char>, Seq<char>)>
    decreases entries.len(),
{
    if entries.len() == 0 {
        acc
    } else {
        match entries[0].1 {
            TomlTree::Str(url) => plugins_from(entries.drop_first(), put(acc, entries[0].0, url)),
            _ => plugins_from(entries.drop_first(), acc),
        }
    }
}

/// The entries of the table `name` of the document `doc`; none where `doc`
/// has no such key or no table under it.
pub open spec fn section_entries(doc: TomlTree, name: Seq<char>) -> Seq<(Seq<char>, TomlTree)> {
    match doc {
        TomlTree::Table(top) => match field(top, name) {
            Some(TomlTree::Table(entries)) => entries,
            _ => Seq::empty(),
        },
        _ => Seq::empty(),
    }
}

pub open spec fn none_if_empty<T>(entries: Seq<T>) -> Option<Seq<T>> {
    if entries.len() == 0 {
        None
    } else {
        Some(entries)
    }
}

/// The tool section that the document `doc` stands for.
pub open spec fn decode_section(doc: TomlTree) -> Result<ToolSection, ErrorView> {
    match tools_from(section_entries(doc, "tools"@), Seq::empty()) {
        Ok(tools) => Ok(
            ToolSection {
                tools: none_if_empty(tools),
                plugins: none_if_empty(
                    plugins_from(section_entries(doc, "plugins"@), Seq::empty()),
                ),
            },
        ),
        Err(e) => Err(e),
    }
}

/// The tool section that the text `text` stands for: an error where `text`
/// is not TOML, with the parser's message, else what its document decodes to.
pub open spec fn parsed_section(text: Seq<char>) -> Result<ToolSection, ErrorView> {
    match toml_document(text) {
        Ok(doc) => decode_section(doc),
        Err(message) => Err(ErrorView::Config("Invalid mise.toml: "@ + message)),
    }
}

/// The value under the first key `key` of `entries`.
pub fn find_field<'a>(entries: &'a Vec<(String, TomlValue)>, key: &str) -> (r: Option<
    &'a TomlValue,
>)
    ensures
        match r {
            Some(v) => field(entries_view(entries@), key@) == Some(v@),
            None => field(entries_view(entries@), key@) is None,
        },
{
    let ghost view = entries_view(entries@);
    let ghost names = names_of(view);
    proof {
        lemma_first_index_of(names, key@);
    }
    let mut i: usize = 0;
    while i < entries.len()
        invariant
            view == entries_view(entries@),
            names == names_of(view),
            i <= entries@.len(),
            forall|j: int| 0 <= j < i ==> names[j] != key@,
            0 <= first_index_of(names, key@) <= names.len(),
            forall|j: int| 0 <= j < first_index_of(names, key@) ==> names[j] != key@,
            first_index_of(names, key@) < names.len() ==> names[first_index_of(names, key@)]
                == key@,
        decreases entries@.len() - i,
    {
        if same_text(entries[i].0.as_str(), key) {
            assert(names[i as int] == key@);
            assert(first_index_of(names, key@) == i);
            return Some(&entries[i].1);
        }
        i = i + 1;
    }
    None
}

/// The string under `key`, if `entries` has `key` and a string under it.
pub fn find_text<'a>(entries: &'a Vec<(String, TomlValue)>, key: &str) -> (r: Option<&'a String>)
    ensures
        match r {
            Some(s) => text_field(entries_view(entries@), key@) == Some(s@),
            None => text_field(entries_view(entries@), key@) is None,
        },
{
    match find_field(entries, key) {
        Some(TomlValue::Str(s)) => Some(s),
        _ => None,
    }
}

/// The strings among `items`, in order.
pub fn string_items(items: &Vec<TomlValue>) -> (r: Vec<String>)
    ensures
        crate::razdfile::seq_view(r@) == string_items_from(items_view(items@), Seq::empty()),
{
    let ghost view = items_view(items@);
    let mut r: Vec<String> = Vec::new();
    let mut i: usize = 0;
    assert(view.skip(0) =~= view);
    assert(crate::razdfile::seq_view(r@) =~= Seq::<Seq<char>>::empty());
    while i < items.len()
        invariant
            view == items_view(items@),
            i <= items@.len(),
            string_items_from(view, Seq::empty()) == string_items_from(
                view.skip(i as int),
                crate::razdfile::seq_view(r@),
            ),
        decreases items@.len() - i,
    {
        let ghost before = crate::razdfile::seq_view(r@);
        proof {
            assert(view.skip(i as int).drop_first() =~= view.skip(i + 1));
            assert(view.skip(i as int)[0] == items@[i as int]@);
        }
        match &items[i] {
            TomlValue::Str(s) => {
                r.push(s.clone());
                assert(crate::razdfile::seq_view(r@) =~= before.push(s@));
            },
            _ => {},
        }
        i = i + 1;
    }
    r
}

/// The systems that a tool's table names.
pub fn decode_os(fields: &Vec<(String, TomlValue)>) -> (r: Option<Vec<String>>)
    ensures
        crate::razdfile::opt_texts(r) == os_of(entries_view(fields@)),
{
    match find_field(fields, "os") {
        Some(TomlValue::Str(s)) => {
            let mut list: Vec<String> = Vec::new();
            list.push(s.clone());
            assert(crate::razdfile::seq_view(list@) =~= seq![s@]);
            Some(list)
        },
        Some(TomlValue::Array(items)) => {
            proof {
                lemma_array_view(*items);
            }
            let list = string_items(items);
            if list.len() == 0 {
                None
            } else {
                Some(list)
            }
        },
        _ => None,
    }
}

/// The environment that a tool's table states for its installation.
pub fn decode_install_env(fields: &Vec<(String, TomlValue)>) -> (r: Option<OrderedMap<String>>)
    ensures
        crate::razdfile::opt_view(r) == install_env_of(entries_view(fields@)),
{
    match find_field(fields, "install_env") {
        Some(TomlValue::Table(entries)) => {
            proof {
                lemma_table_view(*entries);
            }
            let ghost view = entries_view(entries@);
            let mut map: OrderedMap<String> = OrderedMap::new();
            let mut i: usize = 0;
            assert(view.skip(0) =~= view);
            assert(map@ =~= Seq::<(Seq<char>, Seq<char>)>::empty());
            while i < entries.len()
                invariant
                    view == entries_view(entries@),
                    i <= entries@.len(),
                    env_from(view, Seq::empty()) == env_from(view.skip(i as int), map@),
                decreases entries@.len() - i,
            {
                proof {
                    assert(view.skip(i as int).drop_first() =~= view.skip(i + 1));
                    assert(view.skip(i as int)[0] == (entries@[i as int].0@, entries@[i as int].1@));
                }
                let value = match &entries[i].1 {
                    TomlValue::Str(s) => s.clone(),
                    _ => String::new(),
                };
                map.put(entries[i].0.clone(), value);
                i = i + 1;
            }
            Some(map)
        },
        _ => None,
    }
}

/// The tool that `value`, under the name `name`, stands for.
pub fn decode_tool_value(name: &str, value: &TomlValue) -> (r: Result<ToolConfig, RazdError>)
    ensures
        result_view(r) == decode_tool(name@, value@),
{
    match value {
        TomlValue::Str(version) => Ok(ToolConfig::Simple(version.clone())),
        TomlValue::Table(fields) => {
            proof {
                lemma_table_view(*fields);
            }
            match find_text(fields, "version") {
                Some(version) => {
                    let postinstall = match find_text(fields, "postinstall") {
                        Some(s) => Some(s.clone()),
                        None => None,
                    };
                    let os = decode_os(fields);
                    let install_env = decode_install_env(fields);
                    Ok(
                        ToolConfig::Complex {
                            version: version.clone(),
                            postinstall,
                            os,
                            install_env,
                        },
                    )
                },
                None => {
                    let msg = join3("Tool '", name, "' is missing 'version' field");
                    Err(RazdError::config(msg.as_str()))
                },
            }
        },
        _ => {
            let msg = join3("Invalid tool config for '", name, "'");
            Err(RazdError::config(msg.as_str()))
        },
    }
}

/// The tools that the entries of a `[tools]` table stand for.
pub fn decode_tools(entries: &Vec<(String, TomlValue)>) -> (r: Result<
    OrderedMap<ToolConfig>,
    RazdError,
>)
    ensures
        result_view(r) == tools_from(entries_view(entries@), Seq::empty()),
{
    let ghost view = entries_view(entries@);
    let mut map: OrderedMap<ToolConfig> = OrderedMap::new();
    let mut i: usize = 0;
    assert(view.skip(0) =~= view);
    assert(map@ =~= Seq::<(Seq<char>, ToolSpec)>::empty());
    while i < entries.len()
        invariant
            view == entries_view(entries@),
            i <= entries@.len(),
            tools_from(view, Seq::empty()) == tools_from(view.skip(i as int), map@),
        decreases entries@.len() - i,
    {
        proof {
            assert(view.skip(i as int).drop_first() =~= view.skip(i + 1));
            assert(view.skip(i as int)[0] == (entries@[i as int].0@, entries@[i as int].1@));
        }
        match decode_tool_value(entries[i].0.as_str(), &entries[i].1) {
            Ok(tool) => {
                map.put(entries[i].0.clone(), tool);
            },
            Err(e) => {
                return Err(e);
            },
        }
        i = i + 1;
    }
    Ok(map)
}

/// The plugins that the entries of a `[plugins]` table stand for.
pub fn decode_plugins(entries: &Vec<(String, TomlValue)>) -> (map: OrderedMap<String>)
    ensures
        map@ == plugins_from(entries_view(entries@), Seq::empty()),
{
    let ghost view = entries_view(entries@);
    let mut map: OrderedMap<String> = OrderedMap::new();
    let mut i: usize = 0;
    assert(view.skip(0) =~= view);
    assert(map@ =~= Seq::<(Seq<char>, Seq<char>)>::empty());
    while i < entries.len()
        invariant
            view == entries_view(entries@),
            i <= entries@.len(),
            plugins_from(view, Seq::empty()) == plugins_from(view.skip(i as int), map@),
        decreases entries@.len() - i,
    {
        proof {
            assert(view.skip(i as int).drop_first() =~= view.skip(i + 1));
            assert(view.skip(i as int)[0] == (entries@[i as int].0@, entries@[i as int].1@));
        }
        match &entries[i].1 {
            TomlValue::Str(url) => {
                map.put(entries[i].0.clone(), url.clone());
            },
            _ => {},
        }
        i = i + 1;
    }
    map
}

/// The entries of the table `name` of the document `doc`, if it has one.
pub fn find_section<'a>(doc: &'a TomlValue, name: &str) -> (r: Option<
    &'a Vec<(String, TomlValue)>,
>)
    ensures
        match r {
            Some(entries) => section_entries(doc@, name@) == entries_view(entries@),
            None => section_entries(doc@, name@) == Seq::<(Seq<char>, TomlTree)>::empty(),
        },
{
    match doc {
        TomlValue::Table(top) => {
            proof {
                lemma_table_view(*top);
            }
            match find_field(top, name) {
                Some(TomlValue::Table(entries)) => {
                    proof {
                        lemma_table_view(*entries);
                    }
                    Some(entries)
                },
                _ => None,
            }
        },
        _ => None,
    }
}

/// The tool section that the document `doc` stands for.
///
/// Fails on the first entry of `[tools]` that is neither a string nor a
/// table with a string `version`, and on nothing else.
pub fn decode_mise_config(doc: &TomlValue) -> (r: Result<MiseConfig, RazdError>)
    ensures
        result_view(r) == decode_section(doc@),
{
    let tools = match find_section(doc, "tools") {
        Some(entries) => match decode_tools(entries) {
            Ok(map) => map,
            Err(e) => {
                return Err(e);
            },
        },
        None => OrderedMap::new(),
    };
    let plugins = match find_section(doc, "plugins") {
        Some(entries) => decode_plugins(entries),
        None => OrderedMap::new(),
    };
    tools.entries_known();
    plugins.entries_known();
    let tools_len = tools.len();
    let plugins_len = plugins.len();
    Ok(
        MiseConfig {
            tools: if tools_len == 0 {
                None
            } else {
                Some(tools)
            },
            plugins: if plugins_len == 0 {
                None
            } else {
                Some(plugins)
            },
        },
    )
}

/// Reads a tool manifest from its text.
///
/// Text that is not TOML gives a configuration error with the parser's
/// message; any other text gives what its document decodes to.
pub fn parse_mise_toml(content: &str) -> (r: Result<MiseConfig, RazdError>)
    ensures
        result_view(r) == parsed_section(content@),
{
    match toml_from_str(content) {
        Ok(value) => {
            let doc = toml_to_tree(&value);
            decode_mise_config(&doc)
        },
        Err(message) => {
            let msg = crate::error::join2("Invalid mise.toml: ", message.as_str());
            Err(RazdError::config(msg.as_str()))
        },
    }
}

} // verus!
