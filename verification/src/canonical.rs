//! Canonical forms: for each manifest a text that depends on what the
//! manifest says and not on the order in which it says it.
//!
//! Entries of a map are written in ascending order of their names. Commands
//! keep their order. A section that is absent and one that is empty are
//! written alike: not at all.

use vstd::prelude::*;
use vstd::string::*;
use crate::mise_parser::{parse_mise_toml, parsed_section};
use crate::ordered_map::{names_of, put, OrderedMap};
use crate::razdfile::{
    lemma_var_list_view, lemma_var_map_view, var_entries_view, var_items_view, opt_texts, opt_view, seq_view, Command, CommandSpec, Manifest, MiseConfig,
    RazdfileConfig, Task, TaskConfig, ToolConfig, ToolSection, ToolSpec, VarSpec, VarValue,
};
use crate::text::{first_index_of, lemma_first_index_of};
use crate::text_order::{names_at, sorted_names, sorted_positions};

verus! {

/// The value that `entries` gives to `name`.
pub open spec fn lookup<W>(entries: Seq<(Seq<char>, W)>, name: Seq<char>) -> W {
    entries[first_index_of(names_of(entries), name)].1
}

/// The entries of `entries` in ascending order of their names.
pub open spec fn sorted_entries<W>(entries: Seq<(Seq<char>, W)>) -> Seq<(Seq<char>, W)> {
    let names = sorted_names(names_of(entries));
    Seq::new(names.len(), |i: int| (names[i], lookup(entries, names[i])))
}

/// Where no name occurs twice, looking up the name of an entry gives that
/// entry's value.
pub proof fn lemma_lookup_entry<W>(entries: Seq<(Seq<char>, W)>, j: int)
    requires
        names_of(entries).no_duplicates(),
        0 <= j < entries.len(),
    ensures
        lookup(entries, entries[j].0) == entries[j].1,
{
    let names = names_of(entries);
    lemma_first_index_of(names, entries[j].0);
    assert(names[j] == entries[j].0);
    let f = first_index_of(names, entries[j].0);
    if f != j {
        assert(f < j);
        assert(names[f] == names[j]);
    }
}

/// The entries of `map`, each as its name and its value, in ascending order
/// of the names.
pub fn sorted_refs<V: View>(map: &OrderedMap<V>) -> (r: Vec<(&String, &V)>)
    ensures
        map.wf(),
        r@.len() == map@.len(),
        r@.len() == sorted_entries(map@).len(),
        forall|i: int|
            0 <= i < r@.len() ==> (#[trigger] r@[i]).0@ == sorted_entries(map@)[i].0 && r@[i].1@
                == sorted_entries(map@)[i].1,
{
    let order = sorted_positions(map);
    let ghost entries = map@;
    let ghost keys = map.keys();
    assert(names_of(entries) =~= keys);
    let mut r: Vec<(&String, &V)> = Vec::new();
    let mut i: usize = 0;
    while i < order.len()
        invariant
            map.wf(),
            entries == map@,
            keys == map.keys(),
            names_of(entries) == keys,
            order@.len() == keys.len(),
            forall|j: int| 0 <= j < order@.len() ==> order@[j] < keys.len(),
            names_at(keys, order@) == sorted_names(keys),
            i <= order@.len(),
            r@.len() == i,
            forall|j: int|
                0 <= j < i ==> (#[trigger] r@[j]).0@ == sorted_entries(entries)[j].0 && r@[j].1@
                    == sorted_entries(entries)[j].1,
        decreases order@.len() - i,
    {
        let at = order[i];
        match map.get_index(at) {
            Some(entry) => {
                proof {
                    assert(names_at(keys, order@)[i as int] == keys[at as int]);
                    lemma_lookup_entry(entries, at as int);
                }
                r.push(entry);
            },
            None => {
                assert(false);
            },
        }
        i = i + 1;
    }
    r
}

/// The texts of `parts` with `sep` between them.
pub open spec fn joined(parts: Seq<Seq<char>>, sep: Seq<char>) -> Seq<char>
    decreases parts.len(),
{
    if parts.len() == 0 {
        Seq::empty()
    } else if parts.len() == 1 {
        parts[0]
    } else {
        joined(parts.drop_last(), sep) + sep + parts.last()
    }
}

/// Joins the strings of `parts` with `sep` between them.
pub fn join_texts(parts: &Vec<String>, sep: &str) -> (out: String)
    ensures
        out@ == joined(seq_view(parts@), sep@),
{
    let ghost texts = seq_view(parts@);
    let mut out = String::new();
    let mut i: usize = 0;
    assert(texts.take(0) =~= Seq::<Seq<char>>::empty());
    while i < parts.len()
        invariant
            texts == seq_view(parts@),
            i <= parts@.len(),
            out@ == joined(texts.take(i as int), sep@),
        decreases parts@.len() - i,
    {
        proof {
            let next = texts.take(i + 1);
            assert(next.drop_last() =~= texts.take(i as int));
            assert(next.last() == parts@[i as int]@);
            if i == 0 {
                assert(out@ + parts@[0]@ =~= parts@[0]@);
            }
        }
        if i > 0 {
            out.append(sep);
        }
        out.append(parts[i].as_str());
        i = i + 1;
    }
    assert(texts.take(parts@.len() as int) =~= texts);
    out
}

/// `acc` with the entries `entries` put into it in order.
pub open spec fn put_all(
    entries: Seq<(Seq<char>, Seq<char>)>,
    acc: Seq<(Seq<char>, Seq<char>)>,
) -> Seq<(Seq<char>, Seq<char>)>
    decreases entries.len(),
{
    if entries.len() == 0 {
        acc
    } else {
        put_all(entries.drop_first(), put(acc, entries[0].0, entries[0].1))
    }
}

/// What the text of a variable's value is made of: the text itself, the
/// texts of a list's items, or the bindings of a nested map with the texts
/// of their values.
pub enum VarParts {
    Plain(Seq<char>),
    Items(Seq<Seq<char>>),
    Bindings(Seq<(Seq<char>, Seq<char>)>),
}

/// The parts of the text of `v`.
pub open spec fn var_parts(v: VarSpec) -> VarParts
    decreases v, 0int,
{
    match v {
        VarSpec::Text(s) => VarParts::Plain(s),
        VarSpec::Number(s) => VarParts::Plain(s),
        VarSpec::Bool(b) => VarParts::Plain(
            if b {
                "true"@
            } else {
                "false"@
            },
        ),
        VarSpec::Null => VarParts::Plain("null"@),
        VarSpec::List(items) => VarParts::Items(
            Seq::new(
                items.len(),
                |i: int|
                    if 0 <= i < items.len() {
                        var_text(items[i])
                    } else {
                        Seq::empty()
                    },
            ),
        ),
        VarSpec::Nested(entries) => VarParts::Bindings(
            Seq::new(
                entries.len(),
                |i: int|
                    if 0 <= i < entries.len() {
                        (entries[i].0, var_text(entries[i].1))
                    } else {
                        (Seq::empty(), Seq::empty())
                    },
            ),
        ),
    }
}

/// The text that stands for a variable's value: a string and a number as
/// they are, a truth value as `true` or `false`, nothing as `null`, a list
/// as its items between brackets, and a nested map as its bindings between
/// braces, in ascending order of their names; of two bindings of one name
/// the later one counts.
pub open spec fn var_text(v: VarSpec) -> Seq<char>
    decreases v, 1int,
{
    match var_parts(v) {
        VarParts::Plain(s) => s,
        VarParts::Items(texts) => "["@ + joined(texts, ","@) + "]"@,
        VarParts::Bindings(bindings) => "{"@ + pairs_text(
            sorted_entries(put_all(bindings, Seq::empty())),
        ) + "}"@,
    }
}

/// The texts of the items of a list of values.
pub open spec fn item_texts(items: Seq<VarSpec>) -> Seq<Seq<char>> {
    Seq::new(items.len(), |i: int| var_text(items[i]))
}

/// The text of a list is the texts of its items between brackets; the text
/// of a nested map is its bindings between braces, sorted by name.
pub proof fn lemma_var_text(v: VarSpec)
    ensures
        v matches VarSpec::List(items) ==> var_text(v) == "["@ + joined(item_texts(items), ","@)
            + "]"@,
        v matches VarSpec::Nested(entries) ==> var_text(v) == "{"@ + pairs_text(
            sorted_entries(put_all(var_texts(entries), Seq::empty())),
        ) + "}"@,
{
    match v {
        VarSpec::List(items) => {
            assert(var_parts(v) is Items);
            assert(var_parts(v)->Items_0 =~= item_texts(items));
        },
        VarSpec::Nested(entries) => {
            assert(var_parts(v) is Bindings);
            assert(var_parts(v)->Bindings_0 =~= var_texts(entries));
        },
        _ => {},
    }
}

/// The bindings of `entries`, each value as the text that stands for it.
pub open spec fn var_texts(entries: Seq<(Seq<char>, VarSpec)>) -> Seq<(Seq<char>, Seq<char>)> {
    Seq::new(entries.len(), |i: int| (entries[i].0, var_text(entries[i].1)))
}

/// `name:value` for each entry, with commas between them.
pub open spec fn pairs_text(entries: Seq<(Seq<char>, Seq<char>)>) -> Seq<char>
    decreases entries.len(),
{
    if entries.len() == 0 {
        Seq::empty()
    } else if entries.len() == 1 {
        entries[0].0 + ":"@ + entries[0].1
    } else {
        pairs_text(entries.drop_last()) + ","@ + entries.last().0 + ":"@ + entries.last().1
    }
}

/// One more pair after the first `i` of `entries`.
proof fn lemma_pairs_text_step(entries: Seq<(Seq<char>, Seq<char>)>, i: int)
    requires
        0 <= i < entries.len(),
    ensures
        pairs_text(entries.take(i + 1)) == if i == 0 {
            entries[0].0 + ":"@ + entries[0].1
        } else {
            pairs_text(entries.take(i)) + ","@ + entries[i].0 + ":"@ + entries[i].1
        },
{
    let next = entries.take(i + 1);
    assert(next.drop_last() =~= entries.take(i));
    assert(next.last() == entries[i]);
    assert(next[0] == entries[0]);
}

/// The pairs of a map of strings, sorted by name.
pub fn env_pairs(map: &OrderedMap<String>) -> (out: String)
    ensures
        map.wf(),
        out@ == pairs_text(sorted_entries(map@)),
{
    let refs = sorted_refs(map);
    let ghost sorted = sorted_entries(map@);
    let mut out = String::new();
    let mut i: usize = 0;
    assert(sorted.take(0) =~= Seq::<(Seq<char>, Seq<char>)>::empty());
    while i < refs.len()
        invariant
            sorted == sorted_entries(map@),
            refs@.len() == sorted.len(),
            forall|j: int|
                0 <= j < refs@.len() ==> (#[trigger] refs@[j]).0@ == sorted[j].0 && refs@[j].1@
                    == sorted[j].1,
            i <= refs@.len(),
            out@ == pairs_text(sorted.take(i as int)),
        decreases refs@.len() - i,
    {
        proof {
            lemma_pairs_text_step(sorted, i as int);
            if i == 0 {
                assert(out@ + sorted[0].0 + ":"@ + sorted[0].1 =~= sorted[0].0 + ":"@
                    + sorted[0].1);
            }
        }
        let (name, value) = refs[i];
        if i > 0 {
            out.append(",");
        }
        out.append(name.as_str());
        out.append(":");
        out.append(value.as_str());
        i = i + 1;
    }
    assert(sorted.take(refs@.len() as int) =~= sorted);
    out
}

/// The texts of the values `items`.
pub fn list_texts(items: &Vec<VarValue>) -> (texts: Vec<String>)
    ensures
        seq_view(texts@) == item_texts(var_items_view(items@)),
    decreases items,
{
    let ghost views = var_items_view(items@);
    let mut texts: Vec<String> = Vec::new();
    let mut i: usize = 0;
    while i < items.len()
        invariant
            views == var_items_view(items@),
            i <= items@.len(),
            texts@.len() == i,
            forall|j: int| 0 <= j < i ==> (#[trigger] texts@[j])@ == var_text(views[j]),
        decreases items@.len() - i,
    {
        proof {
            vstd::std_specs::vec::axiom_vec_index_decreases(*items, i as int);
        }
        texts.push(var_value_text(&items[i]));
        i = i + 1;
    }
    assert(seq_view(texts@) =~= item_texts(views));
    texts
}

/// The bindings `entries` as a map from their names to the texts of their
/// values; of two bindings of one name the later one counts.
pub fn nested_texts(entries: &Vec<(String, VarValue)>) -> (map: OrderedMap<String>)
    ensures
        map@ == put_all(var_texts(var_entries_view(entries@)), Seq::empty()),
    decreases entries,
{
    let ghost views = var_entries_view(entries@);
    let ghost all = var_texts(views);
    let mut map: OrderedMap<String> = OrderedMap::new();
    let mut i: usize = 0;
    assert(all.skip(0) =~= all);
    assert(map@ =~= Seq::<(Seq<char>, Seq<char>)>::empty());
    while i < entries.len()
        invariant
            views == var_entries_view(entries@),
            all == var_texts(views),
            i <= entries@.len(),
            put_all(all, Seq::empty()) == put_all(all.skip(i as int), map@),
        decreases entries@.len() - i,
    {
        proof {
            assert(all.skip(i as int).drop_first() =~= all.skip(i + 1));
            assert(all.skip(i as int)[0] == all[i as int]);
            vstd::std_specs::vec::axiom_vec_index_decreases(*entries, i as int);
        }
        let text = var_value_text(&entries[i].1);
        map.put(entries[i].0.clone(), text);
        i = i + 1;
    }
    map
}

/// The text that stands for `v`.
pub fn var_value_text(v: &VarValue) -> (out: String)
    ensures
        out@ == var_text(v@),
    decreases v,
{
    match v {
        VarValue::Text(s) => {
            assert(v@ == VarSpec::Text(s@));
            s.clone()
        },
        VarValue::Number(s) => {
            assert(v@ == VarSpec::Number(s@));
            s.clone()
        },
        VarValue::Bool(b) => {
            assert(v@ == VarSpec::Bool(*b));
            if *b {
                String::from_str("true")
            } else {
                String::from_str("false")
            }
        },
        VarValue::Null => {
            assert(v@ == VarSpec::Null);
            String::from_str("null")
        },
        VarValue::List(items) => {
            proof {
                lemma_var_list_view(*items);
                lemma_var_text(v@);
            }
            let texts = list_texts(items);
            let inner = join_texts(&texts, ",");
            let mut out = String::from_str("[");
            out.append(inner.as_str());
            out.append("]");
            out
        },
        VarValue::Nested(entries) => {
            proof {
                lemma_var_map_view(*entries);
                lemma_var_text(v@);
            }
            let map = nested_texts(entries);
            let inner = env_pairs(&map);
            let mut out = String::from_str("{");
            out.append(inner.as_str());
            out.append("}");
            out
        },
    }
}

/// The pairs of a map of variables, sorted by name.
pub fn var_pairs(map: &OrderedMap<VarValue>) -> (out: String)
    ensures
        map.wf(),
        out@ == pairs_text(var_texts(sorted_entries(map@))),
{
    let refs = sorted_refs(map);
    let ghost sorted = var_texts(sorted_entries(map@));
    let mut out = String::new();
    let mut i: usize = 0;
    assert(sorted.take(0) =~= Seq::<(Seq<char>, Seq<char>)>::empty());
    while i < refs.len()
        invariant
            sorted == var_texts(sorted_entries(map@)),
            refs@.len() == sorted.len(),
            forall|j: int|
                0 <= j < refs@.len() ==> (#[trigger] refs@[j]).0@ == sorted[j].0 && var_text(
                    refs@[j].1@,
                ) == sorted[j].1,
            i <= refs@.len(),
            out@ == pairs_text(sorted.take(i as int)),
        decreases refs@.len() - i,
    {
        proof {
            lemma_pairs_text_step(sorted, i as int);
            if i == 0 {
                assert(out@ + sorted[0].0 + ":"@ + sorted[0].1 =~= sorted[0].0 + ":"@
                    + sorted[0].1);
            }
        }
        let (name, value) = refs[i];
        let text = var_value_text(value);
        if i > 0 {
            out.append(",");
        }
        out.append(name.as_str());
        out.append(":");
        out.append(text.as_str());
        i = i + 1;
    }
    assert(sorted.take(refs@.len() as int) =~= sorted);
    out
}

/// The lines of one tool: its name and version, then what it states of
/// `postinstall`, `os` and `install_env`, each on a line of its own. `indent`
/// stands before the name and `sep` between a name and its value.
pub open spec fn tool_lines(indent: Seq<char>, sep: Seq<char>, name: Seq<char>, tool: ToolSpec) -> Seq<
    char,
> {
    match tool {
        ToolSpec::Simple(version) => indent + name + sep + version + "\n"@,
        ToolSpec::Complex { version, postinstall, os, install_env } => indent + name + sep + version
            + "\n"@ + postinstall_line(indent, sep, postinstall) + os_line(indent, sep, os)
            + install_env_line(indent, sep, install_env),
    }
}

pub open spec fn postinstall_line(
    indent: Seq<char>,
    sep: Seq<char>,
    postinstall: Option<Seq<char>>,
) -> Seq<char> {
    match postinstall {
        Some(cmd) => indent + "  postinstall"@ + sep + cmd + "\n"@,
        None => Seq::empty(),
    }
}

pub open spec fn os_line(indent: Seq<char>, sep: Seq<char>, os: Option<Seq<Seq<char>>>) -> Seq<
    char,
> {
    match os {
        Some(list) => if list.len() > 0 {
            indent + "  os"@ + sep + joined(list, ","@) + "\n"@
        } else {
            Seq::empty()
        },
        None => Seq::empty(),
    }
}

pub open spec fn install_env_line(
    indent: Seq<char>,
    sep: Seq<char>,
    install_env: Option<Seq<(Seq<char>, Seq<char>)>>,
) -> Seq<char> {
    match install_env {
        Some(env) => if env.len() > 0 {
            indent + "  install_env"@ + sep + "{"@ + pairs_text(sorted_entries(env)) + "}\n"@
        } else {
            Seq::empty()
        },
        None => Seq::empty(),
    }
}

/// Writes the `postinstall` line of a tool after `out`.
fn write_postinstall_line(out: &mut String, indent: &str, sep: &str, postinstall: &Option<String>)
    ensures
        final(out)@ == old(out)@ + postinstall_line(indent@, sep@, opt_view(*postinstall)),
{
    let ghost start = out@;
    match postinstall {
        Some(cmd) => {
            out.append(indent);
            out.append("  postinstall");
            out.append(sep);
            out.append(cmd.as_str());
            out.append("\n");
            assert(out@ =~= start + (indent@ + "  postinstall"@ + sep@ + cmd@ + "\n"@));
        },
        None => {
            assert(out@ =~= start + Seq::<char>::empty());
        },
    }
}

/// Writes the `os` line of a tool after `out`.
fn write_os_line(out: &mut String, indent: &str, sep: &str, os: &Option<Vec<String>>)
    ensures
        final(out)@ == old(out)@ + os_line(indent@, sep@, opt_texts(*os)),
{
    let ghost start = out@;
    match os {
        Some(list) => {
            if list.len() > 0 {
                let text = join_texts(list, ",");
                out.append(indent);
                out.append("  os");
                out.append(sep);
                out.append(text.as_str());
                out.append("\n");
                assert(out@ =~= start + (indent@ + "  os"@ + sep@ + text@ + "\n"@));
            } else {
                assert(out@ =~= start + Seq::<char>::empty());
            }
        },
        None => {
            assert(out@ =~= start + Seq::<char>::empty());
        },
    }
}

/// Writes the `install_env` line of a tool after `out`.
fn write_install_env_line(
    out: &mut String,
    indent: &str,
    sep: &str,
    install_env: &Option<OrderedMap<String>>,
)
    ensures
        final(out)@ == old(out)@ + install_env_line(indent@, sep@, opt_view(*install_env)),
{
    let ghost start = out@;
    match install_env {
        Some(env) => {
            if env.len() > 0 {
                let text = env_pairs(env);
                out.append(indent);
                out.append("  install_env");
                out.append(sep);
                out.append("{");
                out.append(text.as_str());
                out.append("}\n");
                assert(out@ =~= start + (indent@ + "  install_env"@ + sep@ + "{"@ + text@
                    + "}\n"@));
            } else {
                assert(out@ =~= start + Seq::<char>::empty());
            }
        },
        None => {
            assert(out@ =~= start + Seq::<char>::empty());
        },
    }
}

/// Writes the first line of a tool after `out`: its name and its version.
fn write_tool_head(out: &mut String, indent: &str, sep: &str, name: &str, version: &str)
    ensures
        final(out)@ == old(out)@ + (indent@ + name@ + sep@ + version@ + "\n"@),
{
    let ghost start = out@;
    out.append(indent);
    out.append(name);
    out.append(sep);
    out.append(version);
    out.append("\n");
    assert(out@ =~= start + (indent@ + name@ + sep@ + version@ + "\n"@));
}

/// Writes the lines of one tool after `out`.
pub fn write_tool(out: &mut String, indent: &str, sep: &str, name: &str, tool: &ToolConfig)
    ensures
        final(out)@ == old(out)@ + tool_lines(indent@, sep@, name@, tool@),
{
    let ghost start = out@;
    match tool {
        ToolConfig::Simple(version) => {
            write_tool_head(out, indent, sep, name, version.as_str());
        },
        ToolConfig::Complex { version, postinstall, os, install_env } => {
            write_tool_head(out, indent, sep, name, version.as_str());
            let ghost a = indent@ + name@ + sep@ + version@ + "\n"@;
            write_postinstall_line(out, indent, sep, postinstall);
            let ghost b = postinstall_line(indent@, sep@, opt_view(*postinstall));
            write_os_line(out, indent, sep, os);
            let ghost c = os_line(indent@, sep@, opt_texts(*os));
            write_install_env_line(out, indent, sep, install_env);
            let ghost d = install_env_line(indent@, sep@, opt_view(*install_env));
            assert(out@ == start + a + b + c + d);
            assert(start + a + b + c + d =~= start + (a + b + c + d));
        },
    }
}

/// The lines of the tools `entries`, one tool after the other.
pub open spec fn tools_lines(indent: Seq<char>, sep: Seq<char>, entries: Seq<(Seq<char>, ToolSpec)>) -> Seq<
    char,
>
    decreases entries.len(),
{
    if entries.len() == 0 {
        Seq::empty()
    } else {
        tools_lines(indent, sep, entries.drop_last()) + tool_lines(
            indent,
            sep,
            entries.last().0,
            entries.last().1,
        )
    }
}

/// The lines of the plugins `entries`: on each a name and its URL.
pub open spec fn plugins_lines(
    indent: Seq<char>,
    sep: Seq<char>,
    entries: Seq<(Seq<char>, Seq<char>)>,
) -> Seq<char>
    decreases entries.len(),
{
    if entries.len() == 0 {
        Seq::empty()
    } else {
        plugins_lines(indent, sep, entries.drop_last()) + indent + entries.last().0 + sep
            + entries.last().1 + "\n"@
    }
}

/// The block of the tools: `header`, then the tools in ascending order of
/// their names; nothing where there are no tools.
pub open spec fn tools_block(
    header: Seq<char>,
    indent: Seq<char>,
    sep: Seq<char>,
    tools: Option<Seq<(Seq<char>, ToolSpec)>>,
) -> Seq<char> {
    match tools {
        Some(entries) => if entries.len() > 0 {
            header + tools_lines(indent, sep, sorted_entries(entries))
        } else {
            Seq::empty()
        },
        None => Seq::empty(),
    }
}

/// The block of the plugins: `header`, then the plugins in ascending order of
/// their names; nothing where there are no plugins.
pub open spec fn plugins_block(
    header: Seq<char>,
    indent: Seq<char>,
    sep: Seq<char>,
    plugins: Option<Seq<(Seq<char>, Seq<char>)>>,
) -> Seq<char> {
    match plugins {
        Some(entries) => if entries.len() > 0 {
            header + plugins_lines(indent, sep, sorted_entries(entries))
        } else {
            Seq::empty()
        },
        None => Seq::empty(),
    }
}

/// Writes the block of the tools after `out`.
pub fn write_tools_block(
    out: &mut String,
    header: &str,
    indent: &str,
    sep: &str,
    tools: &Option<OrderedMap<ToolConfig>>,
)
    ensures
        final(out)@ == old(out)@ + tools_block(header@, indent@, sep@, opt_view(*tools)),
{
    let ghost start = out@;
    match tools {
        Some(map) => {
            if map.len() > 0 {
                let refs = sorted_refs(map);
                let ghost sorted = sorted_entries(map@);
                out.append(header);
                let mut i: usize = 0;
                assert(sorted.take(0) =~= Seq::<(Seq<char>, ToolSpec)>::empty());
                assert(out@ =~= start + header@ + tools_lines(indent@, sep@, sorted.take(0)));
                while i < refs.len()
                    invariant
                        sorted == sorted_entries(map@),
                        refs@.len() == sorted.len(),
                        forall|j: int|
                            0 <= j < refs@.len() ==> (#[trigger] refs@[j]).0@ == sorted[j].0
                                && refs@[j].1@ == sorted[j].1,
                        i <= refs@.len(),
                        out@ == start + header@ + tools_lines(
                            indent@,
                            sep@,
                            sorted.take(i as int),
                        ),
                    decreases refs@.len() - i,
                {
                    proof {
                        let next = sorted.take(i + 1);
                        assert(next.drop_last() =~= sorted.take(i as int));
                        assert(next.last() == sorted[i as int]);
                    }
                    let (name, tool) = refs[i];
                    write_tool(out, indent, sep, name.as_str(), tool);
                    assert(out@ =~= start + header@ + tools_lines(
                        indent@,
                        sep@,
                        sorted.take(i + 1),
                    ));
                    i = i + 1;
                }
                assert(sorted.take(refs@.len() as int) =~= sorted);
                assert(out@ =~= start + (header@ + tools_lines(indent@, sep@, sorted)));
            } else {
                assert(out@ =~= start + Seq::<char>::empty());
            }
        },
        None => {
            assert(out@ =~= start + Seq::<char>::empty());
        },
    }
}

/// Writes the block of the plugins after `out`.
pub fn write_plugins_block(
    out: &mut String,
    header: &str,
    indent: &str,
    sep: &str,
    plugins: &Option<OrderedMap<String>>,
)
    ensures
        final(out)@ == old(out)@ + plugins_block(header@, indent@, sep@, opt_view(*plugins)),
{
    let ghost start = out@;
    match plugins {
        Some(map) => {
            if map.len() > 0 {
                let refs = sorted_refs(map);
                let ghost sorted = sorted_entries(map@);
                out.append(header);
                let mut i: usize = 0;
                assert(sorted.take(0) =~= Seq::<(Seq<char>, Seq<char>)>::empty());
                assert(out@ =~= start + header@ + plugins_lines(indent@, sep@, sorted.take(0)));
                while i < refs.len()
                    invariant
                        sorted == sorted_entries(map@),
                        refs@.len() == sorted.len(),
                        forall|j: int|
                            0 <= j < refs@.len() ==> (#[trigger] refs@[j]).0@ == sorted[j].0
                                && refs@[j].1@ == sorted[j].1,
                        i <= refs@.len(),
                        out@ == start + header@ + plugins_lines(
                            indent@,
                            sep@,
                            sorted.take(i as int),
                        ),
                    decreases refs@.len() - i,
                {
                    proof {
                        let next = sorted.take(i + 1);
                        assert(next.drop_last() =~= sorted.take(i as int));
                        assert(next.last() == sorted[i as int]);
                    }
                    let (name, url) = refs[i];
                    out.append(indent);
                    out.append(name.as_str());
                    out.append(sep);
                    out.append(url.as_str());
                    out.append("\n");
                    assert(out@ =~= start + header@ + plugins_lines(
                        indent@,
                        sep@,
                        sorted.take(i + 1),
                    ));
                    i = i + 1;
                }
                assert(sorted.take(refs@.len() as int) =~= sorted);
                assert(out@ =~= start + (header@ + plugins_lines(indent@, sep@, sorted)));
            } else {
                assert(out@ =~= start + Seq::<char>::empty());
            }
        },
        None => {
            assert(out@ =~= start + Seq::<char>::empty());
        },
    }
}

/// The canonical form of a tool manifest: a `[tools]` block and a `[plugins]`
/// block, each only where it has entries.
pub open spec fn canonical_mise(section: ToolSection) -> Seq<char> {
    tools_block("[tools]\n"@, Seq::empty(), "="@, section.tools) + plugins_block(
        "[plugins]\n"@,
        Seq::empty(),
        "="@,
        section.plugins,
    )
}

/// The canonical form of a tool manifest.
pub fn canonicalize_mise_toml(config: &MiseConfig) -> (out: String)
    ensures
        out@ == canonical_mise(config@),
{
    let mut out = String::new();
    write_tools_block(&mut out, "[tools]\n", "", "=", &config.tools);
    write_plugins_block(&mut out, "[plugins]\n", "", "=", &config.plugins);
    proof {
        reveal_strlit("");
        assert(""@ =~= Seq::<char>::empty());
        assert(out@ =~= canonical_mise(config@));
    }
    out
}

/// What a call of a task says of its variables: nothing where it binds
/// none, else the bindings in ascending order of their names.
pub open spec fn vars_suffix(vars: Option<Seq<(Seq<char>, VarSpec)>>) -> Seq<char> {
    match vars {
        Some(v) => if v.len() > 0 {
            ",vars:{"@ + pairs_text(var_texts(sorted_entries(v))) + "}"@
        } else {
            Seq::empty()
        },
        None => Seq::empty(),
    }
}

/// The line of one command. A shell command has the same line with and
/// without options.
pub open spec fn command_line(c: CommandSpec) -> Seq<char> {
    match c {
        CommandSpec::Shell(s) => "      -"@ + s + "\n"@,
        CommandSpec::TaskRef { task, vars, silent } => "      -task:"@ + task + vars_suffix(vars)
            + "\n"@,
        CommandSpec::Complex { cmd, .. } => "      -"@ + cmd + "\n"@,
    }
}

/// The lines of `cmds`, in the order of `cmds`.
pub open spec fn commands_lines(cmds: Seq<CommandSpec>) -> Seq<char>
    decreases cmds.len(),
{
    if cmds.len() == 0 {
        Seq::empty()
    } else {
        commands_lines(cmds.drop_last()) + command_line(cmds.last())
    }
}

pub open spec fn desc_line(desc: Option<Seq<char>>) -> Seq<char> {
    match desc {
        Some(d) => "    desc:"@ + d + "\n"@,
        None => Seq::empty(),
    }
}

/// The mark of an internal task. A task that is not internal has none.
pub open spec fn internal_line(internal: bool) -> Seq<char> {
    if internal {
        "    internal:true\n"@
    } else {
        Seq::empty()
    }
}

/// The lines of one task: its name, its description if it has one, its
/// commands, and the mark of an internal task.
pub open spec fn task_lines(name: Seq<char>, task: Task) -> Seq<char> {
    "  "@ + name + ":\n"@ + desc_line(task.desc) + "    cmds:\n"@ + commands_lines(task.cmds)
        + internal_line(task.internal)
}

/// The lines of the tasks `entries`, one task after the other.
pub open spec fn tasks_lines(entries: Seq<(Seq<char>, Task)>) -> Seq<char>
    decreases entries.len(),
{
    if entries.len() == 0 {
        Seq::empty()
    } else {
        tasks_lines(entries.drop_last()) + task_lines(entries.last().0, entries.last().1)
    }
}

/// What stands below `mise:` for a tool section.
pub open spec fn mise_body(section: ToolSection) -> Seq<char> {
    tools_block("  tools:\n"@, "    "@, ":"@, section.tools) + plugins_block(
        "  plugins:\n"@,
        "    "@,
        ":"@,
        section.plugins,
    )
}

/// The block of the tool section: nothing where the manifest has none, or
/// one without tools and plugins.
pub open spec fn mise_block(mise: Option<ToolSection>) -> Seq<char> {
    match mise {
        Some(section) => if mise_body(section).len() > 0 {
            "mise:\n"@ + mise_body(section)
        } else {
            Seq::empty()
        },
        None => Seq::empty(),
    }
}

/// The canonical form of a manifest: its version, its tool section, and its
/// tasks in ascending order of their names.
pub open spec fn canonical_razdfile(m: Manifest) -> Seq<char> {
    "v:"@ + m.version + "\n"@ + mise_block(m.mise) + "tasks:\n"@ + tasks_lines(
        sorted_entries(m.tasks),
    )
}

/// Writes the line of one command after `out`.
pub fn write_command(out: &mut String, cmd: &Command)
    ensures
        final(out)@ == old(out)@ + command_line(cmd@),
{
    let ghost start = out@;
    match cmd {
        Command::String(s) => {
            out.append("      -");
            out.append(s.as_str());
            out.append("\n");
            assert(out@ =~= start + ("      -"@ + s@ + "\n"@));
        },
        Command::Complex { cmd, .. } => {
            out.append("      -");
            out.append(cmd.as_str());
            out.append("\n");
            assert(out@ =~= start + ("      -"@ + cmd@ + "\n"@));
        },
        Command::TaskRef { task, vars, silent } => {
            out.append("      -task:");
            out.append(task.as_str());
            let ghost head = out@;
            match vars {
                Some(map) => {
                    if map.len() > 0 {
                        let text = var_pairs(map);
                        out.append(",vars:{");
                        out.append(text.as_str());
                        out.append("}");
                        assert(out@ =~= head + vars_suffix(opt_view(*vars)));
                    } else {
                        assert(out@ =~= head + vars_suffix(opt_view(*vars)));
                    }
                },
                None => {
                    assert(out@ =~= head + vars_suffix(opt_view(*vars)));
                },
            }
            out.append("\n");
            assert(out@ =~= start + ("      -task:"@ + task@ + vars_suffix(opt_view(*vars))
                + "\n"@));
        },
    }
}

/// Writes the lines of `cmds` after `out`.
pub fn write_commands(out: &mut String, cmds: &Vec<Command>)
    ensures
        final(out)@ == old(out)@ + commands_lines(seq_view(cmds@)),
{
    let ghost start = out@;
    let ghost all = seq_view(cmds@);
    let mut i: usize = 0;
    assert(all.take(0) =~= Seq::<CommandSpec>::empty());
    assert(out@ =~= start + commands_lines(all.take(0)));
    while i < cmds.len()
        invariant
            all == seq_view(cmds@),
            i <= cmds@.len(),
            out@ == start + commands_lines(all.take(i as int)),
        decreases cmds@.len() - i,
    {
        proof {
            let next = all.take(i + 1);
            assert(next.drop_last() =~= all.take(i as int));
            assert(next.last() == cmds@[i as int]@);
        }
        write_command(out, &cmds[i]);
        assert(out@ =~= start + commands_lines(all.take(i + 1)));
        i = i + 1;
    }
    assert(all.take(cmds@.len() as int) =~= all);
}

/// Writes the lines of the task `task`, called `name`, after `out`.
pub fn write_task(out: &mut String, name: &str, task: &TaskConfig)
    ensures
        final(out)@ == old(out)@ + task_lines(name@, task@),
{
    let ghost start = out@;
    out.append("  ");
    out.append(name);
    out.append(":\n");
    match &task.desc {
        Some(d) => {
            out.append("    desc:");
            out.append(d.as_str());
            out.append("\n");
        },
        None => {},
    }
    out.append("    cmds:\n");
    let ghost head = out@;
    assert(head =~= start + ("  "@ + name@ + ":\n"@ + desc_line(task@.desc) + "    cmds:\n"@));
    write_commands(out, &task.cmds);
    let ghost body = out@;
    if task.internal {
        out.append("    internal:true\n");
    }
    assert(out@ =~= body + internal_line(task.internal));
    assert(out@ =~= start + task_lines(name@, task@));
}

/// Writes the block of the tool section after `out`.
pub fn write_mise_block(out: &mut String, mise: &Option<MiseConfig>)
    ensures
        final(out)@ == old(out)@ + mise_block(opt_view(*mise)),
{
    let ghost start = out@;
    match mise {
        Some(section) => {
            let mut body = String::new();
            write_tools_block(&mut body, "  tools:\n", "    ", ":", &section.tools);
            write_plugins_block(&mut body, "  plugins:\n", "    ", ":", &section.plugins);
            assert(body@ =~= mise_body(section@));
            if !body.as_str().is_empty() {
                out.append("mise:\n");
                out.append(body.as_str());
                assert(out@ =~= start + ("mise:\n"@ + mise_body(section@)));
            } else {
                assert(out@ =~= start + Seq::<char>::empty());
            }
        },
        None => {
            assert(out@ =~= start + Seq::<char>::empty());
        },
    }
}

/// The canonical form of a manifest.
///
/// Two manifests that say the same give the same text, whatever the order of
/// their tools, plugins, tasks and variables.
pub fn canonicalize_razdfile(config: &RazdfileConfig) -> (out: String)
    ensures
        out@ == canonical_razdfile(config@),
{
    let mut out = String::new();
    out.append("v:");
    out.append(config.version.as_str());
    out.append("\n");
    write_mise_block(&mut out, &config.mise);
    out.append("tasks:\n");
    let ghost head = out@;
    assert(head =~= "v:"@ + config@.version + "\n"@ + mise_block(config@.mise) + "tasks:\n"@);
    let refs = sorted_refs(&config.tasks);
    let ghost sorted = sorted_entries(config.tasks@);
    let mut i: usize = 0;
    assert(sorted.take(0) =~= Seq::<(Seq<char>, Task)>::empty());
    assert(out@ =~= head + tasks_lines(sorted.take(0)));
    while i < refs.len()
        invariant
            sorted == sorted_entries(config.tasks@),
            refs@.len() == sorted.len(),
            forall|j: int|
                0 <= j < refs@.len() ==> (#[trigger] refs@[j]).0@ == sorted[j].0 && refs@[j].1@
                    == sorted[j].1,
            i <= refs@.len(),
            out@ == head + tasks_lines(sorted.take(i as int)),
        decreases refs@.len() - i,
    {
        proof {
            let next = sorted.take(i + 1);
            assert(next.drop_last() =~= sorted.take(i as int));
            assert(next.last() == sorted[i as int]);
        }
        let (name, task) = refs[i];
        write_task(&mut out, name.as_str(), task);
        assert(out@ =~= head + tasks_lines(sorted.take(i + 1)));
        i = i + 1;
    }
    assert(sorted.take(refs@.len() as int) =~= sorted);
    out
}

/// The SHA-256 digest of the UTF-8 bytes of `text`, as 64 lower-case
/// hexadecimal digits.
pub uninterp spec fn sha256_hex(text: Seq<char>) -> Seq<char>;

/// Feeds the bytes of `content` to `sha2::Sha256` (`Digest::new`, `update`,
/// `finalize`) and formats the 32 bytes that come out as lower-case
/// hexadecimal, two digits for each byte.
#[verifier::external_body]
fn sha256_hex_digest(content: &str) -> (digest: String)
    ensures
        digest@ == sha256_hex(content@),
        digest@.len() == 64,
{
    let mut hasher = <sha2::Sha256 as sha2::Digest>::new();
    sha2::Digest::update(&mut hasher, content.as_bytes());
    format!("{:x}", sha2::Digest::finalize(hasher))
}

/// The digest of `content`: a text of 64 characters that depends on
/// `content` alone.
pub fn hash_string(content: &str) -> (digest: String)
    ensures
        digest@ == sha256_hex(content@),
        digest@.len() == 64,
{
    sha256_hex_digest(content)
}

/// The digest of a manifest file: of the canonical form of the manifest
/// where the file could be read as one, else of the file's text as it is.
pub open spec fn razdfile_digest(manifest: Option<Manifest>, content: Seq<char>) -> Seq<char> {
    match manifest {
        Some(m) => sha256_hex(canonical_razdfile(m)),
        None => sha256_hex(content),
    }
}

/// The semantic digest of a manifest file with the text `content`.
///
/// `parsed` is the manifest that the text was read as, or `None` where it
/// could not be read. A file that cannot be read still has a digest, that
/// of its text, so that a change of it is seen.
pub fn compute_razdfile_semantic_hash(parsed: Option<&RazdfileConfig>, content: &str) -> (digest:
    String)
    ensures
        digest@ == razdfile_digest(
            match parsed {
                Some(c) => Some(c@),
                None => None,
            },
            content@,
        ),
        digest@.len() == 64,
{
    match parsed {
        Some(config) => {
            let canonical = canonicalize_razdfile(config);
            hash_string(canonical.as_str())
        },
        None => hash_string(content),
    }
}

/// The digest of a tool manifest with the text `content`: of the canonical
/// form of its tool section where the text can be read as one, else of the
/// text as it is.
pub open spec fn mise_digest(content: Seq<char>) -> Seq<char> {
    match parsed_section(content) {
        Ok(section) => sha256_hex(canonical_mise(section)),
        Err(_) => sha256_hex(content),
    }
}

/// The semantic digest of a tool manifest with the text `content`.
pub fn compute_mise_toml_semantic_hash(content: &str) -> (digest: String)
    ensures
        digest@ == mise_digest(content@),
        digest@.len() == 64,
{
    match parse_mise_toml(content) {
        Ok(config) => {
            let canonical = canonicalize_mise_toml(&config);
            hash_string(canonical.as_str())
        },
        Err(_) => hash_string(content),
    }
}

} // verus!
