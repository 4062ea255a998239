//! What holds of the codec and of the canonical forms together.
//!
//! Each law is stated over the mathematical values that the contracts of the
//! executable functions speak of, and proved from the definitions alone.

use vstd::prelude::*;
use vstd::seq_lib::lemma_sorted_unique;
use vstd::string::*;
use crate::canonical::{
    canonical_mise, canonical_razdfile, command_line, commands_lines, desc_line, item_texts,
    lemma_var_text, lookup, mise_block, mise_body, plugins_block, put_all,
    sorted_entries, task_lines, tasks_lines, tool_lines, tools_block, tools_lines, var_text,
    var_texts,
};
use crate::error::ErrorView;
use crate::mise_generator::{
    encode_section, encode_tool, install_env_field, lemma_field_names_differ, os_field,
    plugins_section, postinstall_field, text_entries, text_items, tool_entries, tools_section,
};
use crate::mise_parser::{
    decode_section, decode_tool, env_from, field, install_env_of, os_of,
    plugins_from, section_entries, string_items_from, text_field, tools_from,
};
use crate::ordered_map::{names_of, put};
use crate::razdfile::{
    valid_tool, CommandSpec, Manifest, Task, ToolSection, ToolSpec, VarSpec,
};
use crate::text::{first_index_of, lemma_first_index_of};
use crate::text_order::{lemma_text_order_total, sorted_names, text_order};
use crate::toml_tree::TomlTree;

verus! {

/// The document that has the tables `sections`, as a tree.
pub open spec fn document_tree(sections: Seq<(Seq<char>, Seq<(Seq<char>, TomlTree)>)>) -> TomlTree {
    TomlTree::Table(
        Seq::new(sections.len(), |i: int| (sections[i].0, TomlTree::Table(sections[i].1))),
    )
}

/// No name occurs twice among the tools, among the plugins, or in the
/// installation environment of any tool. This holds of every tool section
/// that the crate's maps can hold.
pub open spec fn valid_section(section: ToolSection) -> bool {
    &&& match section.tools {
        Some(tools) => names_of(tools).no_duplicates() && forall|i: int|
            0 <= i < tools.len() ==> valid_tool((#[trigger] tools[i]).1),
        None => true,
    }
    &&& match section.plugins {
        Some(plugins) => names_of(plugins).no_duplicates(),
        None => true,
    }
}

/// A tool as it comes back from a document: an empty list of systems is
/// read as no list.
pub open spec fn read_back_tool(tool: ToolSpec) -> ToolSpec {
    match tool {
        ToolSpec::Complex { version, postinstall, os: Some(list), install_env } => if list.len()
            == 0 {
            ToolSpec::Complex { version, postinstall, os: None, install_env }
        } else {
            tool
        },
        _ => tool,
    }
}

pub open spec fn read_back_tools(tools: Seq<(Seq<char>, ToolSpec)>) -> Seq<(Seq<char>, ToolSpec)> {
    Seq::new(tools.len(), |i: int| (tools[i].0, read_back_tool(tools[i].1)))
}

/// A tool section as it comes back from the document that it was written
/// to: empty maps of tools and of plugins are read as absent, and so is an
/// empty list of systems.
pub open spec fn read_back(section: ToolSection) -> ToolSection {
    ToolSection {
        tools: match section.tools {
            Some(tools) => if tools.len() > 0 {
                Some(read_back_tools(tools))
            } else {
                None
            },
            None => None,
        },
        plugins: match section.plugins {
            Some(plugins) => if plugins.len() > 0 {
                Some(plugins)
            } else {
                None
            },
            None => None,
        },
    }
}

/// A tool section that writing and reading keeps as it is: it has no empty
/// map of tools or plugins, and no tool with an empty list of systems.
pub open spec fn lossless(section: ToolSection) -> bool {
    &&& match section.tools {
        Some(tools) => tools.len() > 0 && forall|i: int|
            0 <= i < tools.len() ==> read_back_tool((#[trigger] tools[i]).1) == tools[i].1,
        None => true,
    }
    &&& match section.plugins {
        Some(plugins) => plugins.len() > 0,
        None => true,
    }
}

proof fn lemma_string_items(list: Seq<Seq<char>>, i: int)
    requires
        0 <= i <= list.len(),
    ensures
        string_items_from(text_items(list).skip(i), list.take(i)) == list,
    decreases list.len() - i,
{
    let rest = text_items(list).skip(i);
    if i == list.len() {
        assert(list.take(i) =~= list);
    } else {
        assert(rest[0] == TomlTree::Str(list[i]));
        assert(rest.drop_first() =~= text_items(list).skip(i + 1));
        assert(list.take(i).push(list[i]) =~= list.take(i + 1));
        lemma_string_items(list, i + 1);
    }
}

/// Putting an entry under a name that the entries do not hold appends it.
proof fn lemma_put_fresh<W>(entries: Seq<(Seq<char>, W)>, i: int)
    requires
        names_of(entries).no_duplicates(),
        0 <= i < entries.len(),
    ensures
        put(entries.take(i), entries[i].0, entries[i].1) == entries.take(i + 1),
{
    let acc = entries.take(i);
    let names = names_of(acc);
    lemma_first_index_of(names, entries[i].0);
    let f = first_index_of(names, entries[i].0);
    if f < names.len() {
        assert(names[f] == names_of(entries)[f]);
        assert(names_of(entries)[i] == entries[i].0);
    }
    assert(acc.push(entries[i]) =~= entries.take(i + 1));
}

proof fn lemma_env_from(env: Seq<(Seq<char>, Seq<char>)>, i: int)
    requires
        names_of(env).no_duplicates(),
        0 <= i <= env.len(),
    ensures
        env_from(text_entries(env).skip(i), env.take(i)) == env,
    decreases env.len() - i,
{
    let rest = text_entries(env).skip(i);
    if i == env.len() {
        assert(env.take(i) =~= env);
    } else {
        assert(rest[0] == (env[i].0, TomlTree::Str(env[i].1)));
        assert(rest.drop_first() =~= text_entries(env).skip(i + 1));
        lemma_put_fresh(env, i);
        lemma_env_from(env, i + 1);
    }
}

proof fn lemma_plugins_from(plugins: Seq<(Seq<char>, Seq<char>)>, i: int)
    requires
        names_of(plugins).no_duplicates(),
        0 <= i <= plugins.len(),
    ensures
        plugins_from(text_entries(plugins).skip(i), plugins.take(i)) == plugins,
    decreases plugins.len() - i,
{
    let rest = text_entries(plugins).skip(i);
    if i == plugins.len() {
        assert(plugins.take(i) =~= plugins);
    } else {
        assert(rest[0] == (plugins[i].0, TomlTree::Str(plugins[i].1)));
        assert(rest.drop_first() =~= text_entries(plugins).skip(i + 1));
        lemma_put_fresh(plugins, i);
        lemma_plugins_from(plugins, i + 1);
    }
}

/// The value under `key` in a table of at most four entries with distinct
/// names.
proof fn lemma_field_at(entries: Seq<(Seq<char>, TomlTree)>, i: int)
    requires
        0 <= i < entries.len(),
        forall|j: int| 0 <= j < i ==> (#[trigger] entries[j]).0 != entries[i].0,
    ensures
        field(entries, entries[i].0) == Some(entries[i].1),
{
    let names = names_of(entries);
    lemma_first_index_of(names, entries[i].0);
    let f = first_index_of(names, entries[i].0);
    assert(names[i] == entries[i].0);
    if f < i {
        assert(names[f] == entries[f].0);
    }
}

proof fn lemma_field_absent(entries: Seq<(Seq<char>, TomlTree)>, key: Seq<char>)
    requires
        forall|j: int| 0 <= j < entries.len() ==> (#[trigger] entries[j]).0 != key,
    ensures
        field(entries, key) is None,
{
    let names = names_of(entries);
    lemma_first_index_of(names, key);
    let f = first_index_of(names, key);
    if f < names.len() {
        assert(names[f] == entries[f].0);
    }
}

/// Reading the value that a tool was written to gives the tool back, but
/// for an empty list of systems.
pub proof fn lemma_decode_encode_tool(name: Seq<char>, tool: ToolSpec)
    requires
        valid_tool(tool),
    ensures
        decode_tool(name, encode_tool(tool)) == Ok::<ToolSpec, ErrorView>(read_back_tool(tool)),
{
    match tool {
        ToolSpec::Simple(version) => {},
        ToolSpec::Complex { version, postinstall, os, install_env } => {
            lemma_field_names_differ();
            let a = seq![("version"@, TomlTree::Str(version))];
            let b = postinstall_field(postinstall);
            let c = os_field(os);
            let d = install_env_field(install_env);
            let fields = a + b + c + d;
            assert(encode_tool(tool) == TomlTree::Table(fields));
            assert(fields[0] == ("version"@, TomlTree::Str(version)));
            lemma_field_at(fields, 0);
            assert(text_field(fields, "version"@) == Some(version));
            // postinstall
            match postinstall {
                Some(cmd) => {
                    assert(fields[1] == ("postinstall"@, TomlTree::Str(cmd)));
                    lemma_field_at(fields, 1);
                },
                None => {
                    lemma_field_absent(fields, "postinstall"@);
                },
            }
            assert(text_field(fields, "postinstall"@) == postinstall);
            // os
            let at_os: int = 1 + (b.len() as int);
            match os {
                Some(list) => {
                    assert(fields[at_os] == ("os"@, TomlTree::Array(text_items(list))));
                    lemma_field_at(fields, at_os);
                    lemma_string_items(list, 0);
                    assert(text_items(list).skip(0) =~= text_items(list));
                    assert(list.take(0) =~= Seq::<Seq<char>>::empty());
                },
                None => {
                    lemma_field_absent(fields, "os"@);
                },
            }
            assert(os_of(fields) == match os {
                Some(list) => if list.len() == 0 {
                    None
                } else {
                    Some(list)
                },
                None => None,
            });
            // install_env
            let at_env: int = 1 + (b.len() as int) + (c.len() as int);
            match install_env {
                Some(env) => {
                    assert(fields[at_env] == ("install_env"@, TomlTree::Table(text_entries(env))));
                    lemma_field_at(fields, at_env);
                    lemma_env_from(env, 0);
                    assert(text_entries(env).skip(0) =~= text_entries(env));
                    assert(env.take(0) =~= Seq::<(Seq<char>, Seq<char>)>::empty());
                },
                None => {
                    lemma_field_absent(fields, "install_env"@);
                },
            }
            assert(install_env_of(fields) == install_env);
        },
    }
}

proof fn lemma_tools_from(tools: Seq<(Seq<char>, ToolSpec)>, i: int)
    requires
        names_of(tools).no_duplicates(),
        forall|j: int| 0 <= j < tools.len() ==> valid_tool((#[trigger] tools[j]).1),
        0 <= i <= tools.len(),
    ensures
        tools_from(tool_entries(tools).skip(i), read_back_tools(tools).take(i)) == Ok::<
            Seq<(Seq<char>, ToolSpec)>,
            ErrorView,
        >(read_back_tools(tools)),
    decreases tools.len() - i,
{
    let rest = tool_entries(tools).skip(i);
    let back = read_back_tools(tools);
    if i == tools.len() {
        assert(back.take(i) =~= back);
    } else {
        assert(rest[0] == (tools[i].0, encode_tool(tools[i].1)));
        assert(rest.drop_first() =~= tool_entries(tools).skip(i + 1));
        lemma_decode_encode_tool(tools[i].0, tools[i].1);
        assert(names_of(back) =~= names_of(tools));
        lemma_put_fresh(back, i);
        lemma_tools_from(tools, i + 1);
    }
}

/// Which tables the document of a tool section has.
proof fn lemma_section_entries(section: ToolSection)
    ensures
        section_entries(document_tree(encode_section(section)), "tools"@) == match section.tools {
            Some(tools) => tool_entries(tools),
            None => Seq::empty(),
        },
        section_entries(document_tree(encode_section(section)), "plugins"@)
            == match section.plugins {
            Some(plugins) => text_entries(plugins),
            None => Seq::empty(),
        },
{
    lemma_field_names_differ();
    let sections = encode_section(section);
    let a = tools_section(section.tools);
    let b = plugins_section(section.plugins);
    let top = document_tree(sections)->Table_0;
    assert(top.len() == sections.len());
    if a.len() > 0 {
        assert(top[0] == ("tools"@, TomlTree::Table(tool_entries(section.tools->Some_0))));
        lemma_field_at(top, 0);
    } else {
        lemma_field_absent(top, "tools"@);
        match section.tools {
            Some(tools) => {
                assert(tool_entries(tools) =~= Seq::<(Seq<char>, TomlTree)>::empty());
            },
            None => {},
        }
    }
    if b.len() > 0 {
        let at = a.len() as int;
        assert(top[at] == ("plugins"@, TomlTree::Table(text_entries(section.plugins->Some_0))));
        lemma_field_at(top, at);
    } else {
        lemma_field_absent(top, "plugins"@);
        match section.plugins {
            Some(plugins) => {
                assert(text_entries(plugins) =~= Seq::<(Seq<char>, TomlTree)>::empty());
            },
            None => {},
        }
    }
}

/// Writing a tool section to a document and reading the document gives the
/// section back, but for what [`read_back`] names: empty maps and empty
/// lists of systems come back as absent.
pub proof fn law_read_back(section: ToolSection)
    requires
        valid_section(section),
    ensures
        decode_section(document_tree(encode_section(section))) == Ok::<ToolSection, ErrorView>(
            read_back(section),
        ),
{
    lemma_section_entries(section);
    match section.tools {
        Some(tools) => {
            lemma_tools_from(tools, 0);
            assert(tool_entries(tools).skip(0) =~= tool_entries(tools));
            assert(read_back_tools(tools).take(0) =~= Seq::<(Seq<char>, ToolSpec)>::empty());
        },
        None => {},
    }
    match section.plugins {
        Some(plugins) => {
            lemma_plugins_from(plugins, 0);
            assert(text_entries(plugins).skip(0) =~= text_entries(plugins));
            assert(plugins.take(0) =~= Seq::<(Seq<char>, Seq<char>)>::empty());
        },
        None => {},
    }
}

/// Round trip: a tool section without empty maps and empty lists of systems
/// is read from its document exactly as it was written.
pub proof fn law_round_trip(section: ToolSection)
    requires
        valid_section(section),
        lossless(section),
    ensures
        decode_section(document_tree(encode_section(section))) == Ok::<ToolSection, ErrorView>(
            section,
        ),
{
    law_read_back(section);
    match section.tools {
        Some(tools) => {
            assert(read_back_tools(tools) =~= tools);
        },
        None => {},
    }
}

/// The lines of two lists of tools are the same where the lists have the
/// same names and each tool has the same lines.
proof fn lemma_tools_lines_alike(
    indent: Seq<char>,
    sep: Seq<char>,
    a: Seq<(Seq<char>, ToolSpec)>,
    b: Seq<(Seq<char>, ToolSpec)>,
)
    requires
        a.len() == b.len(),
        forall|i: int|
            0 <= i < a.len() ==> (#[trigger] a[i]).0 == b[i].0 && tool_lines(
                indent,
                sep,
                a[i].0,
                a[i].1,
            ) == tool_lines(indent, sep, b[i].0, b[i].1),
    ensures
        tools_lines(indent, sep, a) == tools_lines(indent, sep, b),
    decreases a.len(),
{
    if a.len() > 0 {
        lemma_tools_lines_alike(indent, sep, a.drop_last(), b.drop_last());
        assert(a.last() == a[a.len() - 1]);
        assert(b.last() == b[b.len() - 1]);
    }
}

/// Every name of the sorted names is one of the names.
proof fn lemma_sorted_names_known(names: Seq<Seq<char>>, i: int)
    requires
        0 <= i < sorted_names(names).len(),
    ensures
        names.contains(sorted_names(names)[i]),
        sorted_names(names).len() == names.len(),
{
    lemma_text_order_total();
    names.lemma_sort_by_ensures(text_order());
    let sorted = sorted_names(names);
    broadcast use vstd::seq_lib::group_to_multiset_ensures;

    assert(sorted.contains(sorted[i]));
    assert(sorted.to_multiset().count(sorted[i]) > 0);
    assert(sorted.to_multiset().len() == names.to_multiset().len());
}

proof fn lemma_tools_block_read_back(
    header: Seq<char>,
    indent: Seq<char>,
    sep: Seq<char>,
    section: ToolSection,
)
    ensures
        tools_block(header, indent, sep, read_back(section).tools) == tools_block(
            header,
            indent,
            sep,
            section.tools,
        ),
{
    match section.tools {
        Some(tools) => {
            if tools.len() > 0 {
                let back = read_back_tools(tools);
                assert(names_of(back) =~= names_of(tools));
                let names = names_of(tools);
                let a = sorted_entries(back);
                let b = sorted_entries(tools);
                assert(a.len() == b.len());
                assert forall|i: int| 0 <= i < a.len() implies (#[trigger] a[i]).0 == b[i].0
                    && tool_lines(indent, sep, a[i].0, a[i].1) == tool_lines(
                    indent,
                    sep,
                    b[i].0,
                    b[i].1,
                ) by {
                    let n = sorted_names(names)[i];
                    lemma_sorted_names_known(names, i);
                    lemma_first_index_of(names, n);
                    let f = first_index_of(names, n);
                    if f >= names.len() {
                        let w = choose|w: int| 0 <= w < names.len() && names[w] == n;
                        assert(false);
                    }
                    assert(lookup(back, n) == read_back_tool(lookup(tools, n)));
                }
                lemma_tools_lines_alike(indent, sep, a, b);
            }
        },
        None => {},
    }
}

/// Canonicalization survives the codec: the tool section that is read from
/// the document of a tool section has the canonical form of that section.
pub proof fn law_canonical_after_codec(section: ToolSection)
    requires
        valid_section(section),
    ensures
        decode_section(document_tree(encode_section(section))) is Ok,
        canonical_mise(decode_section(document_tree(encode_section(section)))->Ok_0)
            == canonical_mise(section),
{
    law_read_back(section);
    lemma_tools_block_read_back("[tools]\n"@, Seq::empty(), "="@, section);
}

/// The entries of `a` and of `b` are the same, in whatever order, and no
/// name occurs twice.
pub open spec fn same_entries<W>(a: Seq<(Seq<char>, W)>, b: Seq<(Seq<char>, W)>) -> bool {
    &&& names_of(a).no_duplicates()
    &&& names_of(b).no_duplicates()
    &&& forall|x: (Seq<char>, W)| a.contains(x) <==> b.contains(x)
}

/// Sorting forgets the order of the entries: two lists of the same entries
/// have the same sorted list.
pub proof fn law_sorted_entries_forget_order<W>(a: Seq<(Seq<char>, W)>, b: Seq<(Seq<char>, W)>)
    requires
        same_entries(a, b),
    ensures
        sorted_entries(a) == sorted_entries(b),
{
    lemma_text_order_total();
    let na = names_of(a);
    let nb = names_of(b);
    broadcast use vstd::seq_lib::group_to_multiset_ensures;
    broadcast use vstd::multiset::group_multiset_axioms;

    assert forall|n: Seq<char>| na.contains(n) <==> nb.contains(n) by {
        if na.contains(n) {
            let i = choose|i: int| 0 <= i < na.len() && na[i] == n;
            assert(a.contains(a[i]));
            let j = choose|j: int| 0 <= j < b.len() && b[j] == a[i];
            assert(nb[j] == n);
        }
        if nb.contains(n) {
            let i = choose|i: int| 0 <= i < nb.len() && nb[i] == n;
            assert(b.contains(b[i]));
            let j = choose|j: int| 0 <= j < a.len() && a[j] == b[i];
            assert(na[j] == n);
        }
    }
    na.lemma_multiset_has_no_duplicates();
    nb.lemma_multiset_has_no_duplicates();
    assert forall|n: Seq<char>| na.to_multiset().count(n) == nb.to_multiset().count(n) by {
        if na.contains(n) {
            assert(na.to_multiset().contains(n));
            assert(nb.to_multiset().contains(n));
        } else {
            assert(!nb.contains(n));
        }
    }
    assert(na.to_multiset() =~= nb.to_multiset());
    na.lemma_sort_by_ensures(text_order());
    nb.lemma_sort_by_ensures(text_order());
    lemma_sorted_unique(sorted_names(na), sorted_names(nb), text_order());
    let sa = sorted_entries(a);
    let sb = sorted_entries(b);
    assert(sa.len() == sb.len());
    assert forall|i: int| 0 <= i < sa.len() implies sa[i] == sb[i] by {
        let n = sorted_names(na)[i];
        lemma_sorted_names_known(na, i);
        lemma_first_index_of(na, n);
        lemma_first_index_of(nb, n);
        let fa = first_index_of(na, n);
        let fb = first_index_of(nb, n);
        if fa >= na.len() {
            let w = choose|w: int| 0 <= w < na.len() && na[w] == n;
            assert(false);
        }
        if fb >= nb.len() {
            let w = choose|w: int| 0 <= w < nb.len() && nb[w] == n;
            assert(false);
        }
        assert(a.contains(a[fa]));
        let j = choose|j: int| 0 <= j < b.len() && b[j] == a[fa];
        assert(nb[j] == n);
        assert(nb[fb] == n);
        assert(j == fb);
    }
    assert(sa =~= sb);
}

/// The entries of an optional map, none for an absent map.
pub open spec fn entries_or_none<W>(o: Option<Seq<(Seq<char>, W)>>) -> Seq<(Seq<char>, W)> {
    match o {
        Some(entries) => entries,
        None => Seq::empty(),
    }
}

/// Two tool sections say the same: the same tools and the same plugins, in
/// whatever order, an absent map counting as an empty one.
pub open spec fn same_section(a: ToolSection, b: ToolSection) -> bool {
    &&& same_entries(entries_or_none(a.tools), entries_or_none(b.tools))
    &&& same_entries(entries_or_none(a.plugins), entries_or_none(b.plugins))
}

proof fn lemma_same_entries_len<W>(a: Seq<(Seq<char>, W)>, b: Seq<(Seq<char>, W)>)
    requires
        same_entries(a, b),
    ensures
        a.len() == b.len(),
{
    law_sorted_entries_forget_order(a, b);
    lemma_text_order_total();
    names_of(a).lemma_sort_by_ensures(text_order());
    names_of(b).lemma_sort_by_ensures(text_order());
    broadcast use vstd::seq_lib::group_to_multiset_ensures;

    assert(sorted_entries(a).len() == sorted_names(names_of(a)).len());
    assert(sorted_names(names_of(a)).to_multiset().len() == names_of(a).to_multiset().len());
    assert(sorted_names(names_of(b)).to_multiset().len() == names_of(b).to_multiset().len());
}

proof fn lemma_blocks_forget_order(
    header: Seq<char>,
    indent: Seq<char>,
    sep: Seq<char>,
    a: ToolSection,
    b: ToolSection,
)
    requires
        same_section(a, b),
    ensures
        tools_block(header, indent, sep, a.tools) == tools_block(header, indent, sep, b.tools),
        plugins_block(header, indent, sep, a.plugins) == plugins_block(
            header,
            indent,
            sep,
            b.plugins,
        ),
{
    law_sorted_entries_forget_order(entries_or_none(a.tools), entries_or_none(b.tools));
    lemma_same_entries_len(entries_or_none(a.tools), entries_or_none(b.tools));
    law_sorted_entries_forget_order(entries_or_none(a.plugins), entries_or_none(b.plugins));
    lemma_same_entries_len(entries_or_none(a.plugins), entries_or_none(b.plugins));
}

/// Formatting invariance for tool manifests: two tool sections that say the
/// same have the same canonical form, whatever the order of their entries.
pub proof fn law_canonical_mise_forgets_order(a: ToolSection, b: ToolSection)
    requires
        same_section(a, b),
    ensures
        canonical_mise(a) == canonical_mise(b),
{
    lemma_blocks_forget_order("[tools]\n"@, Seq::empty(), "="@, a, b);
    lemma_blocks_forget_order("[plugins]\n"@, Seq::empty(), "="@, a, b);
}

/// Two manifests say the same: the same version, tool sections that say the
/// same (an absent one counting as an empty one), and the same tasks in
/// whatever order.
pub open spec fn same_manifest(a: Manifest, b: Manifest) -> bool {
    &&& a.version == b.version
    &&& same_section(section_or_none(a.mise), section_or_none(b.mise))
    &&& same_entries(a.tasks, b.tasks)
}

pub open spec fn section_or_none(o: Option<ToolSection>) -> ToolSection {
    match o {
        Some(section) => section,
        None => ToolSection { tools: None, plugins: None },
    }
}

/// Formatting invariance: two manifests that say the same have the same
/// canonical form, and with it the same digest, whatever the order of their
/// tools, plugins and tasks.
pub proof fn law_canonical_razdfile_forgets_order(a: Manifest, b: Manifest)
    requires
        same_manifest(a, b),
    ensures
        canonical_razdfile(a) == canonical_razdfile(b),
{
    let sa = section_or_none(a.mise);
    let sb = section_or_none(b.mise);
    lemma_blocks_forget_order("  tools:\n"@, "    "@, ":"@, sa, sb);
    lemma_blocks_forget_order("  plugins:\n"@, "    "@, ":"@, sa, sb);
    assert(mise_body(sa) == mise_body(sb));
    assert(mise_block(a.mise) == mise_block(b.mise)) by {
        let none = ToolSection { tools: None, plugins: None };
        assert(mise_body(none) =~= Seq::<char>::empty());
    }
    law_sorted_entries_forget_order(a.tasks, b.tasks);
}

/// The lines of a tool do not depend on the order in which its
/// installation environment is stated.
pub proof fn law_tool_lines_forget_env_order(
    indent: Seq<char>,
    sep: Seq<char>,
    name: Seq<char>,
    version: Seq<char>,
    postinstall: Option<Seq<char>>,
    os: Option<Seq<Seq<char>>>,
    env_a: Seq<(Seq<char>, Seq<char>)>,
    env_b: Seq<(Seq<char>, Seq<char>)>,
)
    requires
        same_entries(env_a, env_b),
    ensures
        tool_lines(
            indent,
            sep,
            name,
            ToolSpec::Complex { version, postinstall, os, install_env: Some(env_a) },
        ) == tool_lines(
            indent,
            sep,
            name,
            ToolSpec::Complex { version, postinstall, os, install_env: Some(env_b) },
        ),
{
    law_sorted_entries_forget_order(env_a, env_b);
    lemma_same_entries_len(env_a, env_b);
}

/// The line of a call of a task does not depend on the order in which its
/// variables are bound.
pub proof fn law_command_line_forgets_vars_order(
    task: Seq<char>,
    silent: Option<bool>,
    vars_a: Seq<(Seq<char>, VarSpec)>,
    vars_b: Seq<(Seq<char>, VarSpec)>,
)
    requires
        same_entries(vars_a, vars_b),
    ensures
        command_line(CommandSpec::TaskRef { task, vars: Some(vars_a), silent }) == command_line(
            CommandSpec::TaskRef { task, vars: Some(vars_b), silent },
        ),
{
    law_sorted_entries_forget_order(vars_a, vars_b);
    lemma_same_entries_len(vars_a, vars_b);
}

/// The entries of `a` and of `b` have the same names, in whatever order,
/// no name occurs twice, and under each name stand values that are `alike`.
pub open spec fn alike_entries<W>(
    a: Seq<(Seq<char>, W)>,
    b: Seq<(Seq<char>, W)>,
    alike: spec_fn(W, W) -> bool,
) -> bool {
    &&& names_of(a).no_duplicates()
    &&& names_of(b).no_duplicates()
    &&& forall|n: Seq<char>| names_of(a).contains(n) <==> names_of(b).contains(n)
    &&& forall|n: Seq<char>| names_of(a).contains(n) ==> alike(lookup(a, n), lookup(b, n))
}

/// Sorted, two lists of alike entries have the same names at the same
/// places, with alike values under them.
pub proof fn lemma_sorted_alike<W>(
    a: Seq<(Seq<char>, W)>,
    b: Seq<(Seq<char>, W)>,
    alike: spec_fn(W, W) -> bool,
)
    requires
        alike_entries(a, b, alike),
    ensures
        a.len() == b.len(),
        sorted_entries(a).len() == sorted_entries(b).len(),
        sorted_entries(a).len() == a.len(),
        forall|i: int|
            0 <= i < sorted_entries(a).len() ==> (#[trigger] sorted_entries(a)[i]).0
                == sorted_entries(b)[i].0 && alike(sorted_entries(a)[i].1, sorted_entries(b)[i].1),
{
    lemma_text_order_total();
    let na = names_of(a);
    let nb = names_of(b);
    broadcast use vstd::seq_lib::group_to_multiset_ensures;
    broadcast use vstd::multiset::group_multiset_axioms;

    na.lemma_multiset_has_no_duplicates();
    nb.lemma_multiset_has_no_duplicates();
    assert forall|n: Seq<char>| na.to_multiset().count(n) == nb.to_multiset().count(n) by {
        if na.contains(n) {
            assert(na.to_multiset().contains(n));
            assert(nb.to_multiset().contains(n));
        } else {
            assert(!nb.contains(n));
        }
    }
    assert(na.to_multiset() =~= nb.to_multiset());
    assert(na.to_multiset().len() == nb.to_multiset().len());
    na.lemma_sort_by_ensures(text_order());
    nb.lemma_sort_by_ensures(text_order());
    lemma_sorted_unique(sorted_names(na), sorted_names(nb), text_order());
    assert(sorted_names(na).to_multiset().len() == na.to_multiset().len());
    let sa = sorted_entries(a);
    let sb = sorted_entries(b);
    assert forall|i: int| 0 <= i < sa.len() implies (#[trigger] sa[i]).0 == sb[i].0 && alike(
        sa[i].1,
        sb[i].1,
    ) by {
        lemma_sorted_names_known(na, i);
    }
}

/// Two optional maps of strings say the same: the same entries in whatever
/// order, an absent map counting as an empty one.
pub open spec fn same_texts(
    a: Option<Seq<(Seq<char>, Seq<char>)>>,
    b: Option<Seq<(Seq<char>, Seq<char>)>>,
) -> bool {
    same_entries(entries_or_none(a), entries_or_none(b))
}

/// Two tools say the same: everything is equal but the order in which the
/// installation environment is stated.
pub open spec fn same_tool(a: ToolSpec, b: ToolSpec) -> bool {
    match (a, b) {
        (ToolSpec::Simple(x), ToolSpec::Simple(y)) => x == y,
        (
            ToolSpec::Complex { version: v1, postinstall: p1, os: o1, install_env: e1 },
            ToolSpec::Complex { version: v2, postinstall: p2, os: o2, install_env: e2 },
        ) => v1 == v2 && p1 == p2 && o1 == o2 && same_texts(e1, e2),
        _ => false,
    }
}

/// Two values say the same: they are equal but for the order of the
/// bindings of the nested maps in them, at whatever depth.
pub open spec fn same_var(a: VarSpec, b: VarSpec) -> bool
    decreases a,
{
    match a {
        VarSpec::List(x) => b matches VarSpec::List(y) && x.len() == y.len() && forall|i: int|
            0 <= i < x.len() ==> same_var(#[trigger] x[i], y[i]),
        VarSpec::Nested(x) => b matches VarSpec::Nested(y) && {
            &&& names_of(x).no_duplicates()
            &&& names_of(y).no_duplicates()
            &&& forall|n: Seq<char>| names_of(x).contains(n) <==> names_of(y).contains(n)
            &&& forall|i: int, j: int|
                0 <= i < x.len() && 0 <= j < y.len() && (#[trigger] x[i]).0 == (#[trigger] y[j]).0
                    ==> same_var(x[i].1, y[j].1)
        },
        _ => a == b,
    }
}

/// Entries whose names all differ, and differ from those of `acc`, are put
/// behind `acc` in their order.
proof fn lemma_put_all_distinct(
    entries: Seq<(Seq<char>, Seq<char>)>,
    acc: Seq<(Seq<char>, Seq<char>)>,
)
    requires
        names_of(acc + entries).no_duplicates(),
    ensures
        put_all(entries, acc) == acc + entries,
    decreases entries.len(),
{
    if entries.len() == 0 {
        assert(acc + entries =~= acc);
    } else {
        let key = entries[0].0;
        let all = acc + entries;
        let names = names_of(acc);
        lemma_first_index_of(names, key);
        let f = first_index_of(names, key);
        if f < names.len() {
            assert(names_of(all)[f] == key);
            assert(names_of(all)[acc.len() as int] == key);
        }
        let next = put(acc, key, entries[0].1);
        assert(next == acc.push(entries[0]));
        assert(next + entries.drop_first() =~= all);
        lemma_put_all_distinct(entries.drop_first(), next);
    }
}

/// The text of a value does not depend on the order in which its nested
/// maps bind their names, at whatever depth: values that say the same have
/// the same text.
pub proof fn law_var_text_forgets_nested_order(a: VarSpec, b: VarSpec)
    requires
        same_var(a, b),
    ensures
        var_text(a) == var_text(b),
    decreases a,
{
    lemma_var_text(a);
    lemma_var_text(b);
    match a {
        VarSpec::List(x) => {
            let y = b->List_0;
            assert forall|i: int| 0 <= i < x.len() implies var_text(x[i]) == var_text(y[i]) by {
                law_var_text_forgets_nested_order(x[i], y[i]);
            }
            assert(item_texts(x) =~= item_texts(y));
        },
        VarSpec::Nested(x) => {
            let y = b->Nested_0;
            let ta = var_texts(x);
            let tb = var_texts(y);
            let none = Seq::<(Seq<char>, Seq<char>)>::empty();
            assert(names_of(ta) =~= names_of(x));
            assert(names_of(tb) =~= names_of(y));
            assert(none + ta =~= ta);
            assert(none + tb =~= tb);
            lemma_put_all_distinct(ta, none);
            lemma_put_all_distinct(tb, none);
            assert forall|e: (Seq<char>, Seq<char>)| ta.contains(e) <==> tb.contains(e) by {
                if ta.contains(e) {
                    let i = choose|i: int| 0 <= i < ta.len() && ta[i] == e;
                    assert(names_of(x)[i] == x[i].0);
                    assert(names_of(y).contains(x[i].0));
                    let j = choose|j: int| 0 <= j < y.len() && names_of(y)[j] == x[i].0;
                    assert(x[i].0 == y[j].0);
                    law_var_text_forgets_nested_order(x[i].1, y[j].1);
                    assert(tb[j] == e);
                }
                if tb.contains(e) {
                    let j = choose|j: int| 0 <= j < tb.len() && tb[j] == e;
                    assert(names_of(y)[j] == y[j].0);
                    assert(names_of(x).contains(y[j].0));
                    let i = choose|i: int| 0 <= i < x.len() && names_of(x)[i] == y[j].0;
                    assert(x[i].0 == y[j].0);
                    law_var_text_forgets_nested_order(x[i].1, y[j].1);
                    assert(ta[i] == e);
                }
            }
            law_sorted_entries_forget_order(ta, tb);
        },
        _ => {},
    }
}

/// Two commands say the same: everything is equal but the order in which
/// the variables of a call are bound, and the order inside their values.
pub open spec fn same_command(a: CommandSpec, b: CommandSpec) -> bool {
    match (a, b) {
        (
            CommandSpec::TaskRef { task: t1, vars: v1, silent: s1 },
            CommandSpec::TaskRef { task: t2, vars: v2, silent: s2 },
        ) => t1 == t2 && s1 == s2 && alike_entries(
            entries_or_none(v1),
            entries_or_none(v2),
            |x: VarSpec, y: VarSpec| same_var(x, y),
        ),
        _ => a == b,
    }
}

/// Two tasks say the same: the same description, the same commands in the
/// same order, each up to the order of its variables, and both internal or
/// both not.
pub open spec fn same_task(a: Task, b: Task) -> bool {
    &&& a.desc == b.desc
    &&& a.internal == b.internal
    &&& a.cmds.len() == b.cmds.len()
    &&& forall|i: int| 0 <= i < a.cmds.len() ==> same_command(#[trigger] a.cmds[i], b.cmds[i])
}

/// Two manifests say the same at every level: the same version, the same
/// tools, plugins and tasks in whatever order, and under each name values
/// that say the same.
pub open spec fn same_manifest_deeply(a: Manifest, b: Manifest) -> bool {
    &&& a.version == b.version
    &&& alike_entries(
        entries_or_none(section_or_none(a.mise).tools),
        entries_or_none(section_or_none(b.mise).tools),
        |x: ToolSpec, y: ToolSpec| same_tool(x, y),
    )
    &&& same_texts(section_or_none(a.mise).plugins, section_or_none(b.mise).plugins)
    &&& alike_entries(a.tasks, b.tasks, |x: Task, y: Task| same_task(x, y))
}

/// Tools that say the same have the same lines.
pub proof fn lemma_same_tool_lines(
    indent: Seq<char>,
    sep: Seq<char>,
    name: Seq<char>,
    a: ToolSpec,
    b: ToolSpec,
)
    requires
        same_tool(a, b),
    ensures
        tool_lines(indent, sep, name, a) == tool_lines(indent, sep, name, b),
{
    match (a, b) {
        (
            ToolSpec::Complex { install_env: e1, .. },
            ToolSpec::Complex { install_env: e2, .. },
        ) => {
            law_sorted_entries_forget_order(entries_or_none(e1), entries_or_none(e2));
            lemma_same_entries_len(entries_or_none(e1), entries_or_none(e2));
        },
        _ => {},
    }
}

/// Commands that say the same have the same line.
pub proof fn lemma_same_command_line(a: CommandSpec, b: CommandSpec)
    requires
        same_command(a, b),
    ensures
        command_line(a) == command_line(b),
{
    match (a, b) {
        (CommandSpec::TaskRef { vars: v1, .. }, CommandSpec::TaskRef { vars: v2, .. }) => {
            let ea = entries_or_none(v1);
            let eb = entries_or_none(v2);
            lemma_sorted_alike(ea, eb, |x: VarSpec, y: VarSpec| same_var(x, y));
            let sa = sorted_entries(ea);
            let sb = sorted_entries(eb);
            assert forall|i: int| 0 <= i < sa.len() implies var_texts(sa)[i] == var_texts(sb)[i] by {
                law_var_text_forgets_nested_order(sa[i].1, sb[i].1);
            }
            assert(var_texts(sa) =~= var_texts(sb));
        },
        _ => {},
    }
}

proof fn lemma_same_commands_lines(a: Seq<CommandSpec>, b: Seq<CommandSpec>)
    requires
        a.len() == b.len(),
        forall|i: int| 0 <= i < a.len() ==> same_command(#[trigger] a[i], b[i]),
    ensures
        commands_lines(a) == commands_lines(b),
    decreases a.len(),
{
    if a.len() > 0 {
        lemma_same_commands_lines(a.drop_last(), b.drop_last());
        assert(a.last() == a[a.len() - 1]);
        assert(b.last() == b[b.len() - 1]);
        lemma_same_command_line(a.last(), b.last());
    }
}

/// Tasks that say the same have the same lines.
pub proof fn lemma_same_task_lines(name: Seq<char>, a: Task, b: Task)
    requires
        same_task(a, b),
    ensures
        task_lines(name, a) == task_lines(name, b),
{
    lemma_same_commands_lines(a.cmds, b.cmds);
}

proof fn lemma_tasks_lines_alike(a: Seq<(Seq<char>, Task)>, b: Seq<(Seq<char>, Task)>)
    requires
        a.len() == b.len(),
        forall|i: int| 0 <= i < a.len() ==> (#[trigger] a[i]).0 == b[i].0 && same_task(a[i].1, b[i].1),
    ensures
        tasks_lines(a) == tasks_lines(b),
    decreases a.len(),
{
    if a.len() > 0 {
        lemma_tasks_lines_alike(a.drop_last(), b.drop_last());
        assert(a.last() == a[a.len() - 1]);
        assert(b.last() == b[b.len() - 1]);
        lemma_same_task_lines(a.last().0, a.last().1, b.last().1);
    }
}

proof fn lemma_tools_block_alike(
    header: Seq<char>,
    indent: Seq<char>,
    sep: Seq<char>,
    a: Option<Seq<(Seq<char>, ToolSpec)>>,
    b: Option<Seq<(Seq<char>, ToolSpec)>>,
)
    requires
        alike_entries(
            entries_or_none(a),
            entries_or_none(b),
            |x: ToolSpec, y: ToolSpec| same_tool(x, y),
        ),
    ensures
        tools_block(header, indent, sep, a) == tools_block(header, indent, sep, b),
{
    let ea = entries_or_none(a);
    let eb = entries_or_none(b);
    let alike = |x: ToolSpec, y: ToolSpec| same_tool(x, y);
    lemma_sorted_alike(ea, eb, alike);
    let sa = sorted_entries(ea);
    let sb = sorted_entries(eb);
    assert forall|i: int| 0 <= i < sa.len() implies (#[trigger] sa[i]).0 == sb[i].0 && tool_lines(
        indent,
        sep,
        sa[i].0,
        sa[i].1,
    ) == tool_lines(indent, sep, sb[i].0, sb[i].1) by {
        assert(alike(sa[i].1, sb[i].1));
        lemma_same_tool_lines(indent, sep, sa[i].0, sa[i].1, sb[i].1);
    }
    lemma_tools_lines_alike(indent, sep, sa, sb);
}

/// Formatting invariance at every level: two manifests that say the same
/// have the same canonical form, and with it the same digest, whatever the
/// order of their tools, plugins and tasks, of the installation environment
/// of a tool and of the variables of a call.
pub proof fn law_canonical_forgets_order_at_every_level(a: Manifest, b: Manifest)
    requires
        same_manifest_deeply(a, b),
    ensures
        canonical_razdfile(a) == canonical_razdfile(b),
{
    let sa = section_or_none(a.mise);
    let sb = section_or_none(b.mise);
    lemma_tools_block_alike("  tools:\n"@, "    "@, ":"@, sa.tools, sb.tools);
    law_sorted_entries_forget_order(entries_or_none(sa.plugins), entries_or_none(sb.plugins));
    lemma_same_entries_len(entries_or_none(sa.plugins), entries_or_none(sb.plugins));
    assert(mise_body(sa) == mise_body(sb));
    assert(mise_block(a.mise) == mise_block(b.mise)) by {
        let none = ToolSection { tools: None, plugins: None };
        assert(mise_body(none) =~= Seq::<char>::empty());
    }
    let alike = |x: Task, y: Task| same_task(x, y);
    lemma_sorted_alike(a.tasks, b.tasks, alike);
    let ta = sorted_entries(a.tasks);
    let tb = sorted_entries(b.tasks);
    assert forall|i: int| 0 <= i < ta.len() implies (#[trigger] ta[i]).0 == tb[i].0 && same_task(
        ta[i].1,
        tb[i].1,
    ) by {
        assert(alike(ta[i].1, tb[i].1));
    }
    lemma_tasks_lines_alike(ta, tb);
}

/// The same for tool manifests: two tool sections that say the same at
/// every level have the same canonical form.
pub proof fn law_canonical_mise_forgets_order_at_every_level(a: ToolSection, b: ToolSection)
    requires
        alike_entries(
            entries_or_none(a.tools),
            entries_or_none(b.tools),
            |x: ToolSpec, y: ToolSpec| same_tool(x, y),
        ),
        same_texts(a.plugins, b.plugins),
    ensures
        canonical_mise(a) == canonical_mise(b),
{
    lemma_tools_block_alike("[tools]\n"@, Seq::empty(), "="@, a.tools, b.tools);
    law_sorted_entries_forget_order(entries_or_none(a.plugins), entries_or_none(b.plugins));
    lemma_same_entries_len(entries_or_none(a.plugins), entries_or_none(b.plugins));
}

/// A task that is not internal carries no mark: its lines are its name, its
/// description and its commands, the same as if nothing had been said of
/// `internal`.
pub proof fn law_internal_false_is_unmarked(name: Seq<char>, task: Task)
    requires
        !task.internal,
    ensures
        task_lines(name, task) == "  "@ + name + ":\n"@ + desc_line(task.desc) + "    cmds:\n"@
            + commands_lines(task.cmds),
{
    assert(task_lines(name, task) =~= "  "@ + name + ":\n"@ + desc_line(task.desc)
        + "    cmds:\n"@ + commands_lines(task.cmds));
}

/// The lines of a task depend on its description, its commands and whether
/// it is internal, and on nothing else.
pub proof fn law_task_lines_read_three_fields(name: Seq<char>, a: Task, b: Task)
    requires
        a.desc == b.desc,
        a.cmds == b.cmds,
        a.internal == b.internal,
    ensures
        task_lines(name, a) == task_lines(name, b),
{
}

} // verus!
