//! What the commands compute before they print: the target of an
//! addition, whether a version to add is published, and the listing of
//! the catalog.

use crate::catalog_editor::AddTargetKind;
use crate::document::{item_child, item_node, table_keys, TomlNode};
use crate::error::GvcError;
use crate::order::{compare_text, lemma_lex_flip, text_order, Precedence};
use crate::maven::{lemma_insert_contains, lemma_push_contains, distinct_texts};
use crate::text::{
    chars_of, contains_text, has_text, join_pair, joined, lowercase_of, same_text, texts, trim_chars,
    trimmed,
};
use crate::toml_utils::{
    child_text, group_artifact, version_reference, TomlUtils,
};
use crate::maven::coordinate_parts;
use vstd::prelude::*;

verus! {

/// Decides what an addition adds: a plugin where the flag is set, a
/// library otherwise. A coordinate that is empty but for white space is
/// refused.
pub fn resolve_add_target<'a>(plugin_flag: bool, coordinate: &'a str) -> (r: Result<
    (AddTargetKind, &'a str),
    GvcError,
>)
    ensures
        match r {
            Ok((target, text)) => {
                &&& trimmed(coordinate@).len() > 0
                &&& text@ == coordinate@
                &&& target == if plugin_flag {
                    AddTargetKind::Plugin
                } else {
                    AddTargetKind::Library
                }
            },
            Err(e) => e is ProjectValidation && trimmed(coordinate@).len() == 0,
        },
{
    let chars = chars_of(coordinate);
    if trim_chars(&chars).len() == 0 {
        return Err(
            GvcError::ProjectValidation(
                "Coordinate is required. Example: gvc add group:artifact:version".to_owned(),
            ),
        );
    }
    let target = if plugin_flag {
        AddTargetKind::Plugin
    } else {
        AddTargetKind::Library
    };
    Ok((target, coordinate))
}

/// Whether a version text, in lower case, holds none of the markers
/// that the report of available updates goes by.
pub open spec fn looks_stable(lower: Seq<char>) -> bool {
    !contains_text(lower, "alpha"@) && !contains_text(lower, "beta"@) && !contains_text(lower, "rc"@)
        && !contains_text(lower, "snapshot"@) && !contains_text(lower, "dev"@)
}

/// Tells whether a version is shown as stable in the report of
/// available updates.
pub fn is_stable_version(version: &str) -> (r: bool)
    ensures
        r == looks_stable(lowercase_of(version@)),
{
    let lowered = version.to_lowercase();
    let lower = chars_of(lowered.as_str());
    !has_text(&lower, &chars_of("alpha")) && !has_text(&lower, &chars_of("beta")) && !has_text(
        &lower,
        &chars_of("rc"),
    ) && !has_text(&lower, &chars_of("snapshot")) && !has_text(&lower, &chars_of("dev"))
}

/// Tells whether a version is among those that a repository lists.
pub fn version_is_listed(available: &Vec<String>, version: &str) -> (r: bool)
    ensures
        r == texts(available@).contains(version@),
{
    let mut i: usize = 0;
    while i < available.len()
        invariant
            i <= available.len(),
            forall|k: int| 0 <= k < i ==> texts(available@)[k] != version@,
        decreases available.len() - i,
    {
        assert(texts(available@)[i as int] == available@[i as int]@);
        if same_text(available[i].as_str(), version) {
            return true;
        }
        i += 1;
    }
    false
}

/// Checks that the version of a library or plugin to add is published.
pub fn verify_version(available: &Vec<String>, version: &str) -> (r: Result<(), GvcError>)
    ensures
        r is Ok <==> texts(available@).contains(version@),
        r is Err ==> r->Err_0 is ProjectValidation,
{
    if version_is_listed(available, version) {
        Ok(())
    } else {
        Err(GvcError::ProjectValidation("Version not found in configured repositories".to_owned()))
    }
}

/// One line of the listing of the catalog.
#[derive(Debug, Clone, PartialEq, Eq)]
pub struct DependencyLine {
    /// The name of the entry in the catalog.
    pub name: String,
    /// What the entry is: `group:artifact` or a plugin identifier; empty
    /// where the entry does not tell.
    pub coordinate: String,
    /// The version of the entry, with an alias resolved; empty where the
    /// entry does not tell.
    pub version: String,
}

/// The mathematical value of a [`DependencyLine`].
pub struct LineView {
    pub name: Seq<char>,
    pub coordinate: Seq<char>,
    pub version: Seq<char>,
}

impl View for DependencyLine {
    type V = LineView;

    open spec fn view(&self) -> LineView {
        LineView { name: self.name@, coordinate: self.coordinate@, version: self.version@ }
    }
}

/// The version of a table entry as it is listed: its literal version;
/// else, where it refers to an alias, the value of the alias, or
/// `${alias}` where there is no such alias; else nothing.
pub open spec fn listed_version(node: TomlNode, versions: TomlNode) -> Seq<char> {
    match node.text_at("version"@) {
        Some(v) => v,
        None => match version_reference(node) {
            Some(alias) => match versions.child(alias) {
                TomlNode::Text(v) => v,
                _ => "${"@ + alias + "}"@,
            },
            None => Seq::empty(),
        },
    }
}

/// The line of a library.
pub open spec fn library_line(name: Seq<char>, node: TomlNode, versions: TomlNode) -> LineView {
    LineView {
        name,
        coordinate: match group_artifact(node) {
            Some((group, artifact)) => joined(group, ':', artifact),
            None => Seq::empty(),
        },
        version: match node {
            TomlNode::Text(s) => match coordinate_parts(s) {
                Some((_, _, Some(v))) => v,
                _ => Seq::empty(),
            },
            _ => listed_version(node, versions),
        },
    }
}

/// The line of a plugin: a string entry is the version of the plugin of
/// its name; a table gives its identifier, or else its name, and its
/// version.
pub open spec fn plugin_line(name: Seq<char>, node: TomlNode, versions: TomlNode) -> LineView {
    match node {
        TomlNode::Text(v) => LineView { name, coordinate: name, version: v },
        TomlNode::Inline(_) | TomlNode::Table(_) => LineView {
            name,
            coordinate: match node.text_at("id"@) {
                Some(id) => id,
                None => name,
            },
            version: listed_version(node, versions),
        },
        _ => LineView { name, coordinate: Seq::empty(), version: Seq::empty() },
    }
}

/// Reads the version of a table entry as it is listed.
fn read_listed_version(item: &toml_edit::Item, versions: Option<&toml_edit::Item>) -> (r: String)
    requires
        item_node(*item).is_table_like(),
    ensures
        r@ == listed_version(
            item_node(*item),
            match versions {
                Some(v) => item_node(*v),
                None => TomlNode::Absent,
            },
        ),
{
    if let Some(v) = child_text(item, "version") {
        return v.to_owned();
    }
    match TomlUtils::extract_version_ref(item) {
        Some(alias) => {
            let resolved = match versions {
                Some(table) => child_text(table, alias.as_str()),
                None => None,
            };
            match resolved {
                Some(v) => v.to_owned(),
                None => {
                    let mut out = "${".to_owned();
                    out.append(alias.as_str());
                    out.append("}");
                    out
                },
            }
        },
        None => String::new(),
    }
}

/// Makes the line of a library.
pub fn describe_library(name: &str, item: &toml_edit::Item, versions: Option<&toml_edit::Item>) -> (r:
    DependencyLine)
    ensures
        r@ == library_line(
            name@,
            item_node(*item),
            match versions {
                Some(v) => item_node(*v),
                None => TomlNode::Absent,
            },
        ),
{
    let coordinate = match TomlUtils::extract_group_artifact(item) {
        Some((group, artifact)) => join_pair(group.as_str(), ':', artifact.as_str()),
        None => String::new(),
    };
    let version = if let Some(text) = item.as_str() {
        match crate::maven::parse_maven_coordinate(text) {
            Some((_, _, Some(v))) => v,
            _ => String::new(),
        }
    } else if item.is_inline_table() || item.is_table() {
        read_listed_version(item, versions)
    } else {
        String::new()
    };
    DependencyLine { name: name.to_owned(), coordinate, version }
}

/// Makes the line of a plugin.
pub fn describe_plugin(name: &str, item: &toml_edit::Item, versions: Option<&toml_edit::Item>) -> (r:
    DependencyLine)
    ensures
        r@ == plugin_line(
            name@,
            item_node(*item),
            match versions {
                Some(v) => item_node(*v),
                None => TomlNode::Absent,
            },
        ),
{
    if let Some(v) = item.as_str() {
        return DependencyLine { name: name.to_owned(), coordinate: name.to_owned(), version: v.to_owned() };
    }
    if item.is_inline_table() || item.is_table() {
        let coordinate = match child_text(item, "id") {
            Some(id) => id.to_owned(),
            None => name.to_owned(),
        };
        let version = read_listed_version(item, versions);
        return DependencyLine { name: name.to_owned(), coordinate, version };
    }
    DependencyLine { name: name.to_owned(), coordinate: String::new(), version: String::new() }
}

/// Whether text `a` is not higher than text `b`.
#[verifier::opaque]
pub open spec fn not_above(a: Seq<char>, b: Seq<char>) -> bool {
    text_order(a, b) != Precedence::Higher
}

/// Whether a list of names is in order: none is followed by a lower one.
pub open spec fn names_in_order(names: Seq<Seq<char>>) -> bool {
    forall|i: int| 0 <= i < names.len() - 1 ==> not_above(#[trigger] names[i], names[i + 1])
}

/// Tells whether text `a` comes after text `b`.
fn is_after(a: &str, b: &str) -> (r: bool)
    ensures
        r ==> not_above(b@, a@),
        !r ==> not_above(a@, b@),
{
    proof {
        reveal(not_above);
        lemma_lex_flip(
            crate::order::bytes_of(vstd::utf8::encode_utf8(a@)),
            crate::order::bytes_of(vstd::utf8::encode_utf8(b@)),
        );
    }
    match compare_text(a, b) {
        Precedence::Higher => true,
        _ => false,
    }
}

/// Puts a name into a list that is in order, behind every name that is
/// not higher.
fn insert_name(sorted: &mut Vec<String>, name: String)
    requires
        names_in_order(texts(old(sorted)@)),
    ensures
        names_in_order(texts(final(sorted)@)),
        final(sorted)@.len() == old(sorted)@.len() + 1,
        distinct_texts(texts(old(sorted)@)) && !texts(old(sorted)@).contains(name@) ==> distinct_texts(
            texts(final(sorted)@),
        ),
        exists|at: int|
            0 <= at <= old(sorted)@.len() && texts(final(sorted)@) == texts(old(sorted)@).insert(
                at,
                name@,
            ),
{
    let ghost before = texts(sorted@);
    let ghost added = name@;
    let mut at: usize = sorted.len();
    let mut settled = false;
    while at > 0 && !settled
        invariant
            at <= sorted.len(),
            sorted@ == old(sorted)@,
            before == texts(sorted@),
            added == name@,
            at < sorted.len() ==> not_above(added, before[at as int]),
            settled ==> at > 0 && not_above(before[at - 1], added),
        decreases at, (if settled { 0int } else { 1int }),
    {
        assert(before[at - 1] == sorted@[at - 1]@);
        if is_after(sorted[at - 1].as_str(), name.as_str()) {
            at -= 1;
        } else {
            settled = true;
        }
    }
    sorted.insert(at, name);
    proof {
        let after = texts(sorted@);
        assert(after =~= before.insert(at as int, added));
        assert forall|k: int| 0 <= k < after.len() - 1 implies not_above(
            #[trigger] after[k],
            after[k + 1],
        ) by {
            if k + 1 < at {
                assert(after[k] == before[k] && after[k + 1] == before[k + 1]);
            } else if k + 1 == at {
                assert(after[k] == before[k]);
                assert(after[k + 1] == added);
            } else if k == at {
                assert(after[k] == added);
                assert(after[k + 1] == before[k]);
            } else {
                assert(after[k] == before[k - 1] && after[k + 1] == before[k]);
            }
        }
        if distinct_texts(before) && !before.contains(added) {
            assert forall|a: int, b: int| 0 <= a < b < after.len() implies after[a] != after[b] by {
                let pa = if a < at {
                    a
                } else {
                    a - 1
                };
                let pb = if b < at {
                    b
                } else {
                    b - 1
                };
                if a != at && b != at {
                    assert(after[a] == before[pa] && after[b] == before[pb]);
                } else if a == at {
                    assert(after[b] == before[pb]);
                    assert(before.contains(before[pb]));
                } else {
                    assert(after[a] == before[pa]);
                    assert(before.contains(before[pa]));
                }
            }
        }
    }
}

/// Puts names in order: the same names, none followed by a lower one.
/// Names that are all different stay all different.
pub fn sort_names(names: &Vec<String>) -> (r: Vec<String>)
    ensures
        names_in_order(texts(r@)),
        r@.len() == names@.len(),
        forall|t: Seq<char>| texts(r@).contains(t) <==> texts(names@).contains(t),
        distinct_texts(texts(names@)) ==> distinct_texts(texts(r@)),
{
    let mut sorted: Vec<String> = Vec::new();
    let ghost all = texts(names@);
    let mut i: usize = 0;
    while i < names.len()
        invariant
            i <= names.len(),
            all == texts(names@),
            sorted@.len() == i,
            names_in_order(texts(sorted@)),
            forall|t: Seq<char>| texts(sorted@).contains(t) <==> all.take(i as int).contains(t),
            distinct_texts(all) ==> distinct_texts(texts(sorted@)),
        decreases names.len() - i,
    {
        let name = names[i].clone();
        let ghost before = texts(sorted@);
        let ghost added = name@;
        proof {
            assert(all[i as int] == added);
            assert(all.take(i + 1) =~= all.take(i as int).push(added));
            if distinct_texts(all) && before.contains(added) {
                let k = choose|k: int| 0 <= k < i && all.take(i as int)[k] == added;
                assert(all[k] == all[i as int]);
            }
        }
        insert_name(&mut sorted, name);
        proof {
            let after = texts(sorted@);
            let at = choose|at: int| 0 <= at <= before.len() && after == before.insert(at, added);
            assert forall|t: Seq<char>| after.contains(t) <==> all.take(i + 1).contains(t) by {
                lemma_push_contains(all.take(i as int), added, t);
                lemma_insert_contains(before, at, added, t);
            }
        }
        i += 1;
    }
    assert(all.take(names.len() as int) =~= all);
    sorted
}

/// The values of a list of lines.
pub open spec fn line_views(lines: Seq<DependencyLine>) -> Seq<LineView> {
    Seq::new(lines.len(), |i: int| lines[i]@)
}

/// The names of a list of lines.
pub open spec fn line_names(lines: Seq<LineView>) -> Seq<Seq<char>> {
    Seq::new(lines.len(), |i: int| lines[i].name)
}

/// The line of an entry of the `[plugins]` table, where `plugins` is
/// set, or of the `[libraries]` table.
pub open spec fn entry_line(plugins: bool, name: Seq<char>, node: TomlNode, versions: TomlNode) -> LineView {
    if plugins {
        plugin_line(name, node, versions)
    } else {
        library_line(name, node, versions)
    }
}

/// The name of the `[plugins]` table, where `plugins` is set, or of the
/// `[libraries]` table.
pub open spec fn listed_section(plugins: bool) -> Seq<char> {
    if plugins {
        "plugins"@
    } else {
        "libraries"@
    }
}

/// Whether a list of lines is the listing of a section of a document:
/// the lines come in the order of their names, each entry of the section
/// has one line and no other line is there, and each line says what the
/// entry of its name holds.
pub open spec fn is_listing(document: TomlNode, plugins: bool, lines: Seq<LineView>) -> bool {
    let section = document.child(listed_section(plugins));
    &&& names_in_order(line_names(lines))
    &&& distinct_texts(line_names(lines))
    &&& forall|i: int|
        0 <= i < lines.len() ==> section is Table && !(section.child((#[trigger] lines[i]).name)
            is Absent) && lines[i] == entry_line(
            plugins,
            lines[i].name,
            section.child(lines[i].name),
            document.child("versions"@),
        )
    &&& forall|name: Seq<char>|
        section is Table && !(#[trigger] section.child(name) is Absent) ==> line_names(lines).contains(
            name,
        )
}

/// Makes the listing of a section.
fn list_section(document: &toml_edit::Item, plugins: bool) -> (r: Vec<DependencyLine>)
    ensures
        is_listing(item_node(*document), plugins, line_views(r@)),
{
    let mut lines: Vec<DependencyLine> = Vec::new();
    let versions = item_child(document, "versions");
    let section = if plugins {
        "plugins"
    } else {
        "libraries"
    };
    let table = match item_child(document, section) {
        Some(table) => table,
        None => {
            assert(line_names(line_views(lines@)) =~= Seq::empty());
            return lines;
        },
    };
    let keys = table_keys(table);
    assert(distinct_texts(texts(keys@))) by {
        assert forall|a: int, b: int| 0 <= a < b < texts(keys@).len() implies texts(keys@)[a]
            != texts(keys@)[b] by {
            assert(keys@[a]@ != keys@[b]@);
        }
    }
    let sorted = sort_names(&keys);
    let ghost order = texts(sorted@);
    let ghost node = item_node(*table);
    let ghost aliases = item_node(*document).child("versions"@);
    let mut i: usize = 0;
    while i < sorted.len()
        invariant
            i <= sorted.len(),
            order == texts(sorted@),
            lines@.len() == i,
            node == item_node(*table),
            aliases == match versions {
                Some(v) => item_node(*v),
                None => TomlNode::Absent,
            },
            forall|t: Seq<char>|
                order.contains(t) <==> (!(#[trigger] node.child(t) is Absent) && node is Table),
            forall|k: int|
                0 <= k < i ==> (#[trigger] lines@[k])@ == entry_line(
                    plugins,
                    order[k],
                    node.child(order[k]),
                    aliases,
                ),
        decreases sorted.len() - i,
    {
        let name = sorted[i].as_str();
        assert(order[i as int] == name@);
        assert(order.contains(name@));
        let entry = item_child(table, name);
        assert(entry is Some);
        if let Some(item) = entry {
            let line = if plugins {
                describe_plugin(name, item, versions)
            } else {
                describe_library(name, item, versions)
            };
            lines.push(line);
        }
        i += 1;
    }
    proof {
        lemma_listing(item_node(*document), plugins, line_views(lines@), order);
    }
    lines
}

/// Lines that follow a sorted list of the keys of a section, one line
/// for each key, are the listing of the section.
proof fn lemma_listing(document: TomlNode, plugins: bool, lines: Seq<LineView>, order: Seq<Seq<char>>)
    requires
        lines.len() == order.len(),
        names_in_order(order),
        distinct_texts(order),
        forall|t: Seq<char>|
            order.contains(t) <==> (!(#[trigger] document.child(listed_section(plugins)).child(t)
                is Absent) && document.child(listed_section(plugins)) is Table),
        forall|k: int|
            0 <= k < lines.len() ==> #[trigger] lines[k] == entry_line(
                plugins,
                order[k],
                document.child(listed_section(plugins)).child(order[k]),
                document.child("versions"@),
            ),
    ensures
        is_listing(document, plugins, lines),
{
    let section = document.child(listed_section(plugins));
    assert forall|k: int| 0 <= k < lines.len() implies (#[trigger] lines[k]).name == order[k] by {
        assert(lines[k] == entry_line(plugins, order[k], section.child(order[k]), document.child("versions"@)));
    }
    assert(line_names(lines) =~= order);
    assert forall|i: int| 0 <= i < lines.len() implies section is Table && !(section.child(
        (#[trigger] lines[i]).name,
    ) is Absent) && lines[i] == entry_line(
        plugins,
        lines[i].name,
        section.child(lines[i].name),
        document.child("versions"@),
    ) by {
        assert(order.contains(order[i]));
    }
}

/// The listing of the libraries of a catalog: one line for each library
/// and no other, in the order of their names, each with the coordinate
/// and the version of the library.
pub fn list_libraries(document: &toml_edit::Item) -> (r: Vec<DependencyLine>)
    ensures
        is_listing(item_node(*document), false, line_views(r@)),
{
    list_section(document, false)
}

/// The listing of the plugins of a catalog: one line for each plugin
/// and no other, in the order of their names, each with the identifier
/// and the version of the plugin.
pub fn list_plugins(document: &toml_edit::Item) -> (r: Vec<DependencyLine>)
    ensures
        is_listing(item_node(*document), true, line_views(r@)),
{
    list_section(document, true)
}

} // verus!
