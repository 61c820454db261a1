//! Reading and rewriting the entries of the catalog, whatever shape an
//! entry is written in: a single coordinate string, a table with a
//! `module` field, or a table with `group` and `name` fields.

use crate::document::{
    item_child, item_child_mut, item_decoration, item_insert, item_node, item_set_text, text_item,
    TomlNode,
};
use crate::error::GvcError;
use crate::maven::{coordinate_parts, parse_maven_coordinate};
use crate::text::{join_pair, joined, same_text};
use vstd::prelude::*;

verus! {

/// A library entry of the catalog in one canonical form.
#[derive(Debug, Clone, PartialEq, Eq)]
pub struct LibraryDetails {
    pub group: String,
    pub artifact: String,
    pub version: Option<String>,
    pub version_ref: Option<String>,
}

/// The mathematical value of a [`LibraryDetails`].
pub struct LibraryDetailsView {
    pub group: Seq<char>,
    pub artifact: Seq<char>,
    pub version: Option<Seq<char>>,
    pub version_ref: Option<Seq<char>>,
}

/// The view of a text that may be missing.
pub open spec fn optional_text(t: Option<String>) -> Option<Seq<char>> {
    match t {
        Some(s) => Some(s@),
        None => None,
    }
}

/// The view of the outcome of choosing a text that may be missing.
pub open spec fn optional_text_result(r: Result<Option<String>, crate::error::GvcError>) -> Result<
    Option<Seq<char>>,
    crate::error::GvcError,
> {
    match r {
        Ok(t) => Ok(optional_text(t)),
        Err(e) => Err(e),
    }
}

/// The view of a pair of texts that may be missing.
pub open spec fn optional_pair(p: Option<(String, String)>) -> Option<(Seq<char>, Seq<char>)> {
    match p {
        Some((a, b)) => Some((a@, b@)),
        None => None,
    }
}

impl View for LibraryDetails {
    type V = LibraryDetailsView;

    open spec fn view(&self) -> LibraryDetailsView {
        LibraryDetailsView {
            group: self.group@,
            artifact: self.artifact@,
            version: optional_text(self.version),
            version_ref: optional_text(self.version_ref),
        }
    }
}

/// The group and artifact of a coordinate text.
pub open spec fn coordinate_pair(text: Seq<char>) -> Option<(Seq<char>, Seq<char>)> {
    match coordinate_parts(text) {
        Some((group, artifact, _)) => Some((group, artifact)),
        None => None,
    }
}

/// The coordinate that the `module` field of a table entry gives, where
/// the entry has one that is a coordinate.
pub open spec fn module_pair(node: TomlNode) -> Option<(Seq<char>, Seq<char>)> {
    match node.text_at("module"@) {
        Some(m) => coordinate_pair(m),
        None => None,
    }
}

/// The coordinate of an entry. The shapes are tried in order, and the
/// first one that can be read wins: a single string that is a
/// coordinate; a table with a `module` string that is a coordinate; a
/// table with both a `group` and a `name` string.
pub open spec fn group_artifact(node: TomlNode) -> Option<(Seq<char>, Seq<char>)> {
    match node {
        TomlNode::Text(s) => coordinate_pair(s),
        TomlNode::Inline(_) | TomlNode::Table(_) => match module_pair(node) {
            Some(pair) => Some(pair),
            None => match (node.text_at("group"@), node.text_at("name"@)) {
                (Some(g), Some(a)) => Some((g, a)),
                _ => None,
            },
        },
        _ => None,
    }
}

/// The version that an entry states itself: the third part of a
/// coordinate string, or the string in the `version` field of a table.
pub open spec fn literal_version(node: TomlNode) -> Option<Seq<char>> {
    match node {
        TomlNode::Text(s) => match coordinate_parts(s) {
            Some((_, _, version)) => version,
            None => None,
        },
        TomlNode::Inline(_) | TomlNode::Table(_) => node.text_at("version"@),
        _ => None,
    }
}

/// The alias that a table entry names in `version = { ref = .. }`.
pub open spec fn version_reference(node: TomlNode) -> Option<Seq<char>> {
    if node.is_table_like() && node.child("version"@).is_table_like() {
        node.child("version"@).text_at("ref"@)
    } else {
        None
    }
}

/// The canonical form of a library entry. A single string gives the
/// version of its coordinate, if it has one; a table gives its literal
/// version and its version reference.
pub open spec fn library_details(node: TomlNode) -> Option<LibraryDetailsView> {
    match node {
        TomlNode::Text(s) => match coordinate_parts(s) {
            Some((group, artifact, version)) => Some(
                LibraryDetailsView { group, artifact, version, version_ref: None },
            ),
            None => None,
        },
        _ => match group_artifact(node) {
            Some((group, artifact)) => Some(
                LibraryDetailsView {
                    group,
                    artifact,
                    version: literal_version(node),
                    version_ref: version_reference(node),
                },
            ),
            None => None,
        },
    }
}

/// The version that a library entry states itself, in whatever shape.
pub open spec fn stated_version(node: TomlNode) -> Option<Seq<char>> {
    match library_details(node) {
        Some(details) => details.version,
        None => None,
    }
}

/// A coordinate written out with a version.
pub open spec fn coordinate_text(group: Seq<char>, artifact: Seq<char>, version: Seq<char>) -> Seq<
    char,
> {
    joined(joined(group, ':', artifact), ':', version)
}

/// A library entry after its version was set to `version`, keeping its
/// shape: a coordinate string is written anew with its group and
/// artifact, a table gets the version as its `version` field. An entry
/// of no known shape cannot be edited.
pub open spec fn library_with_version(node: TomlNode, version: Seq<char>) -> Option<TomlNode> {
    match node {
        TomlNode::Text(s) => match coordinate_pair(s) {
            Some((group, artifact)) => Some(
                TomlNode::Text(coordinate_text(group, artifact, version)),
            ),
            None => None,
        },
        TomlNode::Inline(_) | TomlNode::Table(_) => Some(
            node.with_child("version"@, TomlNode::Text(version)),
        ),
        _ => None,
    }
}

/// The string under `key` in a table entry.
pub(crate) fn child_text<'a>(item: &'a toml_edit::Item, key: &str) -> (r: Option<&'a str>)
    ensures
        match r {
            Some(t) => item_node(*item).text_at(key@) == Some(t@),
            None => item_node(*item).text_at(key@) is None,
        },
{
    match item_child(item, key) {
        Some(child) => child.as_str(),
        None => None,
    }
}

/// Puts a string under `key` in a table entry. Where something stands
/// under the key it is replaced where it stands, so that the key and
/// what is written around the value stay as they are.
pub(crate) fn set_field_text(item: &mut toml_edit::Item, key: &str, text: &str)
    ensures
        item_node(*final(item)) == item_node(*old(item)).with_child(key@, TomlNode::Text(text@)),
        item_node(*old(item)).child(key@) == TomlNode::Text(text@) ==> *final(item) == *old(item),
{
    let ghost before = item_node(*item);
    match item_child_mut(item, key) {
        Some(child) => {
            let same = match child.as_str() {
                Some(current) => same_text(current, text),
                None => false,
            };
            if !same {
                item_set_text(child, text);
            }
            proof {
                if before.child(key@) == TomlNode::Text(text@) {
                    crate::section::lemma_same_child(before, key@);
                }
            }
        },
        None => {
            item_insert(item, key, text_item(text));
        },
    }
}

/// The group and artifact of a coordinate text.
fn coordinate_pair_of(text: &str) -> (r: Option<(String, String)>)
    ensures
        optional_pair(r) == coordinate_pair(text@),
{
    match parse_maven_coordinate(text) {
        Some((group, artifact, _)) => Some((group, artifact)),
        None => None,
    }
}

/// Helpers for reading and updating the entries of a version catalog.
pub struct TomlUtils;

impl TomlUtils {
    /// Reads `(group, artifact)` from an entry of any shape.
    pub fn extract_group_artifact(item: &toml_edit::Item) -> (r: Option<(String, String)>)
        ensures
            optional_pair(r) == group_artifact(item_node(*item)),
    {
        if let Some(text) = item.as_str() {
            return coordinate_pair_of(text);
        }
        if item.is_inline_table() || item.is_table() {
            if let Some(module) = child_text(item, "module") {
                if let Some(pair) = coordinate_pair_of(module) {
                    return Some(pair);
                }
            }
            if let Some(group) = child_text(item, "group") {
                if let Some(name) = child_text(item, "name") {
                    return Some((group.to_owned(), name.to_owned()));
                }
            }
        }
        None
    }

    /// Reads the version that an entry states itself: the third part of
    /// a coordinate string, or the string in the `version` field of a
    /// table.
    pub fn extract_version(item: &toml_edit::Item) -> (r: Option<String>)
        ensures
            optional_text(r) == literal_version(item_node(*item)),
    {
        if let Some(raw) = item.as_str() {
            return match parse_maven_coordinate(raw) {
                Some((_, _, version)) => version,
                None => None,
            };
        }
        if item.is_inline_table() || item.is_table() {
            match child_text(item, "version") {
                Some(v) => Some(v.to_owned()),
                None => None,
            }
        } else {
            None
        }
    }

    /// Reads the alias that a table entry names as its version
    /// reference, as in `version = { ref = "core" }`.
    pub fn extract_version_ref(item: &toml_edit::Item) -> (r: Option<String>)
        ensures
            optional_text(r) == version_reference(item_node(*item)),
    {
        if item.is_inline_table() || item.is_table() {
            if let Some(version) = item_child(item, "version") {
                if version.is_inline_table() || version.is_table() {
                    return match child_text(version, "ref") {
                        Some(alias) => Some(alias.to_owned()),
                        None => None,
                    };
                }
            }
        }
        None
    }

    /// Tells whether the entry takes its version from the alias
    /// `version_key`.
    pub fn uses_version_ref(item: &toml_edit::Item, version_key: &str) -> (r: bool)
        ensures
            r == (version_reference(item_node(*item)) == Some(version_key@)),
    {
        match Self::extract_version_ref(item) {
            Some(key) => same_text(key.as_str(), version_key),
            None => false,
        }
    }

    /// Reads a library entry of any shape into its canonical form.
    pub fn extract_library_details(item: &toml_edit::Item) -> (r: Option<LibraryDetails>)
        ensures
            match r {
                Some(details) => library_details(item_node(*item)) == Some(details@),
                None => library_details(item_node(*item)) is None,
            },
    {
        if let Some(raw) = item.as_str() {
            return match parse_maven_coordinate(raw) {
                Some((group, artifact, version)) => Some(
                    LibraryDetails { group, artifact, version, version_ref: None },
                ),
                None => None,
            };
        }
        match Self::extract_group_artifact(item) {
            Some((group, artifact)) => {
                let version = Self::extract_version(item);
                let version_ref = Self::extract_version_ref(item);
                Some(LibraryDetails { group, artifact, version, version_ref })
            },
            None => None,
        }
    }

    /// Sets the version of a library entry, keeping the shape the entry
    /// is written in, and tells whether the entry changed. An entry that
    /// already states this version is not touched: it is the same item
    /// afterwards, with its spacing and comments, and not only an item
    /// that holds the same. A coordinate string that is written anew
    /// keeps the spacing and comments around it. An entry of a shape
    /// that cannot be edited is refused and left as it is.
    pub fn update_version(item: &mut toml_edit::Item, new_version: &str) -> (r: Result<
        bool,
        GvcError,
    >)
        ensures
            r != Ok::<bool, GvcError>(true) ==> *final(item) == *old(item),
            item_node(*old(item)) is Text ==> item_decoration(*final(item)) == item_decoration(
                *old(item),
            ),
            stated_version(item_node(*old(item))) == Some(new_version@) ==> r == Ok::<bool, GvcError>(
                false,
            ),
            match library_with_version(item_node(*old(item)), new_version@) {
                Some(node) => {
                    &&& r == Ok::<bool, GvcError>(node != item_node(*old(item)))
                    &&& item_node(*final(item)) == node
                },
                None => {
                    &&& r is Err
                    &&& r->Err_0 is UnsupportedShape
                    &&& item_node(*final(item)) == item_node(*old(item))
                },
            },
    {
        proof {
            if stated_version(item_node(*item)) == Some(new_version@) {
                lemma_own_version_changes_nothing(item_node(*item), new_version@);
            }
        }
        if let Some(raw) = item.as_str() {
            return match coordinate_pair_of(raw) {
                Some((group, artifact)) => {
                    let head = join_pair(group.as_str(), ':', artifact.as_str());
                    let text = join_pair(head.as_str(), ':', new_version);
                    if same_text(text.as_str(), raw) {
                        Ok(false)
                    } else {
                        item_set_text(item, text.as_str());
                        Ok(true)
                    }
                },
                None => Err(
                    GvcError::UnsupportedShape("Library coordinate cannot be read".to_owned()),
                ),
            };
        }
        if item.is_inline_table() || item.is_table() {
            let same = match child_text(item, "version") {
                Some(current) => same_text(current, new_version),
                None => false,
            };
            if same {
                proof {
                    lemma_same_version_changes_nothing(item_node(*item), new_version@);
                }
                return Ok(false);
            }
            set_field_text(item, "version", new_version);
            return Ok(true);
        }
        Err(GvcError::UnsupportedShape("Unsupported library format".to_owned()))
    }
}

/// A table whose `version` field already is the string `version` is the
/// same table after that string was put there, and a table whose
/// `version` field is anything else is a different one.
pub proof fn lemma_same_version_changes_nothing(node: TomlNode, version: Seq<char>)
    requires
        node.is_table_like(),
    ensures
        node.text_at("version"@) == Some(version) <==> node.with_child(
            "version"@,
            TomlNode::Text(version),
        ) == node,
{
    let key = "version"@;
    let after = node.with_child(key, TomlNode::Text(version));
    match node {
        TomlNode::Inline(m) => {
            if node.text_at(key) == Some(version) {
                assert(m.insert(key, TomlNode::Text(version)) =~= m);
            } else {
                assert(after.child(key) == TomlNode::Text(version));
            }
        },
        TomlNode::Table(m) => {
            if node.text_at(key) == Some(version) {
                assert(m.insert(key, TomlNode::Text(version)) =~= m);
            } else {
                assert(after.child(key) == TomlNode::Text(version));
            }
        },
        _ => {},
    }
}

/// Setting a library to the version that it states already changes
/// nothing, whatever shape the entry is written in: a coordinate string
/// is written anew as the same string, and a table gets the string that
/// its `version` field holds.
pub proof fn lemma_own_version_changes_nothing(node: TomlNode, version: Seq<char>)
    requires
        stated_version(node) == Some(version),
    ensures
        library_with_version(node, version) == Some(node),
{
    match node {
        TomlNode::Text(s) => {
            let parts = crate::text::split_on(s, ':');
            crate::text::lemma_split_join(s, ':');
            assert(parts.len() == 3);
            let tail = parts.skip(1);
            assert(tail.len() == 2);
            assert(tail[0] == parts[1]);
            assert(tail.skip(1).len() == 1);
            assert(tail.skip(1)[0] == parts[2]);
            assert(crate::text::join_on(tail.skip(1), ':') == parts[2]);
            assert(crate::text::join_on(tail, ':') == parts[1] + seq![':'] + parts[2]);
            assert(crate::text::join_on(parts, ':') == parts[0] + seq![':'] + (parts[1] + seq![':']
                + parts[2]));
            assert(coordinate_text(parts[0], parts[1], parts[2]) =~= parts[0] + seq![':'] + (parts[1]
                + seq![':'] + parts[2]));
        },
        TomlNode::Inline(_) | TomlNode::Table(_) => {
            lemma_same_version_changes_nothing(node, version);
        },
        _ => {},
    }
}

} // verus!
