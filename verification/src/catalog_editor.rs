//! Adding a library or a plugin to the catalog.
//!
//! Everything is checked before anything is written, so that a request
//! that is refused leaves the document as it was.

use crate::alias::{
    alias_of, dotted_words, generate_library_alias, generate_plugin_alias,
    generate_plugin_version_alias, generate_version_alias, library_alias, sanitize_alias,
    version_alias_of,
};
use crate::context::load_document;
use crate::document::{
    document_node, item_child, item_child_mut, item_insert, item_node, new_reference_entry,
    new_table, parsed_toml, reference_entry, render_toml, rendered_toml, table_keys, text_item,
    TomlNode,
};
use crate::error::GvcError;
use crate::section::lemma_same_child;
use crate::text::{
    join_pair, joined, rows, same_text, split_on, split_text, text_of, texts, trim_chars, trimmed,
};
use crate::toml_utils::{child_text, coordinate_pair};
use vstd::prelude::*;

verus! {

/// Which section an entry was added to.
#[derive(Debug, Clone, Copy, PartialEq, Eq, Structural)]
pub enum AddTargetKind {
    Library,
    Plugin,
}

/// What was added to the catalog.
#[derive(Debug, Clone, PartialEq, Eq)]
pub struct AddResult {
    /// The name of the new entry.
    pub alias: String,
    /// The alias that holds its version.
    pub version_alias: String,
    /// The section it was added to.
    pub target: AddTargetKind,
}

/// The parts of the coordinate of a library to add:
/// `group:artifact:version`, each part without the white space around it
/// and none of them empty.
pub open spec fn library_coordinate(input: Seq<char>) -> Option<(Seq<char>, Seq<char>, Seq<char>)> {
    let parts = split_on(input, ':');
    if parts.len() == 3 && trimmed(parts[0]).len() > 0 && trimmed(parts[1]).len() > 0 && trimmed(
        parts[2],
    ).len() > 0 {
        Some((trimmed(parts[0]), trimmed(parts[1]), trimmed(parts[2])))
    } else {
        None
    }
}

/// The parts of the coordinate of a plugin to add: `plugin.id:version`,
/// each part without the white space around it and none of them empty.
pub open spec fn plugin_coordinate_parts(input: Seq<char>) -> Option<(Seq<char>, Seq<char>)> {
    let parts = split_on(input, ':');
    if parts.len() == 2 && trimmed(parts[0]).len() > 0 && trimmed(parts[1]).len() > 0 {
        Some((trimmed(parts[0]), trimmed(parts[1])))
    } else {
        None
    }
}

/// Reads the coordinate of a library to add.
pub fn parse_library_coordinate(input: &str) -> (r: Result<(String, String, String), GvcError>)
    ensures
        match r {
            Ok((group, artifact, version)) => library_coordinate(input@) == Some(
                (group@, artifact@, version@),
            ),
            Err(e) => e is ProjectValidation && library_coordinate(input@) is None,
        },
{
    let parts = split_text(input, ':');
    if parts.len() != 3 {
        return Err(
            GvcError::ProjectValidation(
                "Invalid library coordinate. Expected format group:artifact:version".to_owned(),
            ),
        );
    }
    proof {
        assert(rows(parts@)[0] == parts@[0]@);
        assert(rows(parts@)[1] == parts@[1]@);
        assert(rows(parts@)[2] == parts@[2]@);
    }
    let group = trim_chars(&parts[0]);
    let artifact = trim_chars(&parts[1]);
    let version = trim_chars(&parts[2]);
    if group.len() == 0 || artifact.len() == 0 || version.len() == 0 {
        return Err(
            GvcError::ProjectValidation(
                "Invalid library coordinate. None of group, artifact, version may be empty".to_owned(),
            ),
        );
    }
    Ok((text_of(&group), text_of(&artifact), text_of(&version)))
}

/// Reads the coordinate of a plugin to add.
pub fn parse_plugin_coordinate(input: &str) -> (r: Result<(String, String), GvcError>)
    ensures
        match r {
            Ok((plugin_id, version)) => plugin_coordinate_parts(input@) == Some(
                (plugin_id@, version@),
            ),
            Err(e) => e is ProjectValidation && plugin_coordinate_parts(input@) is None,
        },
{
    let parts = split_text(input, ':');
    if parts.len() != 2 {
        return Err(
            GvcError::ProjectValidation(
                "Invalid plugin coordinate. Expected format plugin.id:version".to_owned(),
            ),
        );
    }
    proof {
        assert(rows(parts@)[0] == parts@[0]@);
        assert(rows(parts@)[1] == parts@[1]@);
    }
    let plugin_id = trim_chars(&parts[0]);
    let version = trim_chars(&parts[1]);
    if plugin_id.len() == 0 || version.len() == 0 {
        return Err(
            GvcError::ProjectValidation(
                "Invalid plugin coordinate. Plugin id and version may not be empty".to_owned(),
            ),
        );
    }
    Ok((text_of(&plugin_id), text_of(&version)))
}

/// Whether an entry is the library with this group and artifact, in
/// whatever shape it is written.
pub open spec fn names_library(node: TomlNode, group: Seq<char>, artifact: Seq<char>) -> bool {
    match node {
        TomlNode::Text(s) => coordinate_pair(s) == Some((group, artifact)),
        TomlNode::Inline(_) | TomlNode::Table(_) => {
            ||| node.text_at("module"@) is Some && coordinate_pair(node.text_at("module"@)->0) == Some(
                (group, artifact),
            )
            ||| node.text_at("group"@) == Some(group) && node.text_at("name"@) == Some(artifact)
        },
        _ => false,
    }
}

/// Whether an entry is the plugin with this identifier.
pub open spec fn names_plugin(node: TomlNode, plugin_id: Seq<char>) -> bool {
    node.is_table_like() && node.text_at("id"@) == Some(plugin_id)
}

/// Whether a section holds the library with this group and artifact.
pub open spec fn has_library(section: TomlNode, group: Seq<char>, artifact: Seq<char>) -> bool {
    section is Table && exists|key: Seq<char>| names_library(#[trigger] section.child(key), group, artifact)
}

/// Whether a section holds the plugin with this identifier.
pub open spec fn has_plugin(section: TomlNode, plugin_id: Seq<char>) -> bool {
    section is Table && exists|key: Seq<char>| names_plugin(#[trigger] section.child(key), plugin_id)
}

/// Tests whether a coordinate text has this group and artifact.
fn coordinate_is(text: &str, group: &str, artifact: &str) -> (r: bool)
    ensures
        r == (coordinate_pair(text@) == Some((group@, artifact@))),
{
    match crate::maven::parse_maven_coordinate(text) {
        Some((g, a, _)) => same_text(g.as_str(), group) && same_text(a.as_str(), artifact),
        None => false,
    }
}

/// Tells whether an entry is the library with this group and artifact.
pub fn library_item_matches(item: &toml_edit::Item, group: &str, artifact: &str) -> (r: bool)
    ensures
        r == names_library(item_node(*item), group@, artifact@),
{
    if let Some(text) = item.as_str() {
        return coordinate_is(text, group, artifact);
    }
    if item.is_inline_table() || item.is_table() {
        if let Some(module) = child_text(item, "module") {
            if coordinate_is(module, group, artifact) {
                return true;
            }
        }
        if let Some(g) = child_text(item, "group") {
            if let Some(a) = child_text(item, "name") {
                return same_text(g, group) && same_text(a, artifact);
            }
        }
    }
    false
}

/// Tells whether an entry is the plugin with this identifier.
pub fn plugin_item_matches(item: &toml_edit::Item, plugin_id: &str) -> (r: bool)
    ensures
        r == names_plugin(item_node(*item), plugin_id@),
{
    if item.is_inline_table() || item.is_table() {
        match child_text(item, "id") {
            Some(id) => same_text(id, plugin_id),
            None => false,
        }
    } else {
        false
    }
}

/// Tells whether a section holds the library with this group and
/// artifact.
pub fn library_exists(table: &toml_edit::Item, group: &str, artifact: &str) -> (r: bool)
    ensures
        r == has_library(item_node(*table), group@, artifact@),
{
    let keys = table_keys(table);
    let mut i: usize = 0;
    while i < keys.len()
        invariant
            i <= keys.len(),
            keys@.len() > 0 ==> item_node(*table) is Table,
            forall|k: int|
                0 <= k < i ==> !names_library(
                    item_node(*table).child(#[trigger] texts(keys@)[k]),
                    group@,
                    artifact@,
                ),
        decreases keys.len() - i,
    {
        assert(texts(keys@)[i as int] == keys@[i as int]@);
        if let Some(item) = item_child(table, keys[i].as_str()) {
            if library_item_matches(item, group, artifact) {
                assert(item_node(*table) is Table);
                assert(names_library(item_node(*table).child(keys@[i as int]@), group@, artifact@));
                return true;
            }
        }
        i += 1;
    }
    proof {
        assert forall|key: Seq<char>| !names_library(
            #[trigger] item_node(*table).child(key),
            group@,
            artifact@,
        ) || !(item_node(*table) is Table) by {
            if item_node(*table) is Table && !(item_node(*table).child(key) is Absent) {
                assert(texts(keys@).contains(key));
                let k = choose|k: int| 0 <= k < texts(keys@).len() && texts(keys@)[k] == key;
                assert(!names_library(item_node(*table).child(texts(keys@)[k]), group@, artifact@));
            }
        }
    }
    false
}

/// Tells whether a section holds the plugin with this identifier.
pub fn plugin_exists(table: &toml_edit::Item, plugin_id: &str) -> (r: bool)
    ensures
        r == has_plugin(item_node(*table), plugin_id@),
{
    let keys = table_keys(table);
    let mut i: usize = 0;
    while i < keys.len()
        invariant
            i <= keys.len(),
            keys@.len() > 0 ==> item_node(*table) is Table,
            forall|k: int|
                0 <= k < i ==> !names_plugin(
                    item_node(*table).child(#[trigger] texts(keys@)[k]),
                    plugin_id@,
                ),
        decreases keys.len() - i,
    {
        assert(texts(keys@)[i as int] == keys@[i as int]@);
        if let Some(item) = item_child(table, keys[i].as_str()) {
            if plugin_item_matches(item, plugin_id) {
                assert(item_node(*table) is Table);
                assert(names_plugin(item_node(*table).child(keys@[i as int]@), plugin_id@));
                return true;
            }
        }
        i += 1;
    }
    proof {
        assert forall|key: Seq<char>| !names_plugin(#[trigger] item_node(*table).child(key), plugin_id@)
            || !(item_node(*table) is Table) by {
            if item_node(*table) is Table && !(item_node(*table).child(key) is Absent) {
                assert(texts(keys@).contains(key));
                let k = choose|k: int| 0 <= k < texts(keys@).len() && texts(keys@)[k] == key;
                assert(!names_plugin(item_node(*table).child(texts(keys@)[k]), plugin_id@));
            }
        }
    }
    false
}

/// The document with an empty table under `key` where it had nothing
/// there.
pub open spec fn with_table(document: TomlNode, key: Seq<char>) -> TomlNode {
    if document.child(key) is Absent {
        document.with_child(key, TomlNode::Table(Map::empty()))
    } else {
        document
    }
}

/// The document with `entry` under `name` in the section `section`.
pub open spec fn with_entry(document: TomlNode, section: Seq<char>, name: Seq<char>, entry: TomlNode) -> TomlNode {
    document.with_child(section, document.child(section).with_child(name, entry))
}

/// What is to be added: the kind of entry and the section it goes to,
/// the name of the new entry, the field that names what the entry is and
/// its value, the alias of the version with its value, and what the
/// entry is looked up by.
pub struct Addition {
    pub target: AddTargetKind,
    pub section: Seq<char>,
    pub alias: Seq<char>,
    pub field: Seq<char>,
    pub named: Seq<char>,
    pub version_alias: Seq<char>,
    pub version: Seq<char>,
    pub group: Seq<char>,
    pub artifact: Seq<char>,
}

/// The text of a name that may be given.
pub open spec fn given_name(name: Option<&str>) -> Option<Seq<char>> {
    match name {
        Some(text) => Some(text@),
        None => None,
    }
}

/// The addition that a request for a library asks for, or nothing where
/// the coordinate cannot be read. The entry is named as the request
/// says, or else by the alias made of group and artifact; the version
/// alias is named as the request says, or else by the alias made of the
/// group.
pub open spec fn library_addition(
    coordinate: Seq<char>,
    alias_override: Option<Seq<char>>,
    version_alias_override: Option<Seq<char>>,
) -> Option<Addition> {
    match library_coordinate(coordinate) {
        Some((group, artifact, version)) => Some(
            Addition {
                target: AddTargetKind::Library,
                section: "libraries"@,
                alias: match alias_override {
                    Some(name) => alias_of(seq![name]),
                    None => library_alias(group, artifact),
                },
                field: "module"@,
                named: joined(group, ':', artifact),
                version_alias: match version_alias_override {
                    Some(name) => alias_of(seq![name]),
                    None => version_alias_of(dotted_words(group), "version"@),
                },
                version,
                group,
                artifact,
            },
        ),
        None => None,
    }
}

/// The addition that a request for a plugin asks for, or nothing where
/// the coordinate cannot be read. The entry is named as the request
/// says, or else by the alias made of the identifier; the version alias
/// is named as the request says, or else by the alias made of the
/// identifier.
pub open spec fn plugin_addition(
    coordinate: Seq<char>,
    alias_override: Option<Seq<char>>,
    version_alias_override: Option<Seq<char>>,
) -> Option<Addition> {
    match plugin_coordinate_parts(coordinate) {
        Some((plugin_id, version)) => Some(
            Addition {
                target: AddTargetKind::Plugin,
                section: "plugins"@,
                alias: match alias_override {
                    Some(name) => alias_of(seq![name]),
                    None => alias_of(dotted_words(plugin_id)),
                },
                field: "id"@,
                named: plugin_id,
                version_alias: match version_alias_override {
                    Some(name) => alias_of(seq![name]),
                    None => version_alias_of(dotted_words(plugin_id), "plugin-version"@),
                },
                version,
                group: plugin_id,
                artifact: plugin_id,
            },
        ),
        None => None,
    }
}

/// Whether the document holds already what is to be added.
pub open spec fn known_already(document: TomlNode, a: Addition) -> bool {
    match a.target {
        AddTargetKind::Library => has_library(document.child(a.section), a.group, a.artifact),
        AddTargetKind::Plugin => has_plugin(document.child(a.section), a.named),
    }
}

/// Why a request is refused, if it is: `Some(true)` where the request
/// is not valid, because the coordinate cannot be read, the name of the
/// entry is taken, the version alias is there and is no string, or what
/// is to be added is there already; `Some(false)` where the document has
/// not the form of a catalog; `None` where the request is accepted.
pub open spec fn refusal(document: TomlNode, request: Option<Addition>) -> Option<bool> {
    match request {
        None => Some(true),
        Some(a) => if !well_formed_for(document, a.section) {
            Some(false)
        } else if name_taken(document, a) || known_already(document, a) {
            Some(true)
        } else {
            None
        },
    }
}

/// Whether an error is the one of a refusal.
pub open spec fn refused_as(error: GvcError, invalid: bool) -> bool {
    if invalid {
        error is ProjectValidation
    } else {
        error is TomlParsing
    }
}

/// Whether a result says what an addition added.
pub open spec fn added_as(result: AddResult, a: Addition) -> bool {
    result.alias@ == a.alias && result.version_alias@ == a.version_alias && result.target == a.target
}

/// The document after an addition: the `[versions]` table and the
/// section are there, the version alias holds the version, and the
/// section holds the new entry, which takes its version from the alias.
pub open spec fn with_addition(document: TomlNode, a: Addition) -> TomlNode {
    let prepared = with_table(with_table(document, "versions"@), a.section);
    let versioned = with_entry(prepared, "versions"@, a.version_alias, TomlNode::Text(a.version));
    with_entry(versioned, a.section, a.alias, reference_entry(a.field, a.named, a.version_alias))
}

/// Whether the document has the form that an addition needs: a table at
/// its root, and tables, if anything, for `[versions]` and the section.
pub open spec fn well_formed_for(document: TomlNode, section: Seq<char>) -> bool {
    &&& document is Table
    &&& document.child("versions"@) is Absent || document.child("versions"@) is Table
    &&& document.child(section) is Absent || document.child(section) is Table
}

/// Whether an addition runs into what the document holds already: the
/// name of the new entry is taken, or the version alias is there and is
/// no string.
pub open spec fn name_taken(document: TomlNode, a: Addition) -> bool {
    ||| !(document.child(a.section).child(a.alias) is Absent)
    ||| !(document.child("versions"@).child(a.version_alias) is Absent) && !(document.child(
        "versions"@,
    ).child(a.version_alias) is Text)
}

/// Makes sure that the root has a table under `name`.
fn ensure_section(root: &mut toml_edit::Item, name: &str)
    requires
        item_node(*old(root)) is Table,
    ensures
        item_node(*final(root)) == with_table(item_node(*old(root)), name@),
        item_node(*final(root)) is Table,
{
    let missing = item_child(root, name).is_none();
    if missing {
        item_insert(root, name, new_table());
    }
}

/// Puts a string under `name` in a section of the root.
fn put_text(root: &mut toml_edit::Item, section: &str, name: &str, text: &str)
    requires
        item_node(*old(root)) is Table,
        item_node(*old(root)).child(section@) is Table,
    ensures
        item_node(*final(root)) == with_entry(
            item_node(*old(root)),
            section@,
            name@,
            TomlNode::Text(text@),
        ),
        item_node(*final(root)) is Table,
{
    let ghost before = item_node(*root);
    match item_child_mut(root, section) {
        Some(table) => {
            item_insert(table, name, text_item(text));
            proof {
                lemma_same_child(before, section@);
            }
        },
        None => {},
    }
}

/// Puts an entry under `name` in a section of the root.
fn put_entry(root: &mut toml_edit::Item, section: &str, name: &str, entry: toml_edit::Item)
    requires
        item_node(*old(root)) is Table,
        item_node(*old(root)).child(section@) is Table,
    ensures
        item_node(*final(root)) == with_entry(
            item_node(*old(root)),
            section@,
            name@,
            item_node(entry),
        ),
        item_node(*final(root)) is Table,
{
    let ghost before = item_node(*root);
    match item_child_mut(root, section) {
        Some(table) => {
            item_insert(table, name, entry);
            proof {
                lemma_same_child(before, section@);
            }
        },
        None => {},
    }
}

/// Tests whether the section of the root is a table or missing.
fn section_is_usable(root: &toml_edit::Item, section: &str) -> (r: bool)
    ensures
        r == (item_node(*root).child(section@) is Absent || item_node(*root).child(section@) is Table),
{
    match item_child(root, section) {
        Some(table) => table.is_table(),
        None => true,
    }
}

/// Tests whether something stands under `name` in the section.
fn section_holds(root: &toml_edit::Item, section: &str, name: &str) -> (r: bool)
    ensures
        r == !(item_node(*root).child(section@).child(name@) is Absent),
{
    match item_child(root, section) {
        Some(table) => item_child(table, name).is_some(),
        None => false,
    }
}

/// Tests whether something that is no string stands under `name` in the
/// section.
fn section_holds_other(root: &toml_edit::Item, section: &str, name: &str) -> (r: bool)
    ensures
        r == (!(item_node(*root).child(section@).child(name@) is Absent) && !(item_node(*root).child(
            section@,
        ).child(name@) is Text)),
{
    match item_child(root, section) {
        Some(table) => match item_child(table, name) {
            Some(entry) => entry.as_str().is_none(),
            None => false,
        },
        None => false,
    }
}

/// Writes an addition that was checked into the document.
fn write_addition(
    doc: &mut toml_edit::DocumentMut,
    section: &str,
    alias: &str,
    field: &str,
    named: &str,
    version_alias: &str,
    version: &str,
)
    requires
        well_formed_for(document_node(*old(doc)), section@),
    ensures
        forall|a: Addition|
            a.section == section@ && a.alias == alias@ && a.field == field@ && a.named == named@
                && a.version_alias == version_alias@ && a.version == version@ ==> document_node(
                *final(doc),
            ) == #[trigger] with_addition(document_node(*old(doc)), a),
{
    let ghost start = document_node(*doc);
    let root = doc.as_item_mut();
    ensure_section(root, "versions");
    ensure_section(root, section);
    proof {
        let first = with_table(start, "versions"@);
        crate::document::lemma_with_child_reads(
            start,
            "versions"@,
            TomlNode::Table(Map::empty()),
            section@,
        );
        crate::document::lemma_with_child_reads(
            first,
            section@,
            TomlNode::Table(Map::empty()),
            "versions"@,
        );
    }
    put_text(root, "versions", version_alias, version);
    proof {
        let prepared = with_table(with_table(start, "versions"@), section@);
        crate::document::lemma_with_child_reads(
            prepared,
            "versions"@,
            prepared.child("versions"@).with_child(version_alias@, TomlNode::Text(version@)),
            section@,
        );
    }
    put_entry(root, section, alias, new_reference_entry(field, named, version_alias));
}

/// Adds entries to the catalog.
pub struct CatalogEditor {
    catalog_path: String,
}

impl CatalogEditor {
    /// An editor for the catalog at `catalog_path`.
    pub fn new(catalog_path: &str) -> (r: Self)
        ensures
            r.catalog_path()@ == catalog_path@,
    {
        CatalogEditor { catalog_path: catalog_path.to_owned() }
    }

    /// The path of the catalog.
    pub closed spec fn catalog_path(&self) -> String {
        self.catalog_path
    }

    /// The path of the catalog.
    pub fn path(&self) -> (r: &str)
        ensures
            r@ == self.catalog_path()@,
    {
        self.catalog_path.as_str()
    }

    /// Adds a library, given as `group:artifact:version`, to the
    /// document. The entry is named by `alias_override`, or else by the
    /// alias made of group and artifact, and takes its version from the
    /// alias `version_alias_override`, or else the one made of the
    /// group, which is set to the version.
    ///
    /// The request is refused, and the document left as it was, where
    /// the coordinate cannot be read, the document has not the form of a
    /// catalog, the name of the entry is taken, the library is there
    /// already, or the version alias is there and is no string.
    pub fn add_library(
        &self,
        doc: &mut toml_edit::DocumentMut,
        coordinate: &str,
        alias_override: Option<&str>,
        version_alias_override: Option<&str>,
    ) -> (r: Result<AddResult, GvcError>)
        ensures
            ({
                let before = document_node(*old(doc));
                let request = library_addition(
                    coordinate@,
                    given_name(alias_override),
                    given_name(version_alias_override),
                );
                match refusal(before, request) {
                    Some(invalid) => r is Err && refused_as(r->Err_0, invalid) && document_node(
                        *final(doc),
                    ) == before,
                    None => r is Ok && added_as(r->Ok_0, request->0) && document_node(*final(doc))
                        == with_addition(before, request->0),
                }
            }),
    {
        let (group, artifact, version) = match parse_library_coordinate(coordinate) {
            Ok(parts) => parts,
            Err(e) => return Err(e),
        };
        let alias = match alias_override {
            Some(name) => sanitize_alias(name),
            None => generate_library_alias(group.as_str(), artifact.as_str()),
        };
        let version_alias = match version_alias_override {
            Some(name) => sanitize_alias(name),
            None => generate_version_alias(group.as_str()),
        };
        let root = doc.as_item();
        if !root.is_table() || !section_is_usable(root, "versions") || !section_is_usable(
            root,
            "libraries",
        ) {
            return Err(GvcError::TomlParsing("Failed to access a table of the catalog".to_owned()));
        }
        if section_holds(root, "libraries", alias.as_str()) {
            return Err(
                GvcError::ProjectValidation("Library alias already exists in [libraries]".to_owned()),
            );
        }
        let known = match item_child(root, "libraries") {
            Some(libraries) => library_exists(libraries, group.as_str(), artifact.as_str()),
            None => false,
        };
        if known {
            return Err(GvcError::ProjectValidation("Library already exists in [libraries]".to_owned()));
        }
        if section_holds_other(root, "versions", version_alias.as_str()) {
            return Err(
                GvcError::ProjectValidation(
                    "Version alias already exists but is not a string".to_owned(),
                ),
            );
        }
        let module = join_pair(group.as_str(), ':', artifact.as_str());
        write_addition(
            doc,
            "libraries",
            alias.as_str(),
            "module",
            module.as_str(),
            version_alias.as_str(),
            version.as_str(),
        );
        Ok(AddResult { alias, version_alias, target: AddTargetKind::Library })
    }

    /// Adds a library to the catalog given by its text and hands back
    /// what was added with the text to write; see [`Self::add_library`].
    /// A text that is no TOML document is refused.
    pub fn add_library_to_text(
        &self,
        content: &str,
        coordinate: &str,
        alias_override: Option<&str>,
        version_alias_override: Option<&str>,
    ) -> (r: Result<(AddResult, String), GvcError>)
        ensures
            ({
                let request = library_addition(
                    coordinate@,
                    given_name(alias_override),
                    given_name(version_alias_override),
                );
                match parsed_toml(content@) {
                    None => r is Err && r->Err_0 is TomlParsing,
                    Some(before) => match refusal(before, request) {
                        Some(invalid) => r is Err && refused_as(r->Err_0, invalid),
                        None => r is Ok && added_as(r->Ok_0.0, request->0) && exists|
                            doc: toml_edit::DocumentMut,
                        |
                            #[trigger] document_node(doc) == with_addition(before, request->0)
                                && r->Ok_0.1@ == rendered_toml(doc),
                    },
                }
            }),
    {
        let mut doc = match load_document(content) {
            Ok(doc) => doc,
            Err(e) => return Err(e),
        };
        let ghost before = document_node(doc);
        let added = match self.add_library(&mut doc, coordinate, alias_override, version_alias_override) {
            Ok(added) => added,
            Err(e) => return Err(e),
        };
        proof {
            lemma_addition_reads(
                before,
                library_addition(
                    coordinate@,
                    given_name(alias_override),
                    given_name(version_alias_override),
                )->0,
            );
        }
        let text = render_toml(&doc);
        Ok((added, text))
    }

    /// Adds a plugin to the catalog given by its text and hands back what
    /// was added with the text to write; see [`Self::add_plugin`]. A text
    /// that is no TOML document is refused.
    pub fn add_plugin_to_text(
        &self,
        content: &str,
        coordinate: &str,
        alias_override: Option<&str>,
        version_alias_override: Option<&str>,
    ) -> (r: Result<(AddResult, String), GvcError>)
        ensures
            ({
                let request = plugin_addition(
                    coordinate@,
                    given_name(alias_override),
                    given_name(version_alias_override),
                );
                match parsed_toml(content@) {
                    None => r is Err && r->Err_0 is TomlParsing,
                    Some(before) => match refusal(before, request) {
                        Some(invalid) => r is Err && refused_as(r->Err_0, invalid),
                        None => r is Ok && added_as(r->Ok_0.0, request->0) && exists|
                            doc: toml_edit::DocumentMut,
                        |
                            #[trigger] document_node(doc) == with_addition(before, request->0)
                                && r->Ok_0.1@ == rendered_toml(doc),
                    },
                }
            }),
    {
        let mut doc = match load_document(content) {
            Ok(doc) => doc,
            Err(e) => return Err(e),
        };
        let ghost before = document_node(doc);
        let added = match self.add_plugin(&mut doc, coordinate, alias_override, version_alias_override) {
            Ok(added) => added,
            Err(e) => return Err(e),
        };
        proof {
            lemma_addition_reads(
                before,
                plugin_addition(
                    coordinate@,
                    given_name(alias_override),
                    given_name(version_alias_override),
                )->0,
            );
        }
        let text = render_toml(&doc);
        Ok((added, text))
    }

    /// Adds a plugin, given as `plugin.id:version`, to the document. The
    /// entry is named by `alias_override`, or else by the alias made of
    /// the identifier, and takes its version from the alias
    /// `version_alias_override`, or else the one made of the
    /// identifier, which is set to the version.
    ///
    /// The request is refused, and the document left as it was, where
    /// the coordinate cannot be read, the document has not the form of a
    /// catalog, the name of the entry is taken, the plugin is there
    /// already, or the version alias is there and is no string.
    pub fn add_plugin(
        &self,
        doc: &mut toml_edit::DocumentMut,
        coordinate: &str,
        alias_override: Option<&str>,
        version_alias_override: Option<&str>,
    ) -> (r: Result<AddResult, GvcError>)
        ensures
            ({
                let before = document_node(*old(doc));
                let request = plugin_addition(
                    coordinate@,
                    given_name(alias_override),
                    given_name(version_alias_override),
                );
                match refusal(before, request) {
                    Some(invalid) => r is Err && refused_as(r->Err_0, invalid) && document_node(
                        *final(doc),
                    ) == before,
                    None => r is Ok && added_as(r->Ok_0, request->0) && document_node(*final(doc))
                        == with_addition(before, request->0),
                }
            }),
    {
        let (plugin_id, version) = match parse_plugin_coordinate(coordinate) {
            Ok(parts) => parts,
            Err(e) => return Err(e),
        };
        let alias = match alias_override {
            Some(name) => sanitize_alias(name),
            None => generate_plugin_alias(plugin_id.as_str()),
        };
        let version_alias = match version_alias_override {
            Some(name) => sanitize_alias(name),
            None => generate_plugin_version_alias(plugin_id.as_str()),
        };
        let root = doc.as_item();
        if !root.is_table() || !section_is_usable(root, "versions") || !section_is_usable(
            root,
            "plugins",
        ) {
            return Err(GvcError::TomlParsing("Failed to access a table of the catalog".to_owned()));
        }
        if section_holds(root, "plugins", alias.as_str()) {
            return Err(
                GvcError::ProjectValidation("Plugin alias already exists in [plugins]".to_owned()),
            );
        }
        let known = match item_child(root, "plugins") {
            Some(plugins) => plugin_exists(plugins, plugin_id.as_str()),
            None => false,
        };
        if known {
            return Err(GvcError::ProjectValidation("Plugin already exists in [plugins]".to_owned()));
        }
        if section_holds_other(root, "versions", version_alias.as_str()) {
            return Err(
                GvcError::ProjectValidation(
                    "Version alias already exists but is not a string".to_owned(),
                ),
            );
        }
        write_addition(
            doc,
            "plugins",
            alias.as_str(),
            "id",
            plugin_id.as_str(),
            version_alias.as_str(),
            version.as_str(),
        );
        Ok(AddResult { alias, version_alias, target: AddTargetKind::Plugin })
    }
}

/// After an addition the document has a table at its root and holds
/// the new entry under its name; and where the section is not the
/// `[versions]` table, the alias holds the version.
pub proof fn lemma_addition_reads(document: TomlNode, a: Addition)
    requires
        well_formed_for(document, a.section),
    ensures
        with_addition(document, a) is Table,
        with_addition(document, a).child(a.section).child(a.alias) == reference_entry(
            a.field,
            a.named,
            a.version_alias,
        ),
        a.section != "versions"@ ==> with_addition(document, a).child("versions"@).child(
            a.version_alias,
        ) == TomlNode::Text(a.version),
{
    let first = with_table(document, "versions"@);
    let prepared = with_table(first, a.section);
    crate::document::lemma_with_child_reads(
        document,
        "versions"@,
        TomlNode::Table(Map::empty()),
        a.section,
    );
    crate::document::lemma_with_child_reads(first, a.section, TomlNode::Table(Map::empty()), "versions"@);
    let versions = prepared.child("versions"@).with_child(a.version_alias, TomlNode::Text(a.version));
    let versioned = with_entry(prepared, "versions"@, a.version_alias, TomlNode::Text(a.version));
    crate::document::lemma_with_child_reads(prepared, "versions"@, versions, a.section);
    crate::document::lemma_with_child_reads(
        prepared.child("versions"@),
        a.version_alias,
        TomlNode::Text(a.version),
        a.version_alias,
    );
    let entry = reference_entry(a.field, a.named, a.version_alias);
    let section = versioned.child(a.section).with_child(a.alias, entry);
    crate::document::lemma_with_child_reads(versioned, a.section, section, "versions"@);
    crate::document::lemma_with_child_reads(versioned.child(a.section), a.alias, entry, a.alias);
}

} // verus!
