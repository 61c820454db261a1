//! The setting of an update run, and the way from the text of a catalog
//! to a document and back.

use crate::document::{
    document_node, parse_toml, parsed_toml, render_toml, rendered_toml, toml_error_message,
};
use crate::error::GvcError;
use vstd::prelude::*;

verus! {

/// The kinds of update run.
#[derive(Debug, Clone, Copy, PartialEq, Eq, Structural)]
pub enum UpdateType {
    /// The `[versions]` section, through the libraries that refer to it.
    VersionsWithContext,
    /// The `[libraries]` section.
    Libraries,
    /// The `[plugins]` section.
    Plugins,
    /// One entry, picked by a pattern.
    Targeted,
    /// A check that changes nothing.
    Check,
}

/// The setting of an update run.
#[derive(Debug, Clone)]
pub struct UpdateContext {
    /// The path of the catalog.
    pub catalog_path: String,
    /// The kind of run.
    pub update_type: UpdateType,
    /// Whether only stable versions are considered.
    pub stable_only: bool,
    /// Whether the user is asked before a change is applied.
    pub interactive: bool,
}

impl UpdateContext {
    /// The setting of a run.
    pub fn new(catalog_path: &str, update_type: UpdateType, stable_only: bool, interactive: bool) -> (r:
        Self)
        ensures
            r.catalog_path@ == catalog_path@,
            r.update_type == update_type,
            r.stable_only == stable_only,
            r.interactive == interactive,
    {
        UpdateContext {
            catalog_path: catalog_path.to_owned(),
            update_type,
            stable_only,
            interactive,
        }
    }

    /// Reads the text of a catalog as a document. A text that is no TOML
    /// document is refused.
    pub fn load_document(&self, content: &str) -> (r: Result<toml_edit::DocumentMut, GvcError>)
        ensures
            match r {
                Ok(doc) => parsed_toml(content@) == Some(document_node(doc)) && document_node(doc)
                    is Table,
                Err(e) => e is TomlParsing && parsed_toml(content@) is None,
            },
    {
        load_document(content)
    }

    /// Writes a document out as text.
    pub fn save_document(&self, doc: &toml_edit::DocumentMut) -> (r: String)
        requires
            document_node(*doc) is Table,
        ensures
            r@ == rendered_toml(*doc),
    {
        render_toml(doc)
    }
}

/// Reads the text of a catalog as a document. A text that is no TOML
/// document is refused.
pub fn load_document(content: &str) -> (r: Result<toml_edit::DocumentMut, GvcError>)
    ensures
        match r {
            Ok(doc) => parsed_toml(content@) == Some(document_node(doc)) && document_node(doc) is Table,
            Err(e) => e is TomlParsing && parsed_toml(content@) is None,
        },
{
    match parse_toml(content) {
        Ok(doc) => Ok(doc),
        Err(e) => {
            let mut message = "Failed to parse TOML: ".to_owned();
            message.append(toml_error_message(&e).as_str());
            Err(GvcError::TomlParsing(message))
        },
    }
}

} // verus!
