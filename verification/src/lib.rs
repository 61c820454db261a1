//! Keeps the version catalog of a Gradle project current.
//!
//! The crate holds the logic of the tool, verified with Verus: the
//! version model ([`version`]), the resolver over the package
//! repositories of a build ([`maven`], [`gradle`]), the model of the
//! catalog document and of its entries ([`document`], [`toml_utils`]),
//! the handlers that update the sections of a catalog
//! ([`version_handler`], [`library_handler`], [`plugin_handler`],
//! [`targeted_handler`], [`dependency_updater`]), the confirmation
//! protocol ([`interaction`]) and the matcher of entry names
//! ([`pattern`]).
//!
//! Reading and writing files, the network, the terminal and the
//! processes of the build tool and of source control are left to the
//! program around the crate. It reaches the crate through plain values
//! and through three traits whose answers the crate takes as they come:
//! [`repository::RepositoryClient`], [`maven::MetadataTransport`] and
//! [`interaction::Prompter`].
//!
//! What the crate takes on trust of the crates it calls, `toml_edit`,
//! `semver`, `regex` and `url`, is stated where the calls are made, in
//! functions marked `external_body` and in `assume_specification` items.

pub mod alias;
pub mod candidate;
pub mod catalog_editor;
pub mod context;
pub mod dependency_updater;
pub mod document;
pub mod error;
pub mod gradle;
pub mod interaction;
pub mod library_handler;
pub mod maven;
pub mod order;
pub mod pattern;
pub mod plugin_handler;
pub mod project;
pub mod report;
pub mod repository;
pub mod section;
pub mod targeted_handler;
pub mod text;
pub mod toml_parser;
pub mod toml_utils;
pub mod upgrade;
pub mod version;
pub mod version_handler;
pub mod workflow;
