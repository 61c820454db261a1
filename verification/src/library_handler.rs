//! The handler of the `[libraries]` section: libraries that state their
//! version themselves are checked against the repositories and moved to
//! the latest version.

use crate::document::{item_child, item_child_mut, item_node, table_keys};
use crate::error::GvcError;
use crate::interaction::{Prompter, UpdateInteraction};
use crate::report::{ChangeView, UpdateReport};
use crate::repository::{Coordinate, RepositoryClient, VersionStrategy};
use crate::section::{
    changes_justified, distinct_keys, lemma_change_recorded, lemma_changes_frame,
    lemma_key_is_new, moved_by, moved_by_upgrades, names_among, states_version, with_changes,
    EntryForm,
};
use crate::text::texts;
use crate::toml_utils::{library_with_version, stated_version, TomlUtils};
use crate::upgrade::find_upgrade;
use vstd::prelude::*;

verus! {

/// Checks the libraries of the catalog and moves them to their latest
/// versions.
pub struct LibraryHandler<'a, C: RepositoryClient, S: VersionStrategy> {
    library_client: &'a C,
    version_strategy: &'a S,
}

impl<'a, C: RepositoryClient, S: VersionStrategy> LibraryHandler<'a, C, S> {
    /// A handler that asks `library_client` for versions and
    /// `version_strategy` whether a version is an upgrade.
    pub fn new(library_client: &'a C, version_strategy: &'a S) -> (r: Self)
        ensures
            r.strategy() == version_strategy,
    {
        LibraryHandler { library_client, version_strategy }
    }

    /// The strategy that this handler decides by.
    pub closed spec fn strategy(&self) -> &S {
        self.version_strategy
    }

    /// Looks for an upgrade of one library and hands back its current
    /// version and the version to move to. A library that states no
    /// version of its own, because it takes it from an alias or has a
    /// shape that is not understood, is passed over without asking the
    /// repositories.
    pub fn check_library_for_update(&self, lib_value: &toml_edit::Item, stable_only: bool) -> (r:
        Result<Option<(String, String)>, GvcError>)
        ensures
            match r {
                Ok(Some((old_version, new_version))) => {
                    &&& stated_version(item_node(*lib_value)) == Some(old_version@)
                    &&& new_version@ != old_version@
                    &&& self.strategy().upgrades(old_version@, new_version@)
                },
                Ok(None) => true,
                Err(_) => stated_version(item_node(*lib_value)) is Some,
            },
    {
        let details = match TomlUtils::extract_library_details(lib_value) {
            Some(details) => details,
            None => return Ok(None),
        };
        let current = match details.version {
            Some(version) => version,
            None => return Ok(None),
        };
        let coordinate = Coordinate::new(details.group.as_str(), details.artifact.as_str());
        match find_upgrade(
            self.library_client,
            self.version_strategy,
            &coordinate,
            current.as_str(),
            stable_only,
        ) {
            Ok(Some(latest)) => Ok(Some((current, latest))),
            Ok(None) => Ok(None),
            Err(e) => Err(e),
        }
    }

    /// Looks for an upgrade of one library, has it confirmed and writes
    /// it into the entry, which keeps its shape. The entry changes only
    /// where a change is handed back.
    pub fn check_library_update<P: Prompter>(
        &self,
        interaction: &mut UpdateInteraction<P>,
        name: &str,
        lib_value: &mut toml_edit::Item,
        stable_only: bool,
    ) -> (r: Result<Option<(String, String)>, GvcError>)
        ensures
            final(interaction).enabled() == old(interaction).enabled(),
            (*old(interaction)).leads_to(*final(interaction)),
            (*old(interaction)).stop_is_told(*final(interaction), r),
            !(r is Ok && r->Ok_0 is Some) ==> *final(lib_value) == *old(lib_value),
            match r {
                Ok(Some((old_version, new_version))) => {
                    &&& stated_version(item_node(*old(lib_value))) == Some(old_version@)
                    &&& new_version@ != old_version@
                    &&& self.strategy().upgrades(old_version@, new_version@)
                    &&& library_with_version(item_node(*old(lib_value)), new_version@) == Some(
                        item_node(*final(lib_value)),
                    )
                },
                Ok(None) => item_node(*final(lib_value)) == item_node(*old(lib_value)),
                Err(_) => {
                    &&& item_node(*final(lib_value)) == item_node(*old(lib_value))
                    &&& stated_version(item_node(*old(lib_value))) is Some
                },
            },
    {
        let (current, latest) = match self.check_library_for_update(lib_value, stable_only) {
            Ok(Some(found)) => found,
            Ok(None) => return Ok(None),
            Err(e) => return Err(e),
        };
        match interaction.confirm_library(name, current.as_str(), latest.as_str()) {
            Ok(true) => {},
            Ok(false) => return Ok(None),
            Err(e) => return Err(e),
        }
        match TomlUtils::update_version(lib_value, latest.as_str()) {
            Ok(_) => Ok(Some((current, latest))),
            Err(e) => Err(e),
        }
    }

    /// Goes through the libraries of the section in the order of the
    /// document and moves each one that states its own version to the
    /// latest version, where that is an upgrade and is confirmed.
    ///
    /// The report names exactly the entries that were changed, each with
    /// the version it had and an upgrade of it, and the section
    /// afterwards is the section before with those changes. A section
    /// without a library that states its version gives an empty report
    /// and no error. Where the run stops with an error, the section is
    /// the section before with the upgrades made up to then; a library
    /// that takes its version from an alias is never touched.
    pub fn update<P: Prompter>(
        &self,
        interaction: &mut UpdateInteraction<P>,
        libraries: &mut toml_edit::Item,
        stable_only: bool,
    ) -> (r: Result<UpdateReport, GvcError>)
        ensures
            final(interaction).enabled() == old(interaction).enabled(),
            (*old(interaction)).leads_to(*final(interaction)),
            (*old(interaction)).stop_is_told(*final(interaction), r),
            r is Ok && r->Ok_0@.is_empty() ==> *final(libraries) == *old(libraries),
            match r {
                Ok(report) => {
                    &&& report@.versions.len() == 0
                    &&& report@.plugins.len() == 0
                    &&& report@.wf()
                    &&& changes_justified(
                        EntryForm::Library,
                        self.strategy(),
                        item_node(*old(libraries)),
                        report@.libraries,
                    )
                    &&& item_node(*final(libraries)) == with_changes(
                        EntryForm::Library,
                        item_node(*old(libraries)),
                        report@.libraries,
                    )
                },
                Err(_) => {
                    &&& exists|key: Seq<char>| #[trigger]
                        states_version(EntryForm::Library, item_node(*old(libraries)), key)
                    &&& moved_by_upgrades(
                        EntryForm::Library,
                        self.strategy(),
                        item_node(*old(libraries)),
                        item_node(*final(libraries)),
                    )
                },
            },
    {
        let mut report = UpdateReport::new();
        let keys = table_keys(libraries);
        let ghost start = item_node(*libraries);
        let ghost names = texts(keys@);
        let mut i: usize = 0;
        while i < keys.len()
            invariant
                i <= keys.len(),
                names == texts(keys@),
                start == item_node(*old(libraries)),
                interaction.enabled() == old(interaction).enabled(),
                (*old(interaction)).leads_to(*interaction),
                interaction.cancelled() == old(interaction).cancelled(),
                report@.libraries.len() == 0 ==> *libraries == *old(libraries),
                distinct_keys(names),
                keys@.len() > 0 ==> start is Table,
                report@.versions.len() == 0,
                report@.plugins.len() == 0,
                report@.wf(),
                names_among(report@.libraries, names, i as int),
                changes_justified(EntryForm::Library, self.strategy(), start, report@.libraries),
                item_node(*libraries) == with_changes(EntryForm::Library, start, report@.libraries),
            decreases keys.len() - i,
        {
            let key = keys[i].as_str();
            let ghost changes = report@.libraries;
            proof {
                assert(names[i as int] == key@);
                lemma_key_is_new(changes, names, i as int);
                lemma_changes_frame(EntryForm::Library, start, changes, key@);
            }
            let outcome = match item_child_mut(libraries, key) {
                Some(lib_value) => self.check_library_update(interaction, key, lib_value, stable_only),
                None => Ok(None),
            };
            let found = match outcome {
                Ok(found) => found,
                Err(e) => {
                    assert(states_version(EntryForm::Library, start, key@));
                    assert(moved_by(
                        EntryForm::Library,
                        self.strategy(),
                        start,
                        changes,
                        item_node(*libraries),
                    ));
                    return Err(e);
                },
            };
            match found {
                Some((old_version, new_version)) => {
                    proof {
                        lemma_change_recorded(
                            EntryForm::Library,
                            self.strategy(),
                            start,
                            changes,
                            names,
                            i as int,
                            ChangeView {
                                name: key@,
                                old_version: old_version@,
                                new_version: new_version@,
                            },
                            item_node(*libraries),
                        );
                    }
                    report.add_library_update(keys[i].clone(), old_version, new_version);
                },
                None => {},
            }
            i += 1;
        }
        Ok(report)
    }

    /// Goes through the libraries of the section and reports the upgrades
    /// that are available, without changing anything and without asking.
    pub fn check(&self, libraries: &toml_edit::Item, stable_only: bool) -> (r: Result<
        UpdateReport,
        GvcError,
    >)
        ensures
            match r {
                Ok(report) => {
                    &&& report@.versions.len() == 0
                    &&& report@.plugins.len() == 0
                    &&& report@.wf()
                    &&& changes_justified(
                        EntryForm::Library,
                        self.strategy(),
                        item_node(*libraries),
                        report@.libraries,
                    )
                },
                Err(_) => exists|key: Seq<char>| #[trigger]
                    states_version(EntryForm::Library, item_node(*libraries), key),
            },
    {
        let mut report = UpdateReport::new();
        let keys = table_keys(libraries);
        let ghost start = item_node(*libraries);
        let ghost names = texts(keys@);
        let mut i: usize = 0;
        while i < keys.len()
            invariant
                i <= keys.len(),
                names == texts(keys@),
                start == item_node(*libraries),
                distinct_keys(names),
                keys@.len() > 0 ==> start is Table,
                report@.versions.len() == 0,
                report@.plugins.len() == 0,
                report@.wf(),
                names_among(report@.libraries, names, i as int),
                changes_justified(EntryForm::Library, self.strategy(), start, report@.libraries),
            decreases keys.len() - i,
        {
            let key = keys[i].as_str();
            let ghost changes = report@.libraries;
            proof {
                assert(names[i as int] == key@);
                lemma_key_is_new(changes, names, i as int);
            }
            let found = match item_child(libraries, key) {
                Some(lib_value) => {
                    match self.check_library_for_update(lib_value, stable_only) {
                        Ok(found) => found,
                        Err(e) => {
                            assert(states_version(EntryForm::Library, start, key@));
                            return Err(e);
                        },
                    }
                },
                None => None,
            };
            match found {
                Some((old_version, new_version)) => {
                    proof {
                        let change = ChangeView {
                            name: key@,
                            old_version: old_version@,
                            new_version: new_version@,
                        };
                        crate::section::lemma_change_noted(
                            EntryForm::Library,
                            self.strategy(),
                            start,
                            changes,
                            names,
                            i as int,
                            change,
                        );
                    }
                    report.add_library_update(keys[i].clone(), old_version, new_version);
                },
                None => {},
            }
            i += 1;
        }
        Ok(report)
    }
}

} // verus!
