//! The handler of the `[plugins]` section: plugins that state their
//! version themselves are checked against the plugin repository and
//! moved to the latest version.

use crate::document::{item_child, item_child_mut, item_node, table_keys, TomlNode};
use crate::error::GvcError;
use crate::interaction::{Prompter, UpdateInteraction};
use crate::report::{ChangeView, UpdateReport};
use crate::repository::{Coordinate, RepositoryClient, VersionStrategy};
use crate::section::{
    changes_justified, distinct_keys, lemma_change_noted, lemma_change_recorded,
    lemma_changes_frame, lemma_key_is_new, moved_by, moved_by_upgrades, names_among, plugin_id,
    plugin_version, states_version, with_changes, EntryForm,
};
use crate::text::texts;
use crate::toml_utils::child_text;
use crate::upgrade::find_upgrade;
use vstd::prelude::*;

verus! {

/// Reads the identifier and the version of a plugin entry: a table of
/// either form with an `id` string and a `version` string. A plugin that
/// takes its version from an alias states none.
pub fn plugin_details(item: &toml_edit::Item) -> (r: Option<(String, String)>)
    ensures
        match r {
            Some((id, version)) => {
                &&& plugin_id(item_node(*item)) == Some(id@)
                &&& plugin_version(item_node(*item)) == Some(version@)
            },
            None => plugin_version(item_node(*item)) is None,
        },
{
    if item.is_table() || item.is_inline_table() {
        let id = match child_text(item, "id") {
            Some(id) => id,
            None => return None,
        };
        match child_text(item, "version") {
            Some(version) => Some((id.to_owned(), version.to_owned())),
            None => None,
        }
    } else {
        None
    }
}

/// Checks the plugins of the catalog and moves them to their latest
/// versions.
pub struct PluginHandler<'a, C: RepositoryClient, S: VersionStrategy> {
    plugin_client: &'a C,
    version_strategy: &'a S,
}

impl<'a, C: RepositoryClient, S: VersionStrategy> PluginHandler<'a, C, S> {
    /// A handler that asks `plugin_client` for versions and
    /// `version_strategy` whether a version is an upgrade.
    pub fn new(plugin_client: &'a C, version_strategy: &'a S) -> (r: Self)
        ensures
            r.strategy() == version_strategy,
    {
        PluginHandler { plugin_client, version_strategy }
    }

    /// The strategy that this handler decides by.
    pub closed spec fn strategy(&self) -> &S {
        self.version_strategy
    }

    /// Looks for an upgrade of one plugin and hands back its current
    /// version and the version to move to. A plugin that states no
    /// version of its own is passed over without asking the repository.
    pub fn check_plugin_for_update(&self, plugin_value: &toml_edit::Item, stable_only: bool) -> (r:
        Result<Option<(String, String)>, GvcError>)
        ensures
            match r {
                Ok(Some((old_version, new_version))) => {
                    &&& plugin_version(item_node(*plugin_value)) == Some(old_version@)
                    &&& new_version@ != old_version@
                    &&& self.strategy().upgrades(old_version@, new_version@)
                },
                Ok(None) => true,
                Err(_) => plugin_version(item_node(*plugin_value)) is Some,
            },
    {
        let (id, current) = match plugin_details(plugin_value) {
            Some(details) => details,
            None => return Ok(None),
        };
        let coordinate = Coordinate::plugin(id.as_str());
        match find_upgrade(
            self.plugin_client,
            self.version_strategy,
            &coordinate,
            current.as_str(),
            stable_only,
        ) {
            Ok(Some(latest)) => Ok(Some((current, latest))),
            Ok(None) => Ok(None),
            Err(e) => Err(e),
        }
    }

    /// Looks for an upgrade of one plugin, has it confirmed and writes it
    /// into the `version` field of the entry. The entry changes only
    /// where a change is handed back.
    pub fn check_plugin_update<P: Prompter>(
        &self,
        interaction: &mut UpdateInteraction<P>,
        name: &str,
        plugin_value: &mut toml_edit::Item,
        stable_only: bool,
    ) -> (r: Result<Option<(String, String)>, GvcError>)
        ensures
            final(interaction).enabled() == old(interaction).enabled(),
            (*old(interaction)).leads_to(*final(interaction)),
            (*old(interaction)).stop_is_told(*final(interaction), r),
            !(r is Ok && r->Ok_0 is Some) ==> *final(plugin_value) == *old(plugin_value),
            match r {
                Ok(Some((old_version, new_version))) => {
                    &&& plugin_version(item_node(*old(plugin_value))) == Some(old_version@)
                    &&& new_version@ != old_version@
                    &&& self.strategy().upgrades(old_version@, new_version@)
                    &&& item_node(*final(plugin_value)) == item_node(*old(plugin_value)).with_child(
                        "version"@,
                        TomlNode::Text(new_version@),
                    )
                },
                Ok(None) => item_node(*final(plugin_value)) == item_node(*old(plugin_value)),
                Err(_) => {
                    &&& item_node(*final(plugin_value)) == item_node(*old(plugin_value))
                    &&& plugin_version(item_node(*old(plugin_value))) is Some
                },
            },
    {
        let (current, latest) = match self.check_plugin_for_update(plugin_value, stable_only) {
            Ok(Some(found)) => found,
            Ok(None) => return Ok(None),
            Err(e) => return Err(e),
        };
        match interaction.confirm_plugin(name, current.as_str(), latest.as_str()) {
            Ok(true) => {},
            Ok(false) => return Ok(None),
            Err(e) => return Err(e),
        }
        crate::toml_utils::set_field_text(plugin_value, "version", latest.as_str());
        Ok(Some((current, latest)))
    }

    /// Goes through the plugins of the section in the order of the
    /// document and moves each one that states its own version to the
    /// latest version, where that is an upgrade and is confirmed.
    ///
    /// The report names exactly the entries that were changed, each with
    /// the version it had and an upgrade of it, and the section
    /// afterwards is the section before with those changes. Where the
    /// run stops with an error, the section is the section before with
    /// the upgrades made up to then; a plugin that takes its version
    /// from an alias is never touched.
    pub fn update<P: Prompter>(
        &self,
        interaction: &mut UpdateInteraction<P>,
        plugins: &mut toml_edit::Item,
        stable_only: bool,
    ) -> (r: Result<UpdateReport, GvcError>)
        ensures
            final(interaction).enabled() == old(interaction).enabled(),
            (*old(interaction)).leads_to(*final(interaction)),
            (*old(interaction)).stop_is_told(*final(interaction), r),
            r is Ok && r->Ok_0@.is_empty() ==> *final(plugins) == *old(plugins),
            match r {
                Ok(report) => {
                    &&& report@.versions.len() == 0
                    &&& report@.libraries.len() == 0
                    &&& report@.wf()
                    &&& changes_justified(
                        EntryForm::Plugin,
                        self.strategy(),
                        item_node(*old(plugins)),
                        report@.plugins,
                    )
                    &&& item_node(*final(plugins)) == with_changes(
                        EntryForm::Plugin,
                        item_node(*old(plugins)),
                        report@.plugins,
                    )
                },
                Err(_) => {
                    &&& exists|key: Seq<char>| #[trigger]
                        states_version(EntryForm::Plugin, item_node(*old(plugins)), key)
                    &&& moved_by_upgrades(
                        EntryForm::Plugin,
                        self.strategy(),
                        item_node(*old(plugins)),
                        item_node(*final(plugins)),
                    )
                },
            },
    {
        let mut report = UpdateReport::new();
        let keys = table_keys(plugins);
        let ghost start = item_node(*plugins);
        let ghost names = texts(keys@);
        let mut i: usize = 0;
        while i < keys.len()
            invariant
                i <= keys.len(),
                names == texts(keys@),
                start == item_node(*old(plugins)),
                interaction.enabled() == old(interaction).enabled(),
                (*old(interaction)).leads_to(*interaction),
                interaction.cancelled() == old(interaction).cancelled(),
                report@.plugins.len() == 0 ==> *plugins == *old(plugins),
                distinct_keys(names),
                keys@.len() > 0 ==> start is Table,
                report@.versions.len() == 0,
                report@.libraries.len() == 0,
                report@.wf(),
                names_among(report@.plugins, names, i as int),
                changes_justified(EntryForm::Plugin, self.strategy(), start, report@.plugins),
                item_node(*plugins) == with_changes(EntryForm::Plugin, start, report@.plugins),
            decreases keys.len() - i,
        {
            let key = keys[i].as_str();
            let ghost changes = report@.plugins;
            proof {
                assert(names[i as int] == key@);
                lemma_key_is_new(changes, names, i as int);
                lemma_changes_frame(EntryForm::Plugin, start, changes, key@);
            }
            let outcome = match item_child_mut(plugins, key) {
                Some(plugin_value) => self.check_plugin_update(interaction, key, plugin_value, stable_only),
                None => Ok(None),
            };
            let found = match outcome {
                Ok(found) => found,
                Err(e) => {
                    assert(states_version(EntryForm::Plugin, start, key@));
                    assert(moved_by(
                        EntryForm::Plugin,
                        self.strategy(),
                        start,
                        changes,
                        item_node(*plugins),
                    ));
                    return Err(e);
                },
            };
            match found {
                Some((old_version, new_version)) => {
                    proof {
                        lemma_change_recorded(
                            EntryForm::Plugin,
                            self.strategy(),
                            start,
                            changes,
                            names,
                            i as int,
                            ChangeView {
                                name: key@,
                                old_version: old_version@,
                                new_version: new_version@,
                            },
                            item_node(*plugins),
                        );
                    }
                    report.add_plugin_update(keys[i].clone(), old_version, new_version);
                },
                None => {},
            }
            i += 1;
        }
        Ok(report)
    }

    /// Goes through the plugins of the section and reports the upgrades
    /// that are available, without changing anything and without asking.
    pub fn check(&self, plugins: &toml_edit::Item, stable_only: bool) -> (r: Result<
        UpdateReport,
        GvcError,
    >)
        ensures
            match r {
                Ok(report) => {
                    &&& report@.versions.len() == 0
                    &&& report@.libraries.len() == 0
                    &&& report@.wf()
                    &&& changes_justified(
                        EntryForm::Plugin,
                        self.strategy(),
                        item_node(*plugins),
                        report@.plugins,
                    )
                },
                Err(_) => exists|key: Seq<char>| #[trigger]
                    states_version(EntryForm::Plugin, item_node(*plugins), key),
            },
    {
        let mut report = UpdateReport::new();
        let keys = table_keys(plugins);
        let ghost start = item_node(*plugins);
        let ghost names = texts(keys@);
        let mut i: usize = 0;
        while i < keys.len()
            invariant
                i <= keys.len(),
                names == texts(keys@),
                start == item_node(*plugins),
                distinct_keys(names),
                keys@.len() > 0 ==> start is Table,
                report@.versions.len() == 0,
                report@.libraries.len() == 0,
                report@.wf(),
                names_among(report@.plugins, names, i as int),
                changes_justified(EntryForm::Plugin, self.strategy(), start, report@.plugins),
            decreases keys.len() - i,
        {
            let key = keys[i].as_str();
            let ghost changes = report@.plugins;
            proof {
                assert(names[i as int] == key@);
                lemma_key_is_new(changes, names, i as int);
            }
            let found = match item_child(plugins, key) {
                Some(plugin_value) => {
                    match self.check_plugin_for_update(plugin_value, stable_only) {
                        Ok(found) => found,
                        Err(e) => {
                            assert(states_version(EntryForm::Plugin, start, key@));
                            return Err(e);
                        },
                    }
                },
                None => None,
            };
            match found {
                Some((old_version, new_version)) => {
                    proof {
                        lemma_change_noted(
                            EntryForm::Plugin,
                            self.strategy(),
                            start,
                            changes,
                            names,
                            i as int,
                            ChangeView {
                                name: key@,
                                old_version: old_version@,
                                new_version: new_version@,
                            },
                        );
                    }
                    report.add_plugin_update(keys[i].clone(), old_version, new_version);
                },
                None => {},
            }
            i += 1;
        }
        Ok(report)
    }
}

} // verus!
