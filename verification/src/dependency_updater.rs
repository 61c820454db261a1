//! The update of a whole catalog: the aliases first, through the
//! libraries that refer to them, then the libraries and the plugins that
//! state their own versions.

use crate::context::load_document;
use crate::document::{
    copy_document, document_node, item_child, item_child_mut, item_node, lemma_with_child_reads,
    parsed_toml, render_toml, rendered_toml, TomlNode,
};
use crate::error::GvcError;
use crate::gradle::Repository;
use crate::interaction::{Prompter, UpdateInteraction};
use crate::candidate::CandidateView;
use crate::library_handler::LibraryHandler;
use crate::maven::{MavenRepository, MetadataTransport, PluginPortalClient, RepositoryFactory};
use crate::pattern::{pattern_regex, regex_matches, regex_valid};
use crate::plugin_handler::PluginHandler;
use crate::report::{ChangeView, ReportView, UpdateReport};
use crate::repository::{DefaultVersionStrategy, RepositoryClient, VersionStrategy};
use crate::section::{
    changes_justified, lemma_same_child, states_version, with_changes, EntryForm,
};
use crate::targeted_handler::{
    describes, lists_the_candidates, picks_an_entry, report_of, single_change, targeted_outcome,
    with_target_version, TargetedHandler,
};
use crate::text::trimmed;
use crate::version_handler::{alias_is_asked, all_referenced, VersionHandler};
use vstd::prelude::*;

verus! {

/// The document after a list of changes was applied to the entries of
/// one of its sections.
pub open spec fn with_section_changes(
    form: EntryForm,
    key: Seq<char>,
    document: TomlNode,
    changes: Seq<ChangeView>,
) -> TomlNode {
    if changes.len() == 0 {
        document
    } else {
        document.with_child(key, with_changes(form, document.child(key), changes))
    }
}

/// The document after the changes of a report were applied: those of
/// the aliases, then those of the libraries, then those of the plugins.
pub open spec fn with_report(document: TomlNode, report: ReportView) -> TomlNode {
    with_section_changes(
        EntryForm::Plugin,
        "plugins"@,
        with_section_changes(
            EntryForm::Library,
            "libraries"@,
            with_section_changes(EntryForm::Alias, "versions"@, document, report.versions),
            report.libraries,
        ),
        report.plugins,
    )
}

/// Whether each change of a report is justified by what the document
/// states: the entry had the old version, the new one differs and is an
/// upgrade by the strategy, and an alias that changes is referred to by a
/// library.
pub open spec fn report_justified<S: VersionStrategy>(strategy: &S, document: TomlNode, report: ReportView) -> bool {
    &&& report.wf()
    &&& changes_justified(EntryForm::Alias, strategy, document.child("versions"@), report.versions)
    &&& all_referenced(document.child("libraries"@), report.versions)
    &&& changes_justified(EntryForm::Library, strategy, document.child("libraries"@), report.libraries)
    &&& changes_justified(EntryForm::Plugin, strategy, document.child("plugins"@), report.plugins)
}

/// The three section names are different names.
pub proof fn lemma_section_names()
    ensures
        "versions"@ != "libraries"@,
        "versions"@ != "plugins"@,
        "libraries"@ != "plugins"@,
{
    reveal_strlit("versions");
    reveal_strlit("libraries");
    reveal_strlit("plugins");
    assert("versions"@.len() == 8);
    assert("libraries"@.len() == 9);
    assert("plugins"@.len() == 7);
}

/// Applying changes to one section leaves the other sections as they
/// are.
pub proof fn lemma_section_changes_frame(
    form: EntryForm,
    key: Seq<char>,
    document: TomlNode,
    changes: Seq<ChangeView>,
    other: Seq<char>,
)
    requires
        other != key,
    ensures
        with_section_changes(form, key, document, changes).child(other) == document.child(other),
{
    if changes.len() > 0 && document.is_table_like() {
        lemma_with_child_reads(
            document,
            key,
            with_changes(form, document.child(key), changes),
            other,
        );
    }
}

/// The report of a result that comes with a text to write.
pub open spec fn told_by(r: Result<(UpdateReport, Option<String>), GvcError>) -> Result<
    ReportView,
    GvcError,
> {
    match r {
        Ok((report, _)) => Ok(report@),
        Err(e) => Err(e),
    }
}

/// Whether the repositories are asked about anything in a catalog: an
/// alias that a library stands for, a library that states its version,
/// or a plugin that states its version. A catalog without any such entry
/// is checked and updated without an outside call, and so without an
/// error.
pub open spec fn asks_repositories(document: TomlNode) -> bool {
    ||| exists|alias: Seq<char>| #[trigger] alias_is_asked(document, alias)
    ||| exists|key: Seq<char>| #[trigger]
        states_version(EntryForm::Library, document.child("libraries"@), key)
    ||| exists|key: Seq<char>| #[trigger]
        states_version(EntryForm::Plugin, document.child("plugins"@), key)
}

/// Updates the catalog of a project.
pub struct DependencyUpdater<C: RepositoryClient, D: RepositoryClient, S: VersionStrategy> {
    library_client: C,
    plugin_client: D,
    version_strategy: S,
}

impl<T: MetadataTransport, U: MetadataTransport> DependencyUpdater<
    MavenRepository<T>,
    PluginPortalClient<U>,
    DefaultVersionStrategy,
> {
    /// An updater that asks the given repositories for libraries and the
    /// Gradle plugin portal for plugins, and that takes the newer
    /// version for an upgrade. It is refused where the URL of a
    /// repository is not accepted.
    pub fn with_repositories(
        library_transport: T,
        plugin_transport: U,
        repositories: Vec<Repository>,
    ) -> (r: Result<Self, GvcError>)
        ensures
            ({
                let used = if repositories@.len() == 0 {
                    crate::gradle::default_repository_views()
                } else {
                    crate::gradle::repository_views(repositories@)
                };
                r is Ok <==> crate::maven::all_accepted(used)
            }),
            r is Err ==> r->Err_0 is ProjectValidation,
    {
        let library_client = match RepositoryFactory::create_maven(library_transport, repositories) {
            Ok(client) => client,
            Err(e) => return Err(e),
        };
        let plugin_client = match RepositoryFactory::create_plugin_portal(plugin_transport) {
            Ok(client) => client,
            Err(e) => return Err(e),
        };
        Self::with_clients(library_client, plugin_client, DefaultVersionStrategy::shared())
    }
}

impl<C: RepositoryClient, D: RepositoryClient, S: VersionStrategy> DependencyUpdater<C, D, S> {
    /// An updater that asks the given clients and decides by the given
    /// strategy.
    pub fn with_clients(library_client: C, plugin_client: D, version_strategy: S) -> (r: Result<
        Self,
        GvcError,
    >)
        ensures
            r is Ok,
            r->Ok_0.strategy() == version_strategy,
    {
        Ok(DependencyUpdater { library_client, plugin_client, version_strategy })
    }

    /// The strategy that this updater decides by.
    pub closed spec fn strategy(&self) -> S {
        self.version_strategy
    }

    /// Reports the upgrades that are available for the aliases, the
    /// libraries and the plugins of a catalog, without changing it. An
    /// error is one of a repository, and so there is none for a catalog
    /// in which nothing is asked about.
    pub fn check_for_updates(&self, doc: &toml_edit::DocumentMut, stable_only: bool) -> (r: Result<
        UpdateReport,
        GvcError,
    >)
        ensures
            match r {
                Ok(report) => report_justified(&self.strategy(), document_node(*doc), report@),
                Err(_) => asks_repositories(document_node(*doc)),
            },
    {
        let versions = VersionHandler::new(&self.library_client, &self.version_strategy);
        let aliases = match versions.check(doc, stable_only) {
            Ok(report) => report,
            Err(e) => return Err(e),
        };
        let root = doc.as_item();
        let libraries = match item_child(root, "libraries") {
            Some(section) => {
                let handler = LibraryHandler::new(&self.library_client, &self.version_strategy);
                match handler.check(section, stable_only) {
                    Ok(report) => report,
                    Err(e) => return Err(e),
                }
            },
            None => UpdateReport::new(),
        };
        let plugins = match item_child(root, "plugins") {
            Some(section) => {
                let handler = PluginHandler::new(&self.plugin_client, &self.version_strategy);
                match handler.check(section, stable_only) {
                    Ok(report) => report,
                    Err(e) => return Err(e),
                }
            },
            None => UpdateReport::new(),
        };
        Ok(
            UpdateReport {
                version_updates: aliases.version_updates,
                library_updates: libraries.library_updates,
                plugin_updates: plugins.plugin_updates,
            },
        )
    }

    /// Updates the catalog: the aliases, then the libraries, then the
    /// plugins. Each change is confirmed where the run is interactive.
    ///
    /// The report names exactly what was changed, each change is
    /// justified by what the document stated before, and the document
    /// afterwards is the document before with the changes of the
    /// report. An error, and so a user who stops the run, leaves the
    /// document as it was; there is none for a catalog in which nothing
    /// is asked about. An acceptance of all remaining changes is kept.
    pub fn update_version_catalog<P: Prompter>(
        &self,
        interaction: &mut UpdateInteraction<P>,
        doc: &mut toml_edit::DocumentMut,
        stable_only: bool,
    ) -> (r: Result<UpdateReport, GvcError>)
        ensures
            final(interaction).enabled() == old(interaction).enabled(),
            (*old(interaction)).leads_to(*final(interaction)),
            (*old(interaction)).stop_is_told(*final(interaction), r),
            match r {
                Ok(report) => {
                    &&& report_justified(&self.strategy(), document_node(*old(doc)), report@)
                    &&& document_node(*final(doc)) == with_report(document_node(*old(doc)), report@)
                },
                Err(_) => {
                    &&& *final(doc) == *old(doc)
                    &&& asks_repositories(document_node(*old(doc)))
                },
            },
            r is Ok && r->Ok_0@.is_empty() ==> *final(doc) == *old(doc),
    {
        let untouched = copy_document(doc);
        match self.update_sections(interaction, doc, stable_only) {
            Ok(report) => Ok(report),
            Err(e) => {
                *doc = untouched;
                Err(e)
            },
        }
    }

    /// Updates the three sections one after the other. Where it stops
    /// with an error, the sections before may have been changed.
    fn update_sections<P: Prompter>(
        &self,
        interaction: &mut UpdateInteraction<P>,
        doc: &mut toml_edit::DocumentMut,
        stable_only: bool,
    ) -> (r: Result<UpdateReport, GvcError>)
        ensures
            final(interaction).enabled() == old(interaction).enabled(),
            (*old(interaction)).leads_to(*final(interaction)),
            (*old(interaction)).stop_is_told(*final(interaction), r),
            match r {
                Ok(report) => {
                    &&& report_justified(&self.strategy(), document_node(*old(doc)), report@)
                    &&& document_node(*final(doc)) == with_report(document_node(*old(doc)), report@)
                },
                Err(_) => asks_repositories(document_node(*old(doc))),
            },
            r is Ok && r->Ok_0@.is_empty() ==> *final(doc) == *old(doc),
    {
        let ghost start = document_node(*doc);
        proof {
            lemma_section_names();
        }
        let versions = VersionHandler::new(&self.library_client, &self.version_strategy);
        let aliases = match versions.update(interaction, doc, stable_only) {
            Ok(report) => report,
            Err(e) => return Err(e),
        };
        let ghost first = document_node(*doc);
        proof {
            assert(first == with_section_changes(EntryForm::Alias, "versions"@, start, aliases@.versions));
            lemma_section_changes_frame(
                EntryForm::Alias,
                "versions"@,
                start,
                aliases@.versions,
                "libraries"@,
            );
            lemma_section_changes_frame(
                EntryForm::Alias,
                "versions"@,
                start,
                aliases@.versions,
                "plugins"@,
            );
        }
        let libraries = {
            let root = doc.as_item_mut();
            match item_child_mut(root, "libraries") {
                Some(section) => {
                    let handler = LibraryHandler::new(&self.library_client, &self.version_strategy);
                    let ghost before = item_node(*section);
                    match handler.update(interaction, section, stable_only) {
                        Ok(report) => {
                            proof {
                                if item_node(*section) == before && report@.libraries.len() > 0 {
                                    lemma_same_child(first, "libraries"@);
                                }
                            }
                            report
                        },
                        Err(e) => return Err(e),
                    }
                },
                None => UpdateReport::new(),
            }
        };
        let ghost second = document_node(*doc);
        proof {
            assert(second == with_section_changes(
                EntryForm::Library,
                "libraries"@,
                first,
                libraries@.libraries,
            ));
            lemma_section_changes_frame(
                EntryForm::Library,
                "libraries"@,
                first,
                libraries@.libraries,
                "plugins"@,
            );
        }
        let plugins = {
            let root = doc.as_item_mut();
            match item_child_mut(root, "plugins") {
                Some(section) => {
                    let handler = PluginHandler::new(&self.plugin_client, &self.version_strategy);
                    let ghost before = item_node(*section);
                    match handler.update(interaction, section, stable_only) {
                        Ok(report) => {
                            proof {
                                if item_node(*section) == before && report@.plugins.len() > 0 {
                                    lemma_same_child(second, "plugins"@);
                                }
                            }
                            report
                        },
                        Err(e) => return Err(e),
                    }
                },
                None => UpdateReport::new(),
            }
        };
        proof {
            assert(document_node(*doc) == with_section_changes(
                EntryForm::Plugin,
                "plugins"@,
                second,
                plugins@.plugins,
            ));
        }
        Ok(
            UpdateReport {
                version_updates: aliases.version_updates,
                library_updates: libraries.library_updates,
                plugin_updates: plugins.plugin_updates,
            },
        )
    }

    /// Updates one entry of the catalog whose name matches the pattern;
    /// see [`TargetedHandler::update`]. The report is empty and the
    /// document unchanged, or the report holds one change and the
    /// document is the document before with that change. An error, and
    /// so a user who stops the run, leaves the document as it was.
    pub fn update_targeted_dependency<P: Prompter>(
        &self,
        interaction: &mut UpdateInteraction<P>,
        doc: &mut toml_edit::DocumentMut,
        stable_only: bool,
        pattern: &str,
    ) -> (r: Result<UpdateReport, GvcError>)
        ensures
            final(interaction).enabled() == old(interaction).enabled(),
            (*old(interaction)).leads_to(*final(interaction)),
            (*old(interaction)).stop_is_told(*final(interaction), r),
            trimmed(pattern@).len() == 0 || !regex_valid(pattern_regex(pattern@)) ==> r is Err
                && r->Err_0 is ProjectValidation,
            r is Err ==> trimmed(pattern@).len() == 0 || !regex_valid(pattern_regex(pattern@))
                || picks_an_entry(document_node(*old(doc)), pattern_regex(pattern@)),
            !(trimmed(pattern@).len() == 0 || !regex_valid(pattern_regex(pattern@))) ==> exists|
                list: Seq<CandidateView>,
            |
                lists_the_candidates(document_node(*old(doc)), pattern_regex(pattern@), list)
                    && #[trigger] targeted_outcome(
                    &self.strategy(),
                    *old(interaction),
                    *final(interaction),
                    document_node(*old(doc)),
                    list,
                    stable_only,
                    report_of(r),
                    document_node(*final(doc)),
                ),
            match r {
                Ok(report) => {
                    ||| report@.is_empty() && document_node(*final(doc)) == document_node(*old(doc))
                    ||| exists|c: CandidateView, version: Seq<char>|
                        {
                            &&& regex_matches(pattern_regex(pattern@), c.name)
                            &&& describes(document_node(*old(doc)), c)
                            &&& version != c.current_version
                            &&& self.strategy().upgrades(c.current_version, version)
                            &&& report@ == single_change(c, version)
                            &&& with_target_version(document_node(*old(doc)), c, version) == Some(
                                document_node(*final(doc)),
                            )
                        }
                },
                Err(_) => *final(doc) == *old(doc),
            },
            r is Ok && r->Ok_0@.is_empty() ==> *final(doc) == *old(doc),
    {
        let handler = TargetedHandler::new(
            &self.library_client,
            &self.plugin_client,
            &self.version_strategy,
        );
        let ghost start = document_node(*doc);
        let r = handler.update(interaction, doc, stable_only, pattern);
        proof {
            if !(trimmed(pattern@).len() == 0 || !regex_valid(pattern_regex(pattern@))) {
                let list = choose|list: Seq<CandidateView>|
                    lists_the_candidates(start, pattern_regex(pattern@), list)
                        && #[trigger] targeted_outcome(
                        handler.strategy(),
                        *old(interaction),
                        *interaction,
                        start,
                        list,
                        stable_only,
                        report_of(r),
                        document_node(*doc),
                    );
                assert(targeted_outcome(
                    &self.strategy(),
                    *old(interaction),
                    *interaction,
                    start,
                    list,
                    stable_only,
                    report_of(r),
                    document_node(*doc),
                ));
            }
        }
        r
    }

    /// Updates one entry of the catalog given by its text, the entry being
    /// picked by a pattern, and hands back the report with the text to
    /// write. There is a text to write exactly when something was
    /// changed: it is the text of the document with the one change of the
    /// report. An error, and so a user who stops the run, gives nothing
    /// to write.
    pub fn update_targeted_text<P: Prompter>(
        &self,
        interaction: &mut UpdateInteraction<P>,
        content: &str,
        stable_only: bool,
        pattern: &str,
    ) -> (r: Result<(UpdateReport, Option<String>), GvcError>)
        ensures
            final(interaction).enabled() == old(interaction).enabled(),
            (*old(interaction)).leads_to(*final(interaction)),
            (*old(interaction)).stop_is_told(*final(interaction), r),
            r is Err ==> parsed_toml(content@) is None || trimmed(pattern@).len() == 0 || !regex_valid(
                pattern_regex(pattern@),
            ) || picks_an_entry(parsed_toml(content@)->0, pattern_regex(pattern@)),
            parsed_toml(content@) is None ==> r is Err && r->Err_0 is TomlParsing,
            parsed_toml(content@) is Some && !(trimmed(pattern@).len() == 0 || !regex_valid(
                pattern_regex(pattern@),
            )) ==> exists|list: Seq<CandidateView>, after: TomlNode|
                lists_the_candidates(parsed_toml(content@)->0, pattern_regex(pattern@), list)
                    && #[trigger] targeted_outcome(
                    &self.strategy(),
                    *old(interaction),
                    *final(interaction),
                    parsed_toml(content@)->0,
                    list,
                    stable_only,
                    told_by(r),
                    after,
                ),
            match r {
                Ok((report, text)) => {
                    &&& parsed_toml(content@) is Some
                    &&& text is Some <==> !report@.is_empty()
                    &&& text is Some ==> exists|
                        c: CandidateView,
                        version: Seq<char>,
                        doc: toml_edit::DocumentMut,
                    |
                        {
                            &&& regex_matches(pattern_regex(pattern@), c.name)
                            &&& describes(parsed_toml(content@)->0, c)
                            &&& version != c.current_version
                            &&& self.strategy().upgrades(c.current_version, version)
                            &&& report@ == single_change(c, version)
                            &&& with_target_version(parsed_toml(content@)->0, c, version) == Some(
                                document_node(doc),
                            )
                            &&& text->0@ == rendered_toml(doc)
                        }
                },
                Err(_) => true,
            },
            parsed_toml(content@) is Some && (trimmed(pattern@).len() == 0 || !regex_valid(
                pattern_regex(pattern@),
            )) ==> r is Err && r->Err_0 is ProjectValidation,
    {
        let mut doc = match load_document(content) {
            Ok(doc) => doc,
            Err(e) => return Err(e),
        };
        let ghost start = document_node(doc);
        let handler = TargetedHandler::new(
            &self.library_client,
            &self.plugin_client,
            &self.version_strategy,
        );
        let updated = handler.update(interaction, &mut doc, stable_only, pattern);
        let ghost after = document_node(doc);
        let ghost told = report_of(updated);
        let ghost list = choose|list: Seq<CandidateView>|
            lists_the_candidates(start, pattern_regex(pattern@), list) && #[trigger] targeted_outcome(
                handler.strategy(),
                *old(interaction),
                *interaction,
                start,
                list,
                stable_only,
                told,
                after,
            );
        proof {
            if !(trimmed(pattern@).len() == 0 || !regex_valid(pattern_regex(pattern@))) {
                assert(targeted_outcome(
                    &self.strategy(),
                    *old(interaction),
                    *interaction,
                    start,
                    list,
                    stable_only,
                    told,
                    after,
                ));
            }
        }
        let report = match updated {
            Ok(report) => report,
            Err(e) => {
                assert(told_by(Err::<(UpdateReport, Option<String>), GvcError>(e)) == told);
                assert(!(trimmed(pattern@).len() == 0 || !regex_valid(pattern_regex(pattern@)))
                    ==> lists_the_candidates(parsed_toml(content@)->0, pattern_regex(pattern@), list)
                    && targeted_outcome(
                    &self.strategy(),
                    *old(interaction),
                    *interaction,
                    parsed_toml(content@)->0,
                    list,
                    stable_only,
                    told_by(Err::<(UpdateReport, Option<String>), GvcError>(e)),
                    after,
                ));
                return Err(e);
            },
        };
        if report.is_empty() {
            assert(told_by(Ok::<(UpdateReport, Option<String>), GvcError>((report, None))) == told);
            assert(!(trimmed(pattern@).len() == 0 || !regex_valid(pattern_regex(pattern@)))
                ==> lists_the_candidates(parsed_toml(content@)->0, pattern_regex(pattern@), list)
                && targeted_outcome(
                &self.strategy(),
                *old(interaction),
                *interaction,
                parsed_toml(content@)->0,
                list,
                stable_only,
                told_by(Ok::<(UpdateReport, Option<String>), GvcError>((report, None))),
                after,
            ));
            return Ok((report, None));
        }
        let ghost (c, version) = choose|c: CandidateView, version: Seq<char>|
            {
                &&& regex_matches(pattern_regex(pattern@), c.name)
                &&& describes(start, c)
                &&& version != c.current_version
                &&& self.strategy().upgrades(c.current_version, version)
                &&& report@ == single_change(c, version)
                &&& with_target_version(start, c, version) == Some(
                    document_node(doc),
                )
            };
        let text = render_toml(&doc);
        proof {
            assert(regex_matches(pattern_regex(pattern@), c.name) && describes(start, c) && version
                != c.current_version && self.strategy().upgrades(c.current_version, version)
                && report@ == single_change(c, version) && with_target_version(start, c, version)
                == Some(document_node(doc)) && text@ == rendered_toml(doc));
        }
        assert(told_by(Ok::<(UpdateReport, Option<String>), GvcError>((report, Some(text)))) == told);
        assert(!(trimmed(pattern@).len() == 0 || !regex_valid(pattern_regex(pattern@)))
            ==> lists_the_candidates(parsed_toml(content@)->0, pattern_regex(pattern@), list)
            && targeted_outcome(
            &self.strategy(),
            *old(interaction),
            *interaction,
            parsed_toml(content@)->0,
            list,
            stable_only,
            told_by(Ok::<(UpdateReport, Option<String>), GvcError>((report, Some(text)))),
            after,
        ));
        Ok((report, Some(text)))
    }

    /// Updates the catalog given by its text and hands back the report
    /// with the text to write. There is a text to write exactly when
    /// something was changed. An error, and so a user who stops the
    /// run, gives nothing to write.
    pub fn update_catalog_text<P: Prompter>(
        &self,
        interaction: &mut UpdateInteraction<P>,
        content: &str,
        stable_only: bool,
    ) -> (r: Result<(UpdateReport, Option<String>), GvcError>)
        ensures
            final(interaction).enabled() == old(interaction).enabled(),
            (*old(interaction)).leads_to(*final(interaction)),
            (*old(interaction)).stop_is_told(*final(interaction), r),
            r is Err ==> parsed_toml(content@) is None || asks_repositories(parsed_toml(content@)->0),
            parsed_toml(content@) is None ==> r is Err && r->Err_0 is TomlParsing,
            match r {
                Ok((report, text)) => {
                    &&& parsed_toml(content@) is Some
                    &&& report_justified(&self.strategy(), parsed_toml(content@)->0, report@)
                    &&& text is Some <==> !report@.is_empty()
                    &&& text is Some ==> exists|doc: toml_edit::DocumentMut|
                        document_node(doc) == with_report(parsed_toml(content@)->0, report@)
                            && text->0@ == rendered_toml(doc)
                },
                Err(_) => true,
            },
    {
        let mut doc = match load_document(content) {
            Ok(doc) => doc,
            Err(e) => return Err(e),
        };
        let ghost start = document_node(doc);
        let report = match self.update_version_catalog(interaction, &mut doc, stable_only) {
            Ok(report) => report,
            Err(e) => return Err(e),
        };
        if report.is_empty() {
            return Ok((report, None));
        }
        proof {
            lemma_report_keeps_table(start, report@);
        }
        let text = render_toml(&doc);
        Ok((report, Some(text)))
    }
}

/// Applying a report to a document with a table at its root gives a
/// document with a table at its root.
pub proof fn lemma_report_keeps_table(document: TomlNode, report: ReportView)
    requires
        document is Table,
    ensures
        with_report(document, report) is Table,
{
}

} // verus!
