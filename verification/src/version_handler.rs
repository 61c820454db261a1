//! The handler of the `[versions]` section.
//!
//! A version alias has no coordinate of its own. It is checked through
//! the first library of the catalog that takes its version from it; an
//! alias that no library refers to is never checked or changed. Changing
//! the alias changes the version of every entry that refers to it, and
//! the entries themselves stay as they are.

use crate::document::{
    document_node, item_child, item_child_mut, item_node, item_set_text, lemma_with_child_reads,
    table_key_order, table_keys, TomlNode,
};
use crate::error::GvcError;
use crate::interaction::{Prompter, UpdateInteraction};
use crate::report::{ChangeView, UpdateReport};
use crate::repository::{Coordinate, RepositoryClient, VersionStrategy};
use crate::section::{
    changes_justified, distinct_keys, lemma_change_noted, lemma_change_recorded,
    lemma_changes_frame, lemma_changes_keep_kind, lemma_key_is_new, lemma_same_child, names_among,
    states_version, with_changes, EntryForm,
};
use crate::text::{same_text, texts};
use crate::toml_utils::{group_artifact, optional_pair, version_reference, TomlUtils};
use crate::upgrade::find_upgrade;
use vstd::prelude::*;

verus! {

/// Whether the library under `key` stands for the alias: it takes its
/// version from the alias and its coordinate can be read.
pub open spec fn stands_for(libraries: TomlNode, key: Seq<char>, alias: Seq<char>) -> bool {
    version_reference(libraries.child(key)) == Some(alias) && group_artifact(libraries.child(key))
        is Some
}

/// The coordinate of the first library, in the given order of keys, that
/// stands for the alias.
pub open spec fn first_referencing(libraries: TomlNode, order: Seq<Seq<char>>, alias: Seq<char>) -> Option<
    (Seq<char>, Seq<char>),
>
    decreases order.len(),
{
    if order.len() == 0 {
        None
    } else if stands_for(libraries, order[0], alias) {
        group_artifact(libraries.child(order[0]))
    } else {
        first_referencing(libraries, order.skip(1), alias)
    }
}

/// Whether a library of the `[libraries]` table stands for the alias:
/// some library takes its version from the alias and tells its
/// coordinate.
pub open spec fn alias_referenced(libraries: TomlNode, alias: Seq<char>) -> bool {
    libraries is Table && exists|key: Seq<char>| #[trigger] stands_for(libraries, key, alias)
}

/// The first library that stands for an alias is one of the libraries
/// in the order, and none before it stands for the alias; where there is
/// none, no library of the order stands for the alias.
pub proof fn lemma_first_referencing(libraries: TomlNode, order: Seq<Seq<char>>, alias: Seq<char>)
    ensures
        first_referencing(libraries, order, alias) is Some ==> exists|i: int|
            0 <= i < order.len() && stands_for(libraries, #[trigger] order[i], alias)
                && first_referencing(libraries, order, alias) == group_artifact(
                libraries.child(order[i]),
            ) && forall|j: int| 0 <= j < i ==> !stands_for(libraries, #[trigger] order[j], alias),
        first_referencing(libraries, order, alias) is None ==> forall|i: int|
            0 <= i < order.len() ==> !stands_for(libraries, #[trigger] order[i], alias),
    decreases order.len(),
{
    if order.len() > 0 {
        if stands_for(libraries, order[0], alias) {
        } else {
            let rest = order.skip(1);
            lemma_first_referencing(libraries, rest, alias);
            if first_referencing(libraries, rest, alias) is Some {
                let i = choose|i: int|
                    0 <= i < rest.len() && stands_for(libraries, #[trigger] rest[i], alias)
                        && first_referencing(libraries, rest, alias) == group_artifact(
                        libraries.child(rest[i]),
                    ) && forall|j: int| 0 <= j < i ==> !stands_for(libraries, #[trigger] rest[j], alias);
                assert(rest[i] == order[i + 1]);
                assert forall|j: int| 0 <= j < i + 1 implies !stands_for(
                    libraries,
                    #[trigger] order[j],
                    alias,
                ) by {
                    if j > 0 {
                        assert(rest[j - 1] == order[j]);
                    }
                }
                assert(stands_for(libraries, order[i + 1], alias));
            } else {
                assert forall|i: int| 0 <= i < order.len() implies !stands_for(
                    libraries,
                    #[trigger] order[i],
                    alias,
                ) by {
                    if i > 0 {
                        assert(rest[i - 1] == order[i]);
                    }
                }
            }
        }
    }
}

/// Finds the library that an alias is checked through: the first one,
/// in the order of the document, that takes its version from the alias
/// and whose coordinate can be read. There is one exactly when a library
/// of the table stands for the alias.
pub fn find_representative_coordinate(libraries: &toml_edit::Item, version_key: &str) -> (r: Option<
    (String, String),
>)
    ensures
        optional_pair(r) == first_referencing(
            item_node(*libraries),
            table_key_order(*libraries),
            version_key@,
        ),
        r is Some <==> alias_referenced(item_node(*libraries), version_key@),
        r is Some ==> exists|key: Seq<char>|
            #[trigger] stands_for(item_node(*libraries), key, version_key@) && group_artifact(
                item_node(*libraries).child(key),
            ) == optional_pair(r),
{
    let keys = table_keys(libraries);
    let ghost order = table_key_order(*libraries);
    let ghost node = item_node(*libraries);
    let mut i: usize = 0;
    assert(order.skip(0) =~= order);
    while i < keys.len()
        invariant
            i <= keys.len(),
            order == texts(keys@),
            order == table_key_order(*libraries),
            node == item_node(*libraries),
            keys@.len() > 0 ==> node is Table,
            first_referencing(node, order, version_key@) == first_referencing(
                node,
                order.skip(i as int),
                version_key@,
            ),
        decreases keys.len() - i,
    {
        let key = keys[i].as_str();
        proof {
            assert(order.skip(i as int)[0] == key@);
            assert(order.skip(i as int).skip(1) =~= order.skip(i + 1));
        }
        if let Some(lib_value) = item_child(libraries, key) {
            if TomlUtils::uses_version_ref(lib_value, version_key) {
                if let Some(pair) = TomlUtils::extract_group_artifact(lib_value) {
                    assert(stands_for(node, key@, version_key@));
                    return Some(pair);
                }
            }
        }
        i += 1;
    }
    proof {
        lemma_first_referencing(node, order, version_key@);
        assert(order.skip(keys@.len() as int) =~= Seq::<Seq<char>>::empty());
        if alias_referenced(node, version_key@) {
            let key = choose|key: Seq<char>| #[trigger] stands_for(node, key, version_key@);
            assert(!(node.child(key) is Absent));
            assert(order.contains(key));
            let k = choose|k: int| 0 <= k < order.len() && order[k] == key;
            assert(!stands_for(node, order[k], version_key@));
        }
    }
    None
}

/// The document after the alias `name` was set to `version`.
pub open spec fn with_alias(document: TomlNode, name: Seq<char>, version: Seq<char>) -> TomlNode {
    document.with_child(
        "versions"@,
        document.child("versions"@).with_child(name, TomlNode::Text(version)),
    )
}

/// Whether the document has the alias `name` in a `[versions]` table.
pub open spec fn has_alias(document: TomlNode, name: Seq<char>) -> bool {
    document.child("versions"@) is Table && !(document.child("versions"@).child(name) is Absent)
}

/// Sets a version alias to a new value. The alias has to be there, in a
/// `[versions]` table; where it is not, the document is refused and left
/// as it is. An alias that has the value already is not touched, and
/// the document stays the value, and so the text, that it was.
pub fn apply_version_alias(doc: &mut toml_edit::DocumentMut, name: &str, new_version: &str) -> (r:
    Result<(), GvcError>)
    ensures
        has_alias(document_node(*old(doc)), name@) ==> r is Ok && document_node(*final(doc))
            == with_alias(document_node(*old(doc)), name@, new_version@),
        !has_alias(document_node(*old(doc)), name@) ==> r is Err && r->Err_0 is TomlParsing
            && document_node(*final(doc)) == document_node(*old(doc)),
        r is Err || document_node(*old(doc)).child("versions"@).child(name@) == TomlNode::Text(
            new_version@,
        ) ==> *final(doc) == *old(doc),
{
    let ghost before = document_node(*doc);
    let root = doc.as_item_mut();
    match item_child_mut(root, "versions") {
        Some(section) => {
            if !section.is_table() {
                return Err(GvcError::TomlParsing("Missing [versions] section".to_owned()));
            }
            let ghost versions = item_node(*section);
            match item_child_mut(section, name) {
                Some(entry) => {
                    if entry.is_none() {
                        return Err(GvcError::TomlParsing("Version alias not found".to_owned()));
                    }
                    let same = match entry.as_str() {
                        Some(current) => same_text(current, new_version),
                        None => false,
                    };
                    if !same {
                        item_set_text(entry, new_version);
                    }
                    proof {
                        lemma_same_child(versions, name@);
                        lemma_same_child(before, "versions"@);
                    }
                    Ok(())
                },
                None => Err(GvcError::TomlParsing("Version alias not found".to_owned())),
            }
        },
        None => Err(GvcError::TomlParsing("Missing [versions] section".to_owned())),
    }
}

/// The document after the changes of a list were applied to its
/// aliases. Nothing but the `[versions]` table changes.
pub open spec fn with_alias_changes(document: TomlNode, changes: Seq<ChangeView>) -> TomlNode {
    document.with_child(
        "versions"@,
        with_changes(EntryForm::Alias, document.child("versions"@), changes),
    )
}

/// Whether every alias that a list of changes names is referred to by a
/// library of the section.
pub open spec fn all_referenced(libraries: TomlNode, changes: Seq<ChangeView>) -> bool {
    forall|i: int| 0 <= i < changes.len() ==> alias_referenced(libraries, (#[trigger] changes[i]).name)
}

/// Changing aliases leaves every other section of the document as it
/// is: the libraries and plugins that refer to an alias still refer to
/// it, and the change is one of the alias alone.
pub proof fn lemma_alias_changes_leave_entries(
    document: TomlNode,
    changes: Seq<ChangeView>,
    section: Seq<char>,
)
    requires
        document.is_table_like(),
        section != "versions"@,
    ensures
        with_alias_changes(document, changes).child(section) == document.child(section),
{
    lemma_with_child_reads(
        document,
        "versions"@,
        with_changes(EntryForm::Alias, document.child("versions"@), changes),
        section,
    );
}

/// Setting one alias changes that alias to the new value and no other
/// alias.
pub proof fn lemma_alias_change_is_local(
    document: TomlNode,
    name: Seq<char>,
    version: Seq<char>,
    other: Seq<char>,
)
    requires
        document.is_table_like(),
        has_alias(document, name),
    ensures
        with_alias(document, name, version).child("versions"@).child(name) == TomlNode::Text(version),
        other != name ==> with_alias(document, name, version).child("versions"@).child(other)
            == document.child("versions"@).child(other),
{
    let versions = document.child("versions"@);
    lemma_with_child_reads(document, "versions"@, versions.with_child(name, TomlNode::Text(version)), name);
    lemma_with_child_reads(versions, name, TomlNode::Text(version), other);
}

/// Whether an alias is one that the repositories are asked about: it is
/// a string of the `[versions]` table, and a library of the
/// `[libraries]` table stands for it.
pub open spec fn alias_is_asked(document: TomlNode, alias: Seq<char>) -> bool {
    states_version(EntryForm::Alias, document.child("versions"@), alias) && alias_referenced(
        document.child("libraries"@),
        alias,
    )
}

/// Whether `after` is the document `before` with the changes of a list
/// applied to its aliases, each change justified by what `before` states
/// and each alias one that a library refers to.
pub open spec fn aliases_moved_by<S: VersionStrategy>(
    strategy: &S,
    before: TomlNode,
    changes: Seq<ChangeView>,
    after: TomlNode,
) -> bool {
    &&& changes_justified(EntryForm::Alias, strategy, before.child("versions"@), changes)
    &&& all_referenced(before.child("libraries"@), changes)
    &&& after == if changes.len() == 0 {
        before
    } else {
        with_alias_changes(before, changes)
    }
}

/// Whether `after` is the document `before` with nothing but upgrades of
/// aliases that libraries refer to. This is what the handler leaves
/// behind however it ends, also where it stops with an error.
pub open spec fn aliases_moved<S: VersionStrategy>(strategy: &S, before: TomlNode, after: TomlNode) -> bool {
    exists|changes: Seq<ChangeView>| #[trigger] aliases_moved_by(strategy, before, changes, after)
}

/// An alias that no library refers to is never touched, and neither is
/// any section but `[versions]`, however the handler ends.
pub proof fn lemma_unreferenced_alias_stays<S: VersionStrategy>(
    strategy: &S,
    before: TomlNode,
    after: TomlNode,
    alias: Seq<char>,
    section: Seq<char>,
)
    requires
        before.is_table_like(),
        aliases_moved(strategy, before, after),
        !alias_referenced(before.child("libraries"@), alias),
        section != "versions"@,
    ensures
        after.child("versions"@).child(alias) == before.child("versions"@).child(alias),
        after.child(section) == before.child(section),
{
    let changes = choose|changes: Seq<ChangeView>| aliases_moved_by(strategy, before, changes, after);
    if changes.len() > 0 {
        assert forall|i: int| 0 <= i < changes.len() implies changes[i].name != alias by {
            assert(alias_referenced(before.child("libraries"@), changes[i].name));
        }
        lemma_changes_frame(EntryForm::Alias, before.child("versions"@), changes, alias);
        lemma_alias_changes_leave_entries(before, changes, section);
        lemma_with_child_reads(
            before,
            "versions"@,
            with_changes(EntryForm::Alias, before.child("versions"@), changes),
            section,
        );
    }
}

/// Checks the version aliases of the catalog and moves them to the
/// latest versions of the libraries that stand for them.
pub struct VersionHandler<'a, C: RepositoryClient, S: VersionStrategy> {
    library_client: &'a C,
    version_strategy: &'a S,
}

impl<'a, C: RepositoryClient, S: VersionStrategy> VersionHandler<'a, C, S> {
    /// A handler that asks `library_client` for versions and
    /// `version_strategy` whether a version is an upgrade.
    pub fn new(library_client: &'a C, version_strategy: &'a S) -> (r: Self)
        ensures
            r.strategy() == version_strategy,
    {
        VersionHandler { library_client, version_strategy }
    }

    /// The strategy that this handler decides by.
    pub closed spec fn strategy(&self) -> &S {
        self.version_strategy
    }

    /// Looks for an upgrade of one alias through the library that stands
    /// for it, and hands back the current value of the alias and the
    /// version to move to. An alias that is no string, and one that no
    /// library refers to, is passed over without asking the
    /// repositories.
    pub fn check_alias_for_update(
        &self,
        document: &toml_edit::Item,
        version_key: &str,
        stable_only: bool,
    ) -> (r: Result<Option<(String, String)>, GvcError>)
        ensures
            match r {
                Ok(Some((old_version, new_version))) => {
                    &&& item_node(*document).child("versions"@).child(version_key@) == TomlNode::Text(
                        old_version@,
                    )
                    &&& alias_referenced(item_node(*document).child("libraries"@), version_key@)
                    &&& new_version@ != old_version@
                    &&& self.strategy().upgrades(old_version@, new_version@)
                },
                Ok(None) => true,
                Err(_) => {
                    &&& item_node(*document).child("versions"@).child(version_key@) is Text
                    &&& alias_referenced(item_node(*document).child("libraries"@), version_key@)
                },
            },
    {
        let versions = match item_child(document, "versions") {
            Some(versions) => versions,
            None => return Ok(None),
        };
        let current = match item_child(versions, version_key) {
            Some(entry) => match entry.as_str() {
                Some(current) => current,
                None => return Ok(None),
            },
            None => return Ok(None),
        };
        let libraries = match item_child(document, "libraries") {
            Some(libraries) => libraries,
            None => return Ok(None),
        };
        let (group, artifact) = match find_representative_coordinate(libraries, version_key) {
            Some(pair) => pair,
            None => return Ok(None),
        };
        let coordinate = Coordinate::new(group.as_str(), artifact.as_str());
        match find_upgrade(self.library_client, self.version_strategy, &coordinate, current, stable_only) {
            Ok(Some(latest)) => Ok(Some((current.to_owned(), latest))),
            Ok(None) => Ok(None),
            Err(e) => Err(e),
        }
    }

    /// Goes through the aliases of the `[versions]` table in the order of
    /// the document and moves each one that a library refers to to the
    /// latest version of the first such library, where that is an
    /// upgrade and is confirmed.
    ///
    /// The report names exactly the aliases that were changed, each with
    /// the value it had and an upgrade of it, and the document
    /// afterwards is the document before with those aliases changed and
    /// nothing else. A document without a `[versions]` or a
    /// `[libraries]` table is left alone. Where the run stops with an
    /// error, the document is the document before with the upgrades
    /// made up to then; an alias that no library refers to, and every
    /// other section, is never touched.
    pub fn update<P: Prompter>(
        &self,
        interaction: &mut UpdateInteraction<P>,
        doc: &mut toml_edit::DocumentMut,
        stable_only: bool,
    ) -> (r: Result<UpdateReport, GvcError>)
        ensures
            final(interaction).enabled() == old(interaction).enabled(),
            (*old(interaction)).leads_to(*final(interaction)),
            (*old(interaction)).stop_is_told(*final(interaction), r),
            r is Ok && r->Ok_0@.is_empty() ==> *final(doc) == *old(doc),
            match r {
                Ok(report) => {
                    &&& report@.libraries.len() == 0
                    &&& report@.plugins.len() == 0
                    &&& report@.wf()
                    &&& changes_justified(
                        EntryForm::Alias,
                        self.strategy(),
                        document_node(*old(doc)).child("versions"@),
                        report@.versions,
                    )
                    &&& all_referenced(document_node(*old(doc)).child("libraries"@), report@.versions)
                    &&& report@.versions.len() > 0 ==> document_node(*final(doc)) == with_alias_changes(
                        document_node(*old(doc)),
                        report@.versions,
                    )
                    &&& report@.versions.len() == 0 ==> document_node(*final(doc)) == document_node(
                        *old(doc),
                    )
                },
                Err(_) => {
                    &&& exists|alias: Seq<char>| #[trigger]
                        alias_is_asked(document_node(*old(doc)), alias)
                    &&& aliases_moved(
                        self.strategy(),
                        document_node(*old(doc)),
                        document_node(*final(doc)),
                    )
                },
            },
    {
        let mut report = UpdateReport::new();
        let ghost start = document_node(*doc);
        let keys = {
            let root = doc.as_item();
            match item_child(root, "versions") {
                Some(versions) => {
                    if !versions.is_table() {
                        return Ok(report);
                    }
                    match item_child(root, "libraries") {
                        Some(libraries) => {
                            if !libraries.is_table() {
                                return Ok(report);
                            }
                        },
                        None => {
                            return Ok(report);
                        },
                    }
                    table_keys(versions)
                },
                None => {
                    return Ok(report);
                },
            }
        };
        let ghost names = texts(keys@);
        let ghost section = start.child("versions"@);
        let ghost libraries = start.child("libraries"@);
        let mut i: usize = 0;
        proof {
            assert("versions"@ != "libraries"@) by {
                reveal_strlit("versions");
                reveal_strlit("libraries");
                assert("versions"@.len() == 8);
                assert("libraries"@.len() == 9);
            }
        }
        while i < keys.len()
            invariant
                i <= keys.len(),
                names == texts(keys@),
                start == document_node(*old(doc)),
                section == start.child("versions"@),
                libraries == start.child("libraries"@),
                section is Table,
                start.is_table_like(),
                "versions"@ != "libraries"@,
                interaction.enabled() == old(interaction).enabled(),
                (*old(interaction)).leads_to(*interaction),
                interaction.cancelled() == old(interaction).cancelled(),
                report@.versions.len() == 0 ==> *doc == *old(doc),
                distinct_keys(names),
                report@.libraries.len() == 0,
                report@.plugins.len() == 0,
                report@.wf(),
                names_among(report@.versions, names, i as int),
                changes_justified(EntryForm::Alias, self.strategy(), section, report@.versions),
                all_referenced(libraries, report@.versions),
                report@.versions.len() == 0 ==> document_node(*doc) == start,
                report@.versions.len() > 0 ==> document_node(*doc) == with_alias_changes(
                    start,
                    report@.versions,
                ),
            decreases keys.len() - i,
        {
            let key = keys[i].as_str();
            let ghost changes = report@.versions;
            let ghost current_section = with_changes(EntryForm::Alias, section, changes);
            proof {
                assert(names[i as int] == key@);
                lemma_key_is_new(changes, names, i as int);
                lemma_changes_frame(EntryForm::Alias, section, changes, key@);
                lemma_changes_keep_kind(EntryForm::Alias, section, changes);
                lemma_with_child_reads(start, "versions"@, current_section, "libraries"@);
                lemma_with_child_reads(start, "versions"@, current_section, "versions"@);
                if changes.len() == 0 {
                    assert(current_section == section);
                }
            }
            let found = match self.check_alias_for_update(doc.as_item(), key, stable_only) {
                Ok(found) => found,
                Err(e) => {
                    assert(alias_is_asked(start, key@));
                    assert(aliases_moved_by(self.strategy(), start, changes, document_node(*doc)));
                    return Err(e);
                },
            };
            match found {
                Some((old_version, new_version)) => {
                    assert(alias_is_asked(start, key@));
                    match interaction.confirm_version(key, old_version.as_str(), new_version.as_str()) {
                        Ok(true) => {
                            let ghost before = document_node(*doc);
                            match apply_version_alias(doc, key, new_version.as_str()) {
                                Ok(()) => {},
                                Err(e) => {
                                    assert(aliases_moved_by(
                                        self.strategy(),
                                        start,
                                        changes,
                                        document_node(*doc),
                                    ));
                                    return Err(e);
                                },
                            }
                            proof {
                                let change = ChangeView {
                                    name: key@,
                                    old_version: old_version@,
                                    new_version: new_version@,
                                };
                                let after_section = current_section.with_child(
                                    key@,
                                    TomlNode::Text(new_version@),
                                );
                                lemma_change_recorded(
                                    EntryForm::Alias,
                                    self.strategy(),
                                    section,
                                    changes,
                                    names,
                                    i as int,
                                    change,
                                    after_section,
                                );
                                lemma_with_child_twice(start, "versions"@, current_section, after_section);
                                if changes.len() == 0 {
                                    assert(before == start);
                                }
                                assert(document_node(*doc) == start.with_child(
                                    "versions"@,
                                    after_section,
                                ));
                                let later = changes.push(change);
                                assert forall|c: int| 0 <= c < later.len() implies alias_referenced(
                                    libraries,
                                    (#[trigger] later[c]).name,
                                ) by {
                                    if c < changes.len() {
                                        assert(later[c] == changes[c]);
                                    }
                                }
                            }
                            report.add_version_update(keys[i].clone(), old_version, new_version);
                        },
                        Ok(false) => {},
                        Err(e) => {
                            assert(aliases_moved_by(
                                self.strategy(),
                                start,
                                changes,
                                document_node(*doc),
                            ));
                            return Err(e);
                        },
                    }
                },
                None => {},
            }
            i += 1;
        }
        Ok(report)
    }

    /// Goes through the aliases of the `[versions]` table and reports the
    /// upgrades that are available, without changing anything and
    /// without asking.
    pub fn check(&self, doc: &toml_edit::DocumentMut, stable_only: bool) -> (r: Result<
        UpdateReport,
        GvcError,
    >)
        ensures
            match r {
                Ok(report) => {
                    &&& report@.libraries.len() == 0
                    &&& report@.plugins.len() == 0
                    &&& report@.wf()
                    &&& changes_justified(
                        EntryForm::Alias,
                        self.strategy(),
                        document_node(*doc).child("versions"@),
                        report@.versions,
                    )
                    &&& all_referenced(document_node(*doc).child("libraries"@), report@.versions)
                },
                Err(_) => exists|alias: Seq<char>| #[trigger]
                    alias_is_asked(document_node(*doc), alias),
            },
    {
        let mut report = UpdateReport::new();
        let root = doc.as_item();
        let ghost start = item_node(*root);
        let keys = match item_child(root, "versions") {
            Some(versions) => {
                if !versions.is_table() {
                    return Ok(report);
                }
                match item_child(root, "libraries") {
                    Some(libraries) => {
                        if !libraries.is_table() {
                            return Ok(report);
                        }
                    },
                    None => {
                        return Ok(report);
                    },
                }
                table_keys(versions)
            },
            None => {
                return Ok(report);
            },
        };
        let ghost names = texts(keys@);
        let ghost section = start.child("versions"@);
        let ghost libraries = start.child("libraries"@);
        let mut i: usize = 0;
        while i < keys.len()
            invariant
                i <= keys.len(),
                names == texts(keys@),
                start == item_node(*root),
                start == document_node(*doc),
                section == start.child("versions"@),
                libraries == start.child("libraries"@),
                section is Table,
                distinct_keys(names),
                report@.libraries.len() == 0,
                report@.plugins.len() == 0,
                report@.wf(),
                names_among(report@.versions, names, i as int),
                changes_justified(EntryForm::Alias, self.strategy(), section, report@.versions),
                all_referenced(libraries, report@.versions),
            decreases keys.len() - i,
        {
            let key = keys[i].as_str();
            let ghost changes = report@.versions;
            proof {
                assert(names[i as int] == key@);
                lemma_key_is_new(changes, names, i as int);
            }
            let found = match self.check_alias_for_update(root, key, stable_only) {
                Ok(found) => found,
                Err(e) => {
                    assert(alias_is_asked(start, key@));
                    return Err(e);
                },
            };
            match found {
                Some((old_version, new_version)) => {
                    proof {
                        let change = ChangeView {
                            name: key@,
                            old_version: old_version@,
                            new_version: new_version@,
                        };
                        lemma_change_noted(
                            EntryForm::Alias,
                            self.strategy(),
                            section,
                            changes,
                            names,
                            i as int,
                            change,
                        );
                        let later = changes.push(change);
                        assert forall|c: int| 0 <= c < later.len() implies alias_referenced(
                            libraries,
                            (#[trigger] later[c]).name,
                        ) by {
                            if c < changes.len() {
                                assert(later[c] == changes[c]);
                            }
                        }
                    }
                    report.add_version_update(keys[i].clone(), old_version, new_version);
                },
                None => {},
            }
            i += 1;
        }
        Ok(report)
    }
}

/// What was put under a key last is what counts.
pub proof fn lemma_with_child_twice(node: TomlNode, key: Seq<char>, first: TomlNode, second: TomlNode)
    requires
        !(first is Absent),
        !(second is Absent),
    ensures
        node.with_child(key, first).with_child(key, second) == node.with_child(key, second),
{
    match node {
        TomlNode::Inline(m) => {
            assert(m.insert(key, first).insert(key, second) =~= m.insert(key, second));
        },
        TomlNode::Table(m) => {
            assert(m.insert(key, first).insert(key, second) =~= m.insert(key, second));
        },
        _ => {},
    }
}

} // verus!
