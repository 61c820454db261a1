//! What the handlers of the three sections share: what it means to apply
//! a list of changes to a section, and when a list of changes is
//! justified.

use crate::document::{lemma_with_child_reads, TomlNode};
use crate::report::{
    lemma_position_of, lemma_with_change, with_change, ChangeView,
};
use crate::repository::VersionStrategy;
use crate::toml_utils::{library_with_version, stated_version};
use vstd::prelude::*;

verus! {

/// The kind of entry that a section holds.
pub enum EntryForm {
    /// A library, in any of its shapes.
    Library,
    /// A plugin: a table with an `id` and a `version`.
    Plugin,
    /// A version alias: a string.
    Alias,
}

/// The identifier of a plugin entry.
pub open spec fn plugin_id(node: TomlNode) -> Option<Seq<char>> {
    if node.is_table_like() {
        node.text_at("id"@)
    } else {
        None
    }
}

/// The version that a plugin entry states itself: the string in its
/// `version` field, where it also has an identifier.
pub open spec fn plugin_version(node: TomlNode) -> Option<Seq<char>> {
    if plugin_id(node) is Some {
        node.text_at("version"@)
    } else {
        None
    }
}

/// The version that an entry states itself.
pub open spec fn current_version(form: EntryForm, node: TomlNode) -> Option<Seq<char>> {
    match form {
        EntryForm::Library => stated_version(node),
        EntryForm::Plugin => plugin_version(node),
        EntryForm::Alias => node.text(),
    }
}

/// Whether the entry under `key` of a section is one that the
/// repositories are asked about: the section is a table with a header
/// of its own, and the entry states a version.
pub open spec fn states_version(form: EntryForm, section: TomlNode, key: Seq<char>) -> bool {
    section is Table && current_version(form, section.child(key)) is Some
}

/// An entry after its version was set to `version`: a library keeps its
/// shape, a plugin gets the version as its `version` field, and an alias
/// becomes the version. An entry of a shape that cannot be edited gives
/// nothing.
pub open spec fn with_new_version(form: EntryForm, node: TomlNode, version: Seq<char>) -> Option<
    TomlNode,
> {
    match form {
        EntryForm::Library => library_with_version(node, version),
        EntryForm::Plugin => if node.is_table_like() {
            Some(node.with_child("version"@, TomlNode::Text(version)))
        } else {
            None
        },
        EntryForm::Alias => if node is Text {
            Some(TomlNode::Text(version))
        } else {
            None
        },
    }
}

/// A section after the changes of a list were applied to its entries, one
/// after the other.
pub open spec fn with_changes(form: EntryForm, section: TomlNode, changes: Seq<ChangeView>) -> TomlNode
    decreases changes.len(),
{
    if changes.len() == 0 {
        section
    } else {
        let before = with_changes(form, section, changes.drop_last());
        let change = changes.last();
        match with_new_version(form, before.child(change.name), change.new_version) {
            Some(entry) => before.with_child(change.name, entry),
            None => before,
        }
    }
}

/// Whether one change moves an entry of the section from the version that
/// the section states for it to a different version that the strategy
/// takes for an upgrade.
pub open spec fn change_justified<S: VersionStrategy>(
    form: EntryForm,
    strategy: &S,
    section: TomlNode,
    change: ChangeView,
) -> bool {
    &&& current_version(form, section.child(change.name)) == Some(change.old_version)
    &&& change.new_version != change.old_version
    &&& strategy.upgrades(change.old_version, change.new_version)
}

/// Whether every change of a list is justified.
pub open spec fn changes_justified<S: VersionStrategy>(
    form: EntryForm,
    strategy: &S,
    section: TomlNode,
    changes: Seq<ChangeView>,
) -> bool {
    forall|i: int|
        0 <= i < changes.len() ==> change_justified(form, strategy, section, #[trigger] changes[i])
}

/// Whether `after` is the section `before` with the changes of a list,
/// each of them justified by what `before` states.
pub open spec fn moved_by<S: VersionStrategy>(
    form: EntryForm,
    strategy: &S,
    before: TomlNode,
    changes: Seq<ChangeView>,
    after: TomlNode,
) -> bool {
    changes_justified(form, strategy, before, changes) && after == with_changes(form, before, changes)
}

/// Whether `after` is the section `before` with nothing but upgrades of
/// entries that state a version. This is what a handler leaves behind
/// however it ends, also where it stops with an error.
pub open spec fn moved_by_upgrades<S: VersionStrategy>(
    form: EntryForm,
    strategy: &S,
    before: TomlNode,
    after: TomlNode,
) -> bool {
    exists|changes: Seq<ChangeView>| #[trigger] moved_by(form, strategy, before, changes, after)
}

/// An entry that states no version is never touched: a library or a
/// plugin that takes its version from an alias, and an entry of a shape
/// that is not understood, is the same after any run of a handler.
pub proof fn lemma_unasked_entry_stays<S: VersionStrategy>(
    form: EntryForm,
    strategy: &S,
    before: TomlNode,
    after: TomlNode,
    key: Seq<char>,
)
    requires
        moved_by_upgrades(form, strategy, before, after),
        current_version(form, before.child(key)) is None,
    ensures
        after.child(key) == before.child(key),
{
    let changes = choose|changes: Seq<ChangeView>| moved_by(form, strategy, before, changes, after);
    assert forall|i: int| 0 <= i < changes.len() implies changes[i].name != key by {
        assert(change_justified(form, strategy, before, changes[i]));
    }
    lemma_changes_frame(form, before, changes, key);
}

/// Whether every change of a list names one of the first `upto` keys.
pub open spec fn names_among(changes: Seq<ChangeView>, keys: Seq<Seq<char>>, upto: int) -> bool {
    forall|c: int| 0 <= c < changes.len() ==> named_before(keys, upto, (#[trigger] changes[c]).name)
}

/// Whether `name` is one of the first `upto` keys.
pub open spec fn named_before(keys: Seq<Seq<char>>, upto: int, name: Seq<char>) -> bool {
    exists|k: int| 0 <= k < upto && k < keys.len() && #[trigger] keys[k] == name
}

/// Whether no key comes twice.
pub open spec fn distinct_keys(keys: Seq<Seq<char>>) -> bool {
    forall|a: int, b: int| 0 <= a < b < keys.len() ==> keys[a] != keys[b]
}

/// Applying changes to a table gives a table of the same form.
pub proof fn lemma_changes_keep_kind(form: EntryForm, section: TomlNode, changes: Seq<ChangeView>)
    ensures
        with_changes(form, section, changes).is_table_like() <==> section.is_table_like(),
        with_changes(form, section, changes) is Table <==> section is Table,
        !section.is_table_like() ==> with_changes(form, section, changes) == section,
    decreases changes.len(),
{
    if changes.len() > 0 {
        lemma_changes_keep_kind(form, section, changes.drop_last());
    }
}

/// Applying changes leaves every entry alone that no change names.
pub proof fn lemma_changes_frame(
    form: EntryForm,
    section: TomlNode,
    changes: Seq<ChangeView>,
    key: Seq<char>,
)
    requires
        forall|i: int| 0 <= i < changes.len() ==> changes[i].name != key,
    ensures
        with_changes(form, section, changes).child(key) == section.child(key),
    decreases changes.len(),
{
    if changes.len() > 0 {
        let front = changes.drop_last();
        assert forall|i: int| 0 <= i < front.len() implies front[i].name != key by {
            assert(front[i] == changes[i]);
        }
        lemma_changes_frame(form, section, front, key);
        lemma_changes_keep_kind(form, section, front);
        let before = with_changes(form, section, front);
        let change = changes.last();
        assert(change.name != key);
        match with_new_version(form, before.child(change.name), change.new_version) {
            Some(entry) => {
                if before.is_table_like() {
                    lemma_with_child_reads(before, change.name, entry, key);
                }
            },
            None => {},
        }
    }
}

/// No change of a list that names only earlier keys names the key at
/// `at`.
pub proof fn lemma_key_is_new(changes: Seq<ChangeView>, keys: Seq<Seq<char>>, at: int)
    requires
        distinct_keys(keys),
        0 <= at < keys.len(),
        names_among(changes, keys, at),
    ensures
        forall|c: int| 0 <= c < changes.len() ==> changes[c].name != keys[at],
        names_among(changes, keys, at + 1),
{
    assert forall|c: int| 0 <= c < changes.len() implies changes[c].name != keys[at] by {
        assert(named_before(keys, at, changes[c].name));
        let k = choose|k: int| 0 <= k < at && k < keys.len() && #[trigger] keys[k] == changes[c].name;
        assert(keys[k] != keys[at]);
    }
    assert forall|c: int| 0 <= c < changes.len() implies named_before(
        keys,
        at + 1,
        (#[trigger] changes[c]).name,
    ) by {
        assert(named_before(keys, at, changes[c].name));
        let k = choose|k: int| 0 <= k < at && k < keys.len() && #[trigger] keys[k] == changes[c].name;
        assert(0 <= k < at + 1 && k < keys.len() && keys[k] == changes[c].name);
    }
}

/// Putting back under a key what stands there, where something stands
/// there, changes nothing.
pub proof fn lemma_same_child(node: TomlNode, key: Seq<char>)
    requires
        !(node.child(key) is Absent),
    ensures
        node.with_child(key, node.child(key)) == node,
{
    match node {
        TomlNode::Inline(m) => {
            assert(m.insert(key, m[key]) =~= m);
        },
        TomlNode::Table(m) => {
            assert(m.insert(key, m[key]) =~= m);
        },
        _ => {},
    }
}

/// One more step of a handler: the entry under the key at `at` was
/// rewritten and the change recorded. What held of the changes and of the
/// section before holds of them afterwards.
pub proof fn lemma_change_recorded<S: VersionStrategy>(
    form: EntryForm,
    strategy: &S,
    start: TomlNode,
    changes: Seq<ChangeView>,
    keys: Seq<Seq<char>>,
    at: int,
    change: ChangeView,
    after: TomlNode,
)
    requires
        distinct_keys(keys),
        0 <= at < keys.len(),
        names_among(changes, keys, at),
        crate::report::distinct_names(changes),
        changes_justified(form, strategy, start, changes),
        change.name == keys[at],
        change_justified(form, strategy, start, change),
        with_new_version(form, start.child(change.name), change.new_version) is Some,
        ({
            let before = with_changes(form, start, changes);
            let entry = with_new_version(form, start.child(change.name), change.new_version)->0;
            after == before.with_child(change.name, entry) || (after == before && entry
                == before.child(change.name))
        }),
    ensures
        with_change(changes, change) == changes.push(change),
        crate::report::distinct_names(changes.push(change)),
        names_among(changes.push(change), keys, at + 1),
        changes_justified(form, strategy, start, changes.push(change)),
        after == with_changes(form, start, changes.push(change)),
{
    let later = changes.push(change);
    lemma_key_is_new(changes, keys, at);
    lemma_position_of(changes, change.name);
    lemma_with_change(changes, change, change.name);
    assert(later.drop_last() =~= changes);
    lemma_changes_frame(form, start, changes, change.name);
    let before = with_changes(form, start, changes);
    let entry = with_new_version(form, start.child(change.name), change.new_version)->0;
    if after == before && entry == before.child(change.name) {
        assert(!(entry is Absent));
        lemma_same_child(before, change.name);
    }
    assert forall|c: int| 0 <= c < later.len() implies named_before(
        keys,
        at + 1,
        (#[trigger] later[c]).name,
    ) by {
        if c < changes.len() {
            assert(later[c] == changes[c]);
            assert(named_before(keys, at + 1, changes[c].name));
        } else {
            assert(keys[at] == later[c].name);
        }
    }
    assert forall|c: int| 0 <= c < later.len() implies change_justified(
        form,
        strategy,
        start,
        #[trigger] later[c],
    ) by {
        if c < changes.len() {
            assert(later[c] == changes[c]);
        }
    }
}

/// One more step of a check: an upgrade of the entry under the key at
/// `at` was found and noted. What held of the changes before holds of
/// them afterwards.
pub proof fn lemma_change_noted<S: VersionStrategy>(
    form: EntryForm,
    strategy: &S,
    start: TomlNode,
    changes: Seq<ChangeView>,
    keys: Seq<Seq<char>>,
    at: int,
    change: ChangeView,
)
    requires
        distinct_keys(keys),
        0 <= at < keys.len(),
        names_among(changes, keys, at),
        crate::report::distinct_names(changes),
        changes_justified(form, strategy, start, changes),
        change.name == keys[at],
        change_justified(form, strategy, start, change),
    ensures
        with_change(changes, change) == changes.push(change),
        crate::report::distinct_names(changes.push(change)),
        names_among(changes.push(change), keys, at + 1),
        changes_justified(form, strategy, start, changes.push(change)),
{
    let later = changes.push(change);
    lemma_key_is_new(changes, keys, at);
    lemma_position_of(changes, change.name);
    lemma_with_change(changes, change, change.name);
    assert forall|c: int| 0 <= c < later.len() implies named_before(
        keys,
        at + 1,
        (#[trigger] later[c]).name,
    ) by {
        if c < changes.len() {
            assert(later[c] == changes[c]);
            assert(named_before(keys, at + 1, changes[c].name));
        } else {
            assert(keys[at] == later[c].name);
        }
    }
    assert forall|c: int| 0 <= c < later.len() implies change_justified(
        form,
        strategy,
        start,
        #[trigger] later[c],
    ) by {
        if c < changes.len() {
            assert(later[c] == changes[c]);
        }
    }
}

} // verus!
