//! The report of an update run: which aliases, libraries and plugins
//! changed, from which version to which.

use crate::text::same_text;
use vstd::prelude::*;

verus! {

/// One change: the name of an entry, the version it had and the version
/// it gets.
#[derive(Debug, Clone, PartialEq, Eq)]
pub struct VersionChange {
    pub name: String,
    pub old_version: String,
    pub new_version: String,
}

/// The mathematical value of a [`VersionChange`].
pub struct ChangeView {
    pub name: Seq<char>,
    pub old_version: Seq<char>,
    pub new_version: Seq<char>,
}

impl View for VersionChange {
    type V = ChangeView;

    open spec fn view(&self) -> ChangeView {
        ChangeView {
            name: self.name@,
            old_version: self.old_version@,
            new_version: self.new_version@,
        }
    }
}

/// The values of a list of changes.
pub open spec fn changes_of(list: Seq<VersionChange>) -> Seq<ChangeView> {
    Seq::new(list.len(), |i: int| list[i]@)
}

/// Whether no name occurs twice in a list of changes.
pub open spec fn distinct_names(list: Seq<ChangeView>) -> bool {
    forall|i: int, j: int| 0 <= i < j < list.len() ==> list[i].name != list[j].name
}

/// The position of the change of `name`, or `-1`.
pub open spec fn position_of(list: Seq<ChangeView>, name: Seq<char>) -> int
    decreases list.len(),
{
    if list.len() == 0 {
        -1
    } else if list.last().name == name {
        list.len() - 1
    } else {
        position_of(list.drop_last(), name)
    }
}

/// The change recorded for `name`, if there is one.
pub open spec fn change_of(list: Seq<ChangeView>, name: Seq<char>) -> Option<(Seq<char>, Seq<char>)> {
    let at = position_of(list, name);
    if at >= 0 {
        Some((list[at].old_version, list[at].new_version))
    } else {
        None
    }
}

/// A list of changes after one more was recorded: the change takes the
/// place of an earlier change of the same name, or comes last.
pub open spec fn with_change(list: Seq<ChangeView>, change: ChangeView) -> Seq<ChangeView> {
    let at = position_of(list, change.name);
    if at >= 0 {
        list.update(at, change)
    } else {
        list.push(change)
    }
}

/// `position_of` finds the change of a name where there is one.
pub proof fn lemma_position_of(list: Seq<ChangeView>, name: Seq<char>)
    ensures
        -1 <= position_of(list, name) < list.len(),
        position_of(list, name) >= 0 ==> list[position_of(list, name)].name == name,
        position_of(list, name) == -1 ==> forall|i: int| 0 <= i < list.len() ==> list[i].name != name,
    decreases list.len(),
{
    if list.len() > 0 && list.last().name != name {
        lemma_position_of(list.drop_last(), name);
        assert forall|i: int| 0 <= i < list.len() && position_of(list, name) == -1 implies list[i].name
            != name by {
            if i < list.len() - 1 {
                assert(list.drop_last()[i] == list[i]);
            }
        }
    }
}

/// In a list without repeated names, the change of a name stands where
/// that name stands.
pub proof fn lemma_position_of_is(list: Seq<ChangeView>, name: Seq<char>, at: int)
    requires
        distinct_names(list),
        0 <= at < list.len(),
        list[at].name == name,
    ensures
        position_of(list, name) == at,
{
    lemma_position_of(list, name);
}

/// Recording a change keeps the names distinct, makes the change the one
/// recorded for its name and leaves the changes of all other names.
pub proof fn lemma_with_change(list: Seq<ChangeView>, change: ChangeView, other: Seq<char>)
    requires
        distinct_names(list),
    ensures
        distinct_names(with_change(list, change)),
        change_of(with_change(list, change), change.name) == Some(
            (change.old_version, change.new_version),
        ),
        other != change.name ==> change_of(with_change(list, change), other) == change_of(list, other),
{
    let after = with_change(list, change);
    let at = position_of(list, change.name);
    lemma_position_of(list, change.name);
    lemma_position_of(list, other);
    if at >= 0 {
        assert forall|i: int, j: int| 0 <= i < j < after.len() implies after[i].name != after[j].name by {
            assert(after[i].name == list[i].name);
            assert(after[j].name == list[j].name);
        }
        lemma_position_of_is(after, change.name, at);
        if other != change.name {
            let p = position_of(list, other);
            if p >= 0 {
                assert(after[p] == list[p]);
                lemma_position_of_is(after, other, p);
            } else {
                lemma_position_of(after, other);
                if position_of(after, other) >= 0 {
                    let q = position_of(after, other);
                    assert(after[q].name == list[q].name);
                }
            }
        }
    } else {
        assert forall|i: int, j: int| 0 <= i < j < after.len() implies after[i].name != after[j].name by {
            if j < list.len() {
                assert(after[i] == list[i]);
                assert(after[j] == list[j]);
            } else {
                assert(after[i] == list[i]);
            }
        }
        assert(after.drop_last() =~= list);
    }
}

/// Records `change` in a list of changes.
fn record(list: &mut Vec<VersionChange>, change: VersionChange)
    ensures
        changes_of(final(list)@) == with_change(changes_of(old(list)@), change@),
{
    let ghost before = changes_of(list@);
    let mut i: usize = list.len();
    assert(before.take(i as int) =~= before);
    while i > 0
        invariant
            i <= list.len(),
            list@ == old(list)@,
            before == changes_of(list@),
            position_of(before, change@.name) == position_of(before.take(i as int), change@.name),
        decreases i,
    {
        let ghost upto = before.take(i as int);
        assert(upto.last() == list@[i - 1]@);
        assert(upto.drop_last() =~= before.take(i - 1));
        if same_text(list[i - 1].name.as_str(), change.name.as_str()) {
            let ghost view = change@;
            list.set(i - 1, change);
            assert(changes_of(list@) =~= before.update(i - 1, view));
            return ;
        }
        i -= 1;
    }
    assert(before.take(0) =~= Seq::<ChangeView>::empty());
    let ghost view = change@;
    list.push(change);
    assert(changes_of(list@) =~= before.push(view));
}

/// The changes of an update run, by section of the catalog.
#[derive(Debug, Clone, Default)]
pub struct UpdateReport {
    /// Changes of version aliases.
    pub version_updates: Vec<VersionChange>,
    /// Changes of libraries that state their version themselves.
    pub library_updates: Vec<VersionChange>,
    /// Changes of plugins that state their version themselves.
    pub plugin_updates: Vec<VersionChange>,
}

/// The mathematical value of an [`UpdateReport`].
pub struct ReportView {
    pub versions: Seq<ChangeView>,
    pub libraries: Seq<ChangeView>,
    pub plugins: Seq<ChangeView>,
}

impl View for UpdateReport {
    type V = ReportView;

    open spec fn view(&self) -> ReportView {
        ReportView {
            versions: changes_of(self.version_updates@),
            libraries: changes_of(self.library_updates@),
            plugins: changes_of(self.plugin_updates@),
        }
    }
}

impl ReportView {
    /// Whether the report holds no change at all.
    pub open spec fn is_empty(self) -> bool {
        self.versions.len() == 0 && self.libraries.len() == 0 && self.plugins.len() == 0
    }

    /// The number of changes.
    pub open spec fn total(self) -> nat {
        self.versions.len() + self.libraries.len() + self.plugins.len()
    }

    /// Whether each section names each entry once at most.
    pub open spec fn wf(self) -> bool {
        distinct_names(self.versions) && distinct_names(self.libraries) && distinct_names(
            self.plugins,
        )
    }

    /// The report without any change.
    pub open spec fn empty() -> ReportView {
        ReportView { versions: Seq::empty(), libraries: Seq::empty(), plugins: Seq::empty() }
    }
}

impl UpdateReport {
    /// A report without changes.
    pub fn new() -> (r: UpdateReport)
        ensures
            r@ == ReportView::empty(),
            r@.is_empty(),
            r@.wf(),
    {
        let r = UpdateReport {
            version_updates: Vec::new(),
            library_updates: Vec::new(),
            plugin_updates: Vec::new(),
        };
        assert(r@.versions =~= Seq::empty());
        assert(r@.libraries =~= Seq::empty());
        assert(r@.plugins =~= Seq::empty());
        r
    }

    /// Records the change of a version alias; a change of the same alias
    /// recorded before is replaced, so that each alias keeps one change.
    pub fn add_version_update(&mut self, name: String, old_version: String, new_version: String)
        ensures
            final(self)@ == (ReportView {
                versions: with_change(
                    old(self)@.versions,
                    ChangeView { name: name@, old_version: old_version@, new_version: new_version@ },
                ),
                ..old(self)@
            }),
            old(self)@.wf() ==> final(self)@.wf(),
    {
        proof {
            if self@.wf() {
                lemma_with_change(
                    self@.versions,
                    ChangeView { name: name@, old_version: old_version@, new_version: new_version@ },
                    name@,
                );
            }
        }
        record(&mut self.version_updates, VersionChange { name, old_version, new_version });
    }

    /// Records the change of a library; a change of the same library
    /// recorded before is replaced, so that each library keeps one
    /// change.
    pub fn add_library_update(&mut self, name: String, old_version: String, new_version: String)
        ensures
            final(self)@ == (ReportView {
                libraries: with_change(
                    old(self)@.libraries,
                    ChangeView { name: name@, old_version: old_version@, new_version: new_version@ },
                ),
                ..old(self)@
            }),
            old(self)@.wf() ==> final(self)@.wf(),
    {
        proof {
            if self@.wf() {
                lemma_with_change(
                    self@.libraries,
                    ChangeView { name: name@, old_version: old_version@, new_version: new_version@ },
                    name@,
                );
            }
        }
        record(&mut self.library_updates, VersionChange { name, old_version, new_version });
    }

    /// Records the change of a plugin; a change of the same plugin
    /// recorded before is replaced, so that each plugin keeps one change.
    pub fn add_plugin_update(&mut self, name: String, old_version: String, new_version: String)
        ensures
            final(self)@ == (ReportView {
                plugins: with_change(
                    old(self)@.plugins,
                    ChangeView { name: name@, old_version: old_version@, new_version: new_version@ },
                ),
                ..old(self)@
            }),
            old(self)@.wf() ==> final(self)@.wf(),
    {
        proof {
            if self@.wf() {
                lemma_with_change(
                    self@.plugins,
                    ChangeView { name: name@, old_version: old_version@, new_version: new_version@ },
                    name@,
                );
            }
        }
        record(&mut self.plugin_updates, VersionChange { name, old_version, new_version });
    }

    /// Tells whether the report holds no change.
    pub fn is_empty(&self) -> (r: bool)
        ensures
            r == self@.is_empty(),
    {
        self.version_updates.is_empty() && self.library_updates.is_empty()
            && self.plugin_updates.is_empty()
    }

    /// The number of changes, in all sections together.
    pub fn total_updates(&self) -> (r: usize)
        requires
            self@.total() <= usize::MAX,
        ensures
            r == self@.total(),
    {
        self.version_updates.len() + self.library_updates.len() + self.plugin_updates.len()
    }
}

} // verus!
