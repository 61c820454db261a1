//! The entries that a targeted update can pick from, and the versions
//! that are offered for the one that was picked.

use crate::interaction::{entry_views, VersionEntry, VersionEntryView};
use crate::text::{same_text, texts};
use crate::version::{parse_spec, stable_view, Version};
use vstd::prelude::*;

verus! {

/// What kind of entry a candidate is, with what it is looked up by.
#[derive(Debug, Clone, PartialEq, Eq)]
pub enum TargetKind {
    /// A version alias, looked up through the library that stands for it.
    VersionAlias { group: String, artifact: String },
    /// A library that states its own version.
    Library { group: String, artifact: String },
    /// A plugin that states its own version.
    Plugin { plugin_id: String },
}

/// The mathematical value of a [`TargetKind`].
pub enum TargetKindView {
    VersionAlias { group: Seq<char>, artifact: Seq<char> },
    Library { group: Seq<char>, artifact: Seq<char> },
    Plugin { plugin_id: Seq<char> },
}

impl View for TargetKind {
    type V = TargetKindView;

    open spec fn view(&self) -> TargetKindView {
        match self {
            TargetKind::VersionAlias { group, artifact } => TargetKindView::VersionAlias {
                group: group@,
                artifact: artifact@,
            },
            TargetKind::Library { group, artifact } => TargetKindView::Library {
                group: group@,
                artifact: artifact@,
            },
            TargetKind::Plugin { plugin_id } => TargetKindView::Plugin { plugin_id: plugin_id@ },
        }
    }
}

/// An entry of the catalog that a targeted update may change.
#[derive(Debug, Clone, PartialEq, Eq)]
pub struct TargetCandidate {
    pub name: String,
    pub current_version: String,
    pub kind: TargetKind,
}

/// The mathematical value of a [`TargetCandidate`].
pub struct CandidateView {
    pub name: Seq<char>,
    pub current_version: Seq<char>,
    pub kind: TargetKindView,
}

impl View for TargetCandidate {
    type V = CandidateView;

    open spec fn view(&self) -> CandidateView {
        CandidateView {
            name: self.name@,
            current_version: self.current_version@,
            kind: self.kind@,
        }
    }
}

/// The name that a candidate is shown under.
pub open spec fn display_name_of(c: CandidateView) -> Seq<char> {
    match c.kind {
        TargetKindView::VersionAlias { group, artifact } => "version alias '"@ + c.name + "' ("@
            + group + ":"@ + artifact + ")"@,
        TargetKindView::Library { group, artifact } => "library '"@ + c.name + "' ("@ + group + ":"@
            + artifact + ")"@,
        TargetKindView::Plugin { plugin_id } => "plugin '"@ + c.name + "' ("@ + plugin_id + ")"@,
    }
}

/// The line that a candidate is listed with.
pub open spec fn description_of(c: CandidateView) -> Seq<char> {
    display_name_of(c) + " \u{2014} current version "@ + c.current_version
}

impl TargetCandidate {
    /// The name that this candidate is shown under: its kind, its name
    /// in the catalog and what it is looked up by.
    pub fn display_name(&self) -> (r: String)
        ensures
            r@ == display_name_of(self@),
    {
        match &self.kind {
            TargetKind::VersionAlias { group, artifact } => {
                let mut out = "version alias '".to_owned();
                out.append(self.name.as_str());
                out.append("' (");
                out.append(group.as_str());
                out.append(":");
                out.append(artifact.as_str());
                out.append(")");
                out
            },
            TargetKind::Library { group, artifact } => {
                let mut out = "library '".to_owned();
                out.append(self.name.as_str());
                out.append("' (");
                out.append(group.as_str());
                out.append(":");
                out.append(artifact.as_str());
                out.append(")");
                out
            },
            TargetKind::Plugin { plugin_id } => {
                let mut out = "plugin '".to_owned();
                out.append(self.name.as_str());
                out.append("' (");
                out.append(plugin_id.as_str());
                out.append(")");
                out
            },
        }
    }

    /// The line that this candidate is listed with: its display name and
    /// its current version.
    pub fn describe_with_version(&self) -> (r: String)
        ensures
            r@ == description_of(self@),
    {
        let mut out = self.display_name();
        out.append(" \u{2014} current version ");
        out.append(self.current_version.as_str());
        out
    }
}

/// The versions that are offered for an entry, made of the versions that
/// a repository knows, in the same order: each one with whether it is
/// stable and whether it is the current one. With `stable_only` the
/// unstable ones are left out.
pub open spec fn entries_of(versions: Seq<Seq<char>>, current: Seq<char>, stable_only: bool) -> Seq<
    VersionEntryView,
>
    decreases versions.len(),
{
    if versions.len() == 0 {
        Seq::empty()
    } else {
        let before = entries_of(versions.drop_last(), current, stable_only);
        let raw = versions.last();
        let stable = stable_view(parse_spec(raw));
        if stable_only && !stable {
            before
        } else {
            before.push(VersionEntryView { value: raw, is_stable: stable, is_current: raw == current })
        }
    }
}

/// Makes the list of versions that are offered for an entry.
pub fn version_entries(versions: Vec<String>, current: &str, stable_only: bool) -> (r: Vec<
    VersionEntry,
>)
    ensures
        entry_views(r@) == entries_of(texts(versions@), current@, stable_only),
{
    let mut entries: Vec<VersionEntry> = Vec::new();
    let ghost all = texts(versions@);
    let mut i: usize = 0;
    assert(all.take(0) =~= Seq::<Seq<char>>::empty());
    assert(entry_views(entries@) =~= Seq::<VersionEntryView>::empty());
    while i < versions.len()
        invariant
            i <= versions.len(),
            all == texts(versions@),
            entry_views(entries@) == entries_of(all.take(i as int), current@, stable_only),
        decreases versions.len() - i,
    {
        let raw = versions[i].as_str();
        proof {
            let upto = all.take(i + 1);
            assert(upto.drop_last() =~= all.take(i as int));
            assert(upto.last() == raw@);
        }
        let parsed = Version::parse(raw);
        let is_stable = parsed.is_stable();
        if !(stable_only && !is_stable) {
            let is_current = same_text(current, raw);
            let ghost before = entry_views(entries@);
            let entry = VersionEntry { value: raw.to_owned(), is_stable, is_current };
            let ghost view = entry@;
            entries.push(entry);
            assert(entry_views(entries@) =~= before.push(view));
        }
        i += 1;
    }
    assert(all.take(versions.len() as int) =~= all);
    entries
}

/// The position of the first offered version, at or after `from`, that
/// is not the current one and, where `stable` is set, is stable; or `-1`.
pub open spec fn first_other(entries: Seq<VersionEntryView>, stable: bool, from: int) -> int
    decreases entries.len() - from,
{
    if from < 0 || from >= entries.len() {
        -1
    } else if !entries[from].is_current && (!stable || entries[from].is_stable) {
        from
    } else {
        first_other(entries, stable, from + 1)
    }
}

/// The version that is picked where nobody is asked: with `stable_only`
/// the first offered version that is stable and not the current one;
/// where there is none, or without `stable_only`, the first offered
/// version that is not the current one.
pub open spec fn default_version(entries: Seq<VersionEntryView>, stable_only: bool) -> Option<
    Seq<char>,
> {
    if stable_only && first_other(entries, true, 0) >= 0 {
        Some(entries[first_other(entries, true, 0)].value)
    } else if first_other(entries, false, 0) >= 0 {
        Some(entries[first_other(entries, false, 0)].value)
    } else {
        None
    }
}

/// `first_other` finds a position of the list, and the first one that
/// fits.
pub proof fn lemma_first_other(entries: Seq<VersionEntryView>, stable: bool, from: int)
    requires
        0 <= from,
    ensures
        first_other(entries, stable, from) == -1 || from <= first_other(entries, stable, from)
            < entries.len(),
        first_other(entries, stable, from) >= 0 ==> !entries[first_other(
            entries,
            stable,
            from,
        )].is_current && (!stable || entries[first_other(entries, stable, from)].is_stable),
        forall|k: int|
            from <= k < entries.len() && (first_other(entries, stable, from) == -1 || k < first_other(
                entries,
                stable,
                from,
            )) ==> (#[trigger] entries[k]).is_current || (stable && !entries[k].is_stable),
    decreases entries.len() - from,
{
    if from < entries.len() && !(!entries[from].is_current && (!stable || entries[from].is_stable)) {
        lemma_first_other(entries, stable, from + 1);
    }
}

/// Finds the first offered version that is not the current one and,
/// where `stable` is set, is stable.
fn find_other(entries: &Vec<VersionEntry>, stable: bool) -> (r: Option<usize>)
    ensures
        match r {
            Some(at) => at == first_other(entry_views(entries@), stable, 0) && at < entries.len(),
            None => first_other(entry_views(entries@), stable, 0) == -1,
        },
{
    let ghost views = entry_views(entries@);
    let mut i: usize = 0;
    while i < entries.len()
        invariant
            i <= entries.len(),
            views == entry_views(entries@),
            first_other(views, stable, 0) == first_other(views, stable, i as int),
        decreases entries.len() - i,
    {
        assert(views[i as int] == entries@[i as int]@);
        if !entries[i].is_current && (!stable || entries[i].is_stable) {
            return Some(i);
        }
        i += 1;
    }
    None
}

/// Picks the version to move to where nobody is asked.
pub fn select_default_version(versions: &Vec<VersionEntry>, stable_only: bool) -> (r: Option<String>)
    ensures
        crate::toml_utils::optional_text(r) == default_version(entry_views(versions@), stable_only),
{
    if stable_only {
        if let Some(at) = find_other(versions, true) {
            assert(entry_views(versions@)[at as int] == versions@[at as int]@);
            return Some(versions[at].value.clone());
        }
    }
    match find_other(versions, false) {
        Some(at) => {
            assert(entry_views(versions@)[at as int] == versions@[at as int]@);
            Some(versions[at].value.clone())
        },
        None => None,
    }
}

} // verus!
