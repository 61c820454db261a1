//! The handler of a targeted update: the entries whose names match a
//! pattern are offered, one of them is picked, a version is chosen for
//! it and written into the document.

use crate::candidate::{
    default_version, display_name_of, entries_of, select_default_version, version_entries,
    CandidateView, TargetCandidate, TargetKind, TargetKindView,
};
use crate::document::{document_node, item_child, item_child_mut, item_node, table_keys, TomlNode};
use crate::error::GvcError;
use crate::interaction::{
    choice_outcome, entry_views, pick_outcome, settle_choice, settle_pick, CandidateChoice,
    PickOutcome, Prompter, UpdateInteraction, VersionEntry, VersionEntryView, VersionPick,
};
use crate::order::{compare_text, lemma_lex_flip, text_order, Precedence};
use crate::pattern::{pattern_regex, regex_matches, regex_valid, PatternMatcher};
use crate::plugin_handler::plugin_details;
use crate::report::{with_change, ChangeView, ReportView, UpdateReport};
use crate::repository::{Coordinate, RepositoryClient, VersionStrategy};
use crate::section::{lemma_same_child, plugin_id, plugin_version};
use crate::text::{same_text, texts, trimmed};
use crate::toml_utils::{
    group_artifact, library_details, library_with_version, LibraryDetailsView, TomlUtils,
};
use crate::version_handler::{
    alias_referenced, apply_version_alias, find_representative_coordinate, has_alias, stands_for,
    with_alias,
};
use vstd::prelude::*;

verus! {

/// Whether a candidate says what the document holds: its current version
/// is the one that the entry of its name states, and what it is looked up
/// by is what the entry, or for an alias a library that refers to it,
/// gives.
pub open spec fn describes(document: TomlNode, c: CandidateView) -> bool {
    match c.kind {
        TargetKindView::Library { group, artifact } => {
            &&& document.child("libraries"@) is Table
            &&& library_details(document.child("libraries"@).child(c.name)) matches Some(d)
            &&& d.group == group
            &&& d.artifact == artifact
            &&& d.version == Some(c.current_version)
        },
        TargetKindView::VersionAlias { group, artifact } => {
            &&& document.child("versions"@) is Table
            &&& document.child("versions"@).child(c.name) == TomlNode::Text(c.current_version)
            &&& exists|key: Seq<char>|
                #[trigger] stands_for(document.child("libraries"@), key, c.name) && group_artifact(
                    document.child("libraries"@).child(key),
                ) == Some((group, artifact))
        },
        TargetKindView::Plugin { plugin_id: id } => {
            &&& document.child("plugins"@) is Table
            &&& plugin_id(document.child("plugins"@).child(c.name)) == Some(id)
            &&& plugin_version(document.child("plugins"@).child(c.name)) == Some(c.current_version)
        },
    }
}

/// The values of a list of candidates.
pub open spec fn candidate_views(list: Seq<TargetCandidate>) -> Seq<CandidateView> {
    Seq::new(list.len(), |i: int| list[i]@)
}

/// Whether a candidate has a name that the regular expression matches
/// and says what the document holds.
#[verifier::opaque]
pub open spec fn fits(document: TomlNode, regex: Seq<char>, c: CandidateView) -> bool {
    regex_matches(regex, c.name) && describes(document, c)
}

/// Whether a regular expression picks an entry of the document: some
/// candidate with a name that it matches says what the document holds.
/// Only then is a repository, or the user, asked about anything.
pub open spec fn picks_an_entry(document: TomlNode, regex: Seq<char>) -> bool {
    exists|c: CandidateView| regex_matches(regex, c.name) && #[trigger] describes(document, c)
}

/// Whether each candidate of a list fits the document and the regular
/// expression.
pub open spec fn all_candidates(document: TomlNode, regex: Seq<char>, list: Seq<CandidateView>) -> bool {
    forall|i: int| 0 <= i < list.len() ==> fits(document, regex, #[trigger] list[i])
}

/// Whether the display name of `a` is not higher than that of `b`.
#[verifier::opaque]
pub open spec fn not_after(a: CandidateView, b: CandidateView) -> bool {
    text_order(display_name_of(a), display_name_of(b)) != Precedence::Higher
}

/// Whether a list of candidates is in the order of their display names:
/// none is followed by one with a lower display name.
pub open spec fn in_display_order(list: Seq<CandidateView>) -> bool {
    forall|i: int| 0 <= i < list.len() - 1 ==> not_after(#[trigger] list[i], list[i + 1])
}

/// Puts a candidate into a list that is in display order, behind every
/// candidate that is not higher, so that the list stays in order.
fn insert_in_order(list: &mut Vec<TargetCandidate>, candidate: TargetCandidate)
    requires
        in_display_order(candidate_views(old(list)@)),
    ensures
        in_display_order(candidate_views(final(list)@)),
        final(list)@.len() == old(list)@.len() + 1,
        exists|at: int|
            0 <= at <= old(list)@.len() && candidate_views(final(list)@) == candidate_views(
                old(list)@,
            ).insert(at, candidate@),
{
    let name = candidate.display_name();
    let ghost before = candidate_views(list@);
    let ghost view = candidate@;
    let mut at: usize = list.len();
    let mut settled = false;
    while at > 0 && !settled
        invariant
            at <= list.len(),
            list@ == old(list)@,
            before == candidate_views(list@),
            view == candidate@,
            name@ == display_name_of(view),
            at < list.len() ==> not_after(view, before[at as int]),
            settled ==> at > 0 && not_after(before[at - 1], view),
        decreases at, (if settled { 0int } else { 1int }),
    {
        let other = list[at - 1].display_name();
        assert(before[at - 1] == list@[at - 1]@);
        match compare_text(other.as_str(), name.as_str()) {
            Precedence::Higher => {
                proof {
                    lemma_higher_is_after(before[at - 1], view);
                }
                at -= 1;
            },
            _ => {
                proof {
                    reveal(not_after);
                }
                settled = true;
            },
        }
    }
    list.insert(at, candidate);
    proof {
        let after = candidate_views(list@);
        assert(after =~= before.insert(at as int, view));
        assert forall|i: int| 0 <= i < after.len() - 1 implies not_after(
            #[trigger] after[i],
            after[i + 1],
        ) by {
            if i + 1 < at {
                assert(after[i] == before[i]);
                assert(after[i + 1] == before[i + 1]);
            } else if i + 1 == at {
                assert(after[i] == before[i]);
                assert(after[i + 1] == view);
            } else if i == at {
                assert(after[i] == view);
                assert(after[i + 1] == before[i]);
            } else {
                assert(after[i] == before[i - 1]);
                assert(after[i + 1] == before[i]);
            }
        }
    }
}

/// Where the display name of `a` is higher than that of `b`, that of `b`
/// is not higher than that of `a`.
proof fn lemma_higher_is_after(a: CandidateView, b: CandidateView)
    requires
        text_order(display_name_of(a), display_name_of(b)) == Precedence::Higher,
    ensures
        not_after(b, a),
{
    reveal(not_after);
    lemma_lex_flip(
        crate::order::bytes_of(vstd::utf8::encode_utf8(display_name_of(a))),
        crate::order::bytes_of(vstd::utf8::encode_utf8(display_name_of(b))),
    );
}

/// A list into which one more candidate was put holds candidates of the
/// document if it did before and the new one is one.
proof fn lemma_insert_keeps_candidates(
    document: TomlNode,
    regex: Seq<char>,
    before: Seq<CandidateView>,
    after: Seq<CandidateView>,
    candidate: CandidateView,
)
    requires
        all_candidates(document, regex, before),
        fits(document, regex, candidate),
        exists|at: int| 0 <= at <= before.len() && after == before.insert(at, candidate),
    ensures
        all_candidates(document, regex, after),
{
    let at = choose|at: int| 0 <= at <= before.len() && after == before.insert(at, candidate);
    assert forall|i: int| 0 <= i < after.len() implies fits(document, regex, #[trigger] after[i]) by {
        if i < at {
            assert(after[i] == before[i]);
        } else if i > at {
            assert(after[i] == before[i - 1]);
        } else {
            assert(after[i] == candidate);
        }
    }
}

/// The library under `name` as a candidate: it has to state its own
/// version.
pub fn build_library_candidate(name: &str, item: &toml_edit::Item) -> (r: Option<TargetCandidate>)
    ensures
        match r {
            Some(c) => {
                &&& c@.name == name@
                &&& c@.kind is Library
                &&& library_details(item_node(*item)) == Some(
                    LibraryDetailsView {
                        group: c@.kind->Library_group,
                        artifact: c@.kind->Library_artifact,
                        version: Some(c@.current_version),
                        version_ref: library_details(item_node(*item))->0.version_ref,
                    },
                )
            },
            None => crate::toml_utils::stated_version(item_node(*item)) is None,
        },
{
    let details = match TomlUtils::extract_library_details(item) {
        Some(details) => details,
        None => return None,
    };
    match details.version {
        Some(current_version) => Some(
            TargetCandidate {
                name: name.to_owned(),
                current_version,
                kind: TargetKind::Library { group: details.group, artifact: details.artifact },
            },
        ),
        None => None,
    }
}

/// The plugin under `name` as a candidate: it has to state its own
/// version.
pub fn build_plugin_candidate(name: &str, item: &toml_edit::Item) -> (r: Option<TargetCandidate>)
    ensures
        match r {
            Some(c) => {
                &&& c@.name == name@
                &&& c@.kind is Plugin
                &&& plugin_id(item_node(*item)) == Some(c@.kind->Plugin_plugin_id)
                &&& plugin_version(item_node(*item)) == Some(c@.current_version)
            },
            None => plugin_version(item_node(*item)) is None,
        },
{
    match plugin_details(item) {
        Some((plugin_id, current_version)) => Some(
            TargetCandidate {
                name: name.to_owned(),
                current_version,
                kind: TargetKind::Plugin { plugin_id },
            },
        ),
        None => None,
    }
}

/// The alias under `name` as a candidate: it has to be a string, and a
/// library has to stand for it.
pub fn build_alias_candidate(document: &toml_edit::Item, name: &str, item: &toml_edit::Item) -> (r:
    Option<TargetCandidate>)
    ensures
        match r {
            Some(c) => {
                &&& c@.name == name@
                &&& c@.kind is VersionAlias
                &&& item_node(*item) == TomlNode::Text(c@.current_version)
                &&& exists|key: Seq<char>|
                    #[trigger] stands_for(item_node(*document).child("libraries"@), key, name@)
                        && group_artifact(item_node(*document).child("libraries"@).child(key)) == Some(
                        (c@.kind->VersionAlias_group, c@.kind->VersionAlias_artifact),
                    )
            },
            None => !(item_node(*item) is Text) || !alias_referenced(
                item_node(*document).child("libraries"@),
                name@,
            ),
        },
{
    let current = match item.as_str() {
        Some(current) => current,
        None => return None,
    };
    let libraries = match item_child(document, "libraries") {
        Some(libraries) => libraries,
        None => return None,
    };
    match find_representative_coordinate(libraries, name) {
        Some((group, artifact)) => Some(
            TargetCandidate {
                name: name.to_owned(),
                current_version: current.to_owned(),
                kind: TargetKind::VersionAlias { group, artifact },
            },
        ),
        None => None,
    }
}

/// The three kinds of section of the catalog.
#[derive(Clone, Copy, Debug, PartialEq, Eq, Structural)]
pub enum Section {
    Libraries,
    Versions,
    Plugins,
}

impl Section {
    /// The name of the table of this section.
    pub open spec fn key(self) -> Seq<char> {
        match self {
            Section::Libraries => "libraries"@,
            Section::Versions => "versions"@,
            Section::Plugins => "plugins"@,
        }
    }

    /// The name of the table of this section.
    pub fn name(&self) -> (r: &'static str)
        ensures
            r@ == self.key(),
    {
        match self {
            Section::Libraries => "libraries",
            Section::Versions => "versions",
            Section::Plugins => "plugins",
        }
    }
}

/// The section that a candidate of this kind comes from.
pub open spec fn section_of(kind: TargetKindView) -> Section {
    match kind {
        TargetKindView::Library { .. } => Section::Libraries,
        TargetKindView::VersionAlias { .. } => Section::Versions,
        TargetKindView::Plugin { .. } => Section::Plugins,
    }
}

/// Whether the entry under `name` in a section can be updated: a
/// library or a plugin that states its own version, or an alias that is
/// a string and that a library stands for.
pub open spec fn updatable(document: TomlNode, section: Section, name: Seq<char>) -> bool {
    let table = document.child(section.key());
    table is Table && match section {
        Section::Libraries => crate::toml_utils::stated_version(table.child(name)) is Some,
        Section::Versions => table.child(name) is Text && alias_referenced(
            document.child("libraries"@),
            name,
        ),
        Section::Plugins => plugin_version(table.child(name)) is Some,
    }
}

/// Whether a list holds the candidate of the entry under `name` in a
/// section.
#[verifier::opaque]
pub open spec fn offers(list: Seq<CandidateView>, section: Section, name: Seq<char>) -> bool {
    exists|j: int| 0 <= j < list.len() && (#[trigger] list[j]).name == name && section_of(list[j].kind) == section
}

/// Whether a list holds a candidate for every entry of a section that
/// can be updated and whose name the regular expression matches.
pub open spec fn covers(document: TomlNode, regex: Seq<char>, section: Section, list: Seq<CandidateView>) -> bool {
    forall|name: Seq<char>|
        regex_matches(regex, name) && #[trigger] updatable(document, section, name) ==> offers(
            list,
            section,
            name,
        )
}

/// Whether no entry has two candidates in a list.
pub open spec fn one_for_each(list: Seq<CandidateView>) -> bool {
    forall|a: int, b: int|
        0 <= a < b < list.len() ==> !((#[trigger] list[a]).name == (#[trigger] list[b]).name
            && section_of(list[a].kind) == section_of(list[b].kind))
}

/// Whether a list holds no candidate of a section.
pub open spec fn none_from(list: Seq<CandidateView>, section: Section) -> bool {
    forall|j: int| 0 <= j < list.len() ==> section_of((#[trigger] list[j]).kind) != section
}

/// Whether the candidates of a section that a list holds are named by
/// one of the first `upto` keys.
pub open spec fn only_from(list: Seq<CandidateView>, section: Section, names: Seq<Seq<char>>, upto: int) -> bool {
    forall|j: int|
        0 <= j < list.len() && section_of((#[trigger] list[j]).kind) == section
            ==> crate::section::named_before(names, upto, list[j].name)
}

/// A list into which a candidate of a new entry was put still holds one
/// candidate for each entry at most, and no candidate of another section
/// that it did not hold before.
proof fn lemma_insert_keeps_one_for_each(
    before: Seq<CandidateView>,
    after: Seq<CandidateView>,
    candidate: CandidateView,
    names: Seq<Seq<char>>,
    at_key: int,
)
    requires
        exists|at: int| 0 <= at <= before.len() && after == before.insert(at, candidate),
        one_for_each(before),
        crate::section::distinct_keys(names),
        0 <= at_key < names.len(),
        candidate.name == names[at_key],
        only_from(before, section_of(candidate.kind), names, at_key),
    ensures
        one_for_each(after),
        only_from(after, section_of(candidate.kind), names, at_key + 1),
        forall|other: Section|
            other != section_of(candidate.kind) && none_from(before, other) ==> #[trigger] none_from(
                after,
                other,
            ),
{
    let at = choose|at: int| 0 <= at <= before.len() && after == before.insert(at, candidate);
    let section = section_of(candidate.kind);
    assert forall|j: int| 0 <= j < after.len() && section_of((#[trigger] after[j]).kind)
        == section implies crate::section::named_before(names, at_key + 1, after[j].name) by {
        if j == at {
            assert(names[at_key] == after[j].name);
        } else {
            let p = if j < at {
                j
            } else {
                j - 1
            };
            assert(after[j] == before[p]);
            assert(crate::section::named_before(names, at_key, before[p].name));
            let k = choose|k: int|
                0 <= k < at_key && k < names.len() && #[trigger] names[k] == before[p].name;
            assert(0 <= k < at_key + 1 && k < names.len() && names[k] == after[j].name);
        }
    }
    assert forall|a: int, b: int| 0 <= a < b < after.len() implies !((#[trigger] after[a]).name == (
    #[trigger] after[b]).name && section_of(after[a].kind) == section_of(after[b].kind)) by {
        let pa = if a < at {
            a
        } else {
            a - 1
        };
        let pb = if b < at {
            b
        } else {
            b - 1
        };
        if a != at && b != at {
            assert(after[a] == before[pa] && after[b] == before[pb]);
        } else {
            let p = if a == at {
                pb
            } else {
                pa
            };
            let other = if a == at {
                b
            } else {
                a
            };
            assert(after[other] == before[p]);
            if before[p].name == candidate.name && section_of(before[p].kind) == section {
                assert(crate::section::named_before(names, at_key, before[p].name));
                let k = choose|k: int|
                    0 <= k < at_key && k < names.len() && #[trigger] names[k] == before[p].name;
                assert(names[k] != names[at_key]);
            }
        }
    }
    assert forall|other: Section| other != section && none_from(before, other) implies #[trigger] none_from(
        after,
        other,
    ) by {
        assert forall|j: int| 0 <= j < after.len() implies section_of((#[trigger] after[j]).kind)
            != other by {
            if j < at {
                assert(after[j] == before[j]);
            } else if j > at {
                assert(after[j] == before[j - 1]);
            }
        }
    }
}

/// A list into which one more candidate was put offers what it offered
/// before, and the new candidate.
proof fn lemma_insert_keeps_offers(
    before: Seq<CandidateView>,
    after: Seq<CandidateView>,
    candidate: CandidateView,
    section: Section,
    name: Seq<char>,
)
    requires
        exists|at: int| 0 <= at <= before.len() && after == before.insert(at, candidate),
    ensures
        offers(before, section, name) ==> offers(after, section, name),
        offers(after, section_of(candidate.kind), candidate.name),
{
    reveal(offers);
    let at = choose|at: int| 0 <= at <= before.len() && after == before.insert(at, candidate);
    assert(after[at] == candidate);
    if offers(before, section, name) {
        let j = choose|j: int|
            0 <= j < before.len() && (#[trigger] before[j]).name == name && section_of(before[j].kind)
                == section;
        if j < at {
            assert(after[j] == before[j]);
        } else {
            assert(after[j + 1] == before[j]);
        }
    }
}

/// What is named by one of the first keys is named by one of the first
/// keys and the next one.
proof fn lemma_only_from_grows(list: Seq<CandidateView>, section: Section, names: Seq<Seq<char>>, upto: int)
    requires
        only_from(list, section, names, upto),
    ensures
        only_from(list, section, names, upto + 1),
{
    assert forall|j: int| 0 <= j < list.len() && section_of((#[trigger] list[j]).kind)
        == section implies crate::section::named_before(names, upto + 1, list[j].name) by {
        assert(crate::section::named_before(names, upto, list[j].name));
        let k = choose|k: int| 0 <= k < upto && k < names.len() && #[trigger] names[k] == list[j].name;
        assert(0 <= k < upto + 1 && k < names.len() && names[k] == list[j].name);
    }
}

/// Adds to a list in display order the candidates of one section whose
/// names match.
fn collect_section(
    document: &toml_edit::Item,
    matcher: &PatternMatcher,
    section: Section,
    candidates: &mut Vec<TargetCandidate>,
)
    requires
        in_display_order(candidate_views(old(candidates)@)),
        all_candidates(item_node(*document), matcher.regex(), candidate_views(old(candidates)@)),
        one_for_each(candidate_views(old(candidates)@)),
        none_from(candidate_views(old(candidates)@), section),
    ensures
        in_display_order(candidate_views(final(candidates)@)),
        all_candidates(item_node(*document), matcher.regex(), candidate_views(final(candidates)@)),
        one_for_each(candidate_views(final(candidates)@)),
        forall|other: Section|
            other != section && none_from(candidate_views(old(candidates)@), other)
                ==> #[trigger] none_from(candidate_views(final(candidates)@), other),
        covers(item_node(*document), matcher.regex(), section, candidate_views(final(candidates)@)),
        forall|other: Section, name: Seq<char>|
            offers(candidate_views(old(candidates)@), other, name) ==> #[trigger] offers(
                candidate_views(final(candidates)@),
                other,
                name,
            ),
{
    let table = match item_child(document, section.name()) {
        Some(table) => table,
        None => return ,
    };
    if !table.is_table() {
        return ;
    }
    let keys = table_keys(table);
    let ghost start = candidate_views(candidates@);
    let ghost names = texts(keys@);
    let mut i: usize = 0;
    while i < keys.len()
        invariant
            i <= keys.len(),
            names == texts(keys@),
            item_node(*table) == item_node(*document).child(section.key()),
            item_node(*table) is Table,
            in_display_order(candidate_views(candidates@)),
            all_candidates(item_node(*document), matcher.regex(), candidate_views(candidates@)),
            crate::section::distinct_keys(names),
            one_for_each(candidate_views(candidates@)),
            only_from(candidate_views(candidates@), section, names, i as int),
            forall|other: Section|
                other != section && none_from(start, other) ==> #[trigger] none_from(
                    candidate_views(candidates@),
                    other,
                ),
            forall|other: Section, name: Seq<char>|
                offers(start, other, name) ==> #[trigger] offers(
                    candidate_views(candidates@),
                    other,
                    name,
                ),
            forall|k: int|
                0 <= k < i && regex_matches(matcher.regex(), names[k]) && #[trigger] updatable(
                    item_node(*document),
                    section,
                    names[k],
                ) ==> offers(candidate_views(candidates@), section, names[k]),
        decreases keys.len() - i,
    {
        let name = keys[i].as_str();
        assert(names[i as int] == name@);
        let ghost before = candidate_views(candidates@);
        proof {
            lemma_only_from_grows(before, section, names, i as int);
        }
        if matcher.matches(name) {
            if let Some(item) = item_child(table, name) {
                let candidate = match section {
                    Section::Libraries => build_library_candidate(name, item),
                    Section::Versions => build_alias_candidate(document, name, item),
                    Section::Plugins => build_plugin_candidate(name, item),
                };
                if let Some(candidate) = candidate {
                    let ghost view = candidate@;
                    assert(fits(item_node(*document), matcher.regex(), view)) by {
                        reveal(fits);
                    }
                    assert(section_of(view.kind) == section && view.name == name@);
                    insert_in_order(candidates, candidate);
                    proof {
                        let after = candidate_views(candidates@);
                        lemma_insert_keeps_candidates(
                            item_node(*document),
                            matcher.regex(),
                            before,
                            after,
                            view,
                        );
                        lemma_insert_keeps_offers(before, after, view, section, name@);
                        lemma_insert_keeps_one_for_each(before, after, view, names, i as int);
                        assert forall|other: Section, n: Seq<char>| offers(start, other, n) implies
                            #[trigger] offers(after, other, n) by {
                            lemma_insert_keeps_offers(before, after, view, other, n);
                        }
                        assert forall|k: int|
                            0 <= k < i && regex_matches(matcher.regex(), names[k])
                                && #[trigger] updatable(
                                item_node(*document),
                                section,
                                names[k],
                            ) implies offers(after, section, names[k]) by {
                            lemma_insert_keeps_offers(before, after, view, section, names[k]);
                        }
                    }
                } else {
                    assert(!updatable(item_node(*document), section, name@));
                }
            } else {
                assert(!updatable(item_node(*document), section, name@));
            }
        }
        i += 1;
    }
    proof {
        assert forall|name: Seq<char>|
            regex_matches(matcher.regex(), name) && #[trigger] updatable(
                item_node(*document),
                section,
                name,
            ) implies offers(candidate_views(candidates@), section, name) by {
            assert(!(item_node(*table).child(name) is Absent));
            assert(names.contains(name));
            let k = choose|k: int| 0 <= k < names.len() && names[k] == name;
            assert(updatable(item_node(*document), section, names[k]));
        }
    }
}

/// The entries of the document whose names the pattern matches and that
/// can be updated: libraries and plugins that state their own version,
/// and aliases that a library stands for. Each of them is offered once,
/// with what the document states of it, nothing else is offered, and
/// they come in the order of their display names.
pub fn collect_candidates(document: &toml_edit::Item, matcher: &PatternMatcher) -> (r: Vec<
    TargetCandidate,
>)
    ensures
        in_display_order(candidate_views(r@)),
        all_candidates(item_node(*document), matcher.regex(), candidate_views(r@)),
        one_for_each(candidate_views(r@)),
        forall|section: Section|
            #[trigger] covers(item_node(*document), matcher.regex(), section, candidate_views(r@)),
{
    let mut candidates: Vec<TargetCandidate> = Vec::new();
    collect_section(document, matcher, Section::Libraries, &mut candidates);
    let ghost first = candidate_views(candidates@);
    collect_section(document, matcher, Section::Versions, &mut candidates);
    let ghost second = candidate_views(candidates@);
    collect_section(document, matcher, Section::Plugins, &mut candidates);
    proof {
        let last = candidate_views(candidates@);
        let node = item_node(*document);
        let regex = matcher.regex();
        assert forall|section: Section| #[trigger] covers(node, regex, section, last) by {
            assert forall|name: Seq<char>|
                regex_matches(regex, name) && #[trigger] updatable(node, section, name) implies offers(
                last,
                section,
                name,
            ) by {
                match section {
                    Section::Libraries => {
                        assert(offers(first, section, name));
                        assert(offers(second, section, name));
                    },
                    Section::Versions => {
                        assert(offers(second, section, name));
                    },
                    Section::Plugins => {},
                }
            }
        }
    }
    candidates
}

/// The document after the entry of a candidate was set to `version`: an
/// alias becomes the version, a library keeps its shape, a plugin gets
/// the version as its `version` field. Nothing where the entry is not
/// there or cannot be edited.
pub open spec fn with_target_version(document: TomlNode, c: CandidateView, version: Seq<char>) -> Option<
    TomlNode,
> {
    match c.kind {
        TargetKindView::VersionAlias { .. } => if has_alias(document, c.name) {
            Some(with_alias(document, c.name, version))
        } else {
            None
        },
        TargetKindView::Library { .. } => {
            let section = document.child("libraries"@);
            if section is Table && !(section.child(c.name) is Absent) {
                match library_with_version(section.child(c.name), version) {
                    Some(entry) => Some(
                        document.with_child("libraries"@, section.with_child(c.name, entry)),
                    ),
                    None => None,
                }
            } else {
                None
            }
        },
        TargetKindView::Plugin { .. } => {
            let section = document.child("plugins"@);
            if section is Table && section.child(c.name).is_table_like() {
                Some(
                    document.with_child(
                        "plugins"@,
                        section.with_child(
                            c.name,
                            section.child(c.name).with_child("version"@, TomlNode::Text(version)),
                        ),
                    ),
                )
            } else {
                None
            }
        },
    }
}

/// The report of one change of a candidate to `version`.
pub open spec fn single_change(c: CandidateView, version: Seq<char>) -> ReportView {
    let change = ChangeView { name: c.name, old_version: c.current_version, new_version: version };
    match c.kind {
        TargetKindView::VersionAlias { .. } => ReportView {
            versions: seq![change],
            libraries: Seq::empty(),
            plugins: Seq::empty(),
        },
        TargetKindView::Library { .. } => ReportView {
            versions: Seq::empty(),
            libraries: seq![change],
            plugins: Seq::empty(),
        },
        TargetKindView::Plugin { .. } => ReportView {
            versions: Seq::empty(),
            libraries: Seq::empty(),
            plugins: seq![change],
        },
    }
}

/// A report after one more change was recorded: that of a candidate to
/// `version`, in the section of the candidate.
pub open spec fn with_target_change(report: ReportView, c: CandidateView, version: Seq<char>) -> ReportView {
    let change = ChangeView { name: c.name, old_version: c.current_version, new_version: version };
    match c.kind {
        TargetKindView::VersionAlias { .. } => ReportView {
            versions: with_change(report.versions, change),
            ..report
        },
        TargetKindView::Library { .. } => ReportView {
            libraries: with_change(report.libraries, change),
            ..report
        },
        TargetKindView::Plugin { .. } => ReportView {
            plugins: with_change(report.plugins, change),
            ..report
        },
    }
}

/// The first change of a report is the only one.
pub proof fn lemma_first_change(c: CandidateView, version: Seq<char>)
    ensures
        with_target_change(ReportView::empty(), c, version) == single_change(c, version),
{
    let change = ChangeView { name: c.name, old_version: c.current_version, new_version: version };
    assert(Seq::<ChangeView>::empty().push(change) =~= seq![change]);
}

/// Sets the version of the library `name`, which keeps its shape.
fn apply_library_version(doc: &mut toml_edit::DocumentMut, name: &str, new_version: &str) -> (r:
    Result<(), GvcError>)
    ensures
        ({
            let section = document_node(*old(doc)).child("libraries"@);
            let entry = library_with_version(section.child(name@), new_version@);
            if section is Table && !(section.child(name@) is Absent) && entry is Some {
                r is Ok && document_node(*final(doc)) == document_node(*old(doc)).with_child(
                    "libraries"@,
                    section.with_child(name@, entry->0),
                )
            } else {
                r is Err && document_node(*final(doc)) == document_node(*old(doc))
            }
        }),
        ({
            let entry = document_node(*old(doc)).child("libraries"@).child(name@);
            r is Err || library_with_version(entry, new_version@) == Some(entry) ==> *final(doc) == *old(
                doc,
            )
        }),
{
    let ghost before = document_node(*doc);
    let root = doc.as_item_mut();
    match item_child_mut(root, "libraries") {
        Some(section) => {
            if !section.is_table() {
                return Err(GvcError::TomlParsing("Missing [libraries] section".to_owned()));
            }
            let ghost libraries = item_node(*section);
            match item_child_mut(section, name) {
                Some(entry) => {
                    if entry.is_none() {
                        return Err(GvcError::TomlParsing("Library not found in catalog".to_owned()));
                    }
                    match TomlUtils::update_version(entry, new_version) {
                        Ok(_) => {
                            proof {
                                lemma_same_child(libraries, name@);
                                lemma_same_child(before, "libraries"@);
                            }
                            Ok(())
                        },
                        Err(e) => Err(e),
                    }
                },
                None => Err(GvcError::TomlParsing("Library not found in catalog".to_owned())),
            }
        },
        None => Err(GvcError::TomlParsing("Missing [libraries] section".to_owned())),
    }
}

/// Sets the `version` field of the plugin `name`.
fn apply_plugin_version(doc: &mut toml_edit::DocumentMut, name: &str, new_version: &str) -> (r:
    Result<(), GvcError>)
    ensures
        ({
            let section = document_node(*old(doc)).child("plugins"@);
            if section is Table && section.child(name@).is_table_like() {
                r is Ok && document_node(*final(doc)) == document_node(*old(doc)).with_child(
                    "plugins"@,
                    section.with_child(
                        name@,
                        section.child(name@).with_child("version"@, TomlNode::Text(new_version@)),
                    ),
                )
            } else {
                r is Err && document_node(*final(doc)) == document_node(*old(doc))
            }
        }),
        r is Err || document_node(*old(doc)).child("plugins"@).child(name@).child("version"@)
            == TomlNode::Text(new_version@) ==> *final(doc) == *old(doc),
{
    let ghost before = document_node(*doc);
    let root = doc.as_item_mut();
    match item_child_mut(root, "plugins") {
        Some(section) => {
            if !section.is_table() {
                return Err(GvcError::TomlParsing("Missing [plugins] section".to_owned()));
            }
            let ghost plugins = item_node(*section);
            match item_child_mut(section, name) {
                Some(entry) => {
                    if !(entry.is_table() || entry.is_inline_table()) {
                        return Err(
                            GvcError::UnsupportedShape("Unsupported plugin definition format".to_owned()),
                        );
                    }
                    crate::toml_utils::set_field_text(entry, "version", new_version);
                    proof {
                        lemma_same_child(plugins, name@);
                        lemma_same_child(before, "plugins"@);
                    }
                    Ok(())
                },
                None => Err(GvcError::TomlParsing("Plugin not found in catalog".to_owned())),
            }
        },
        None => Err(GvcError::TomlParsing("Missing [plugins] section".to_owned())),
    }
}

/// Writes the chosen version of a candidate into the document and
/// records the change. Where the entry of the candidate is not there or
/// cannot be edited, the document and the report are left as they are.
/// Writing the version that the entry states already touches nothing:
/// the document stays the value that it was, and so is written as the
/// same text.
pub fn apply_update(
    doc: &mut toml_edit::DocumentMut,
    candidate: &TargetCandidate,
    new_version: &str,
    report: &mut UpdateReport,
) -> (r: Result<(), GvcError>)
    ensures
        r is Err || (describes(document_node(*old(doc)), candidate@) && new_version@
            == candidate@.current_version) ==> *final(doc) == *old(doc),
        match with_target_version(document_node(*old(doc)), candidate@, new_version@) {
            Some(after) => {
                &&& r is Ok
                &&& document_node(*final(doc)) == after
                &&& final(report)@ == with_target_change(old(report)@, candidate@, new_version@)
            },
            None => {
                &&& r is Err
                &&& document_node(*final(doc)) == document_node(*old(doc))
                &&& final(report)@ == old(report)@
            },
        },
{
    let ghost change = ChangeView {
        name: candidate@.name,
        old_version: candidate@.current_version,
        new_version: new_version@,
    };
    proof {
        let entry = document_node(*doc).child("libraries"@).child(candidate@.name);
        if crate::toml_utils::stated_version(entry) == Some(new_version@) {
            crate::toml_utils::lemma_own_version_changes_nothing(entry, new_version@);
        }
    }
    match &candidate.kind {
        TargetKind::VersionAlias { .. } => {
            match apply_version_alias(doc, candidate.name.as_str(), new_version) {
                Ok(()) => {},
                Err(e) => return Err(e),
            }
            report.add_version_update(
                candidate.name.clone(),
                candidate.current_version.clone(),
                new_version.to_owned(),
            );
        },
        TargetKind::Library { .. } => {
            match apply_library_version(doc, candidate.name.as_str(), new_version) {
                Ok(()) => {},
                Err(e) => return Err(e),
            }
            report.add_library_update(
                candidate.name.clone(),
                candidate.current_version.clone(),
                new_version.to_owned(),
            );
        },
        TargetKind::Plugin { .. } => {
            match apply_plugin_version(doc, candidate.name.as_str(), new_version) {
                Ok(()) => {},
                Err(e) => return Err(e),
            }
            report.add_plugin_update(
                candidate.name.clone(),
                candidate.current_version.clone(),
                new_version.to_owned(),
            );
        },
    }
    Ok(())
}

/// What the choice of a version comes to, given the pick of the user
/// and, where the pick is offered for confirmation, whether it was
/// confirmed: the version to move to, nothing where the entry stays as
/// it is, or the end of the run.
///
/// What the pick comes to is told by [`pick_outcome`]. A version is
/// taken only if it is offered and confirmed. A pick that calls for
/// asking again, and one that is not confirmed, gives no version.
pub open spec fn chosen_version<S: VersionStrategy>(
    strategy: &S,
    current: Seq<char>,
    entries: Seq<VersionEntryView>,
    pick: VersionPick,
    confirmed: Result<bool, GvcError>,
) -> Result<Option<Seq<char>>, GvcError> {
    match pick_outcome(strategy, current, entries, pick) {
        PickOutcome::Cancel => Err(GvcError::UserCancelled),
        PickOutcome::Stay => Ok(None),
        PickOutcome::AskAgain => Ok(None),
        PickOutcome::Offer(at) => match confirmed {
            Ok(true) => Ok(Some(entries[at as int].value)),
            Ok(false) => Ok(None),
            Err(e) => Err(e),
        },
    }
}

/// The version that is taken where nobody is asked: the default
/// version, where the strategy takes it for an upgrade.
pub open spec fn automatic_version<S: VersionStrategy>(
    strategy: &S,
    current: Seq<char>,
    entries: Seq<VersionEntryView>,
    stable_only: bool,
) -> Option<Seq<char>> {
    match default_version(entries, stable_only) {
        Some(version) => if strategy.upgrades(current, version) {
            Some(version)
        } else {
            None
        },
        None => None,
    }
}

/// What the selection of a version comes to that leads the interaction
/// from the state `before` to the state `after`. Without interaction it
/// is the automatic choice. With interaction it is what the last pick of
/// the user comes to, with the confirmation that the last answer of the
/// user gives; see [`chosen_version`].
pub open spec fn selected_version<S: VersionStrategy, P: Prompter>(
    strategy: &S,
    before: UpdateInteraction<P>,
    after: UpdateInteraction<P>,
    current: Seq<char>,
    entries: Seq<VersionEntryView>,
    stable_only: bool,
) -> Result<Option<Seq<char>>, GvcError> {
    if !before.enabled() {
        Ok(automatic_version(strategy, current, entries, stable_only))
    } else {
        match after.last_pick() {
            Some(pick) => chosen_version(strategy, current, entries, pick, before.confirmation(after)),
            None => Ok(None),
        }
    }
}

/// Whether a list is the list of the entries that a targeted update
/// offers: each candidate fits the document and the regular expression,
/// every entry that can be updated and that the expression matches is
/// there once, and the list is in display order.
pub open spec fn lists_the_candidates(document: TomlNode, regex: Seq<char>, list: Seq<CandidateView>) -> bool {
    &&& in_display_order(list)
    &&& all_candidates(document, regex, list)
    &&& one_for_each(list)
    &&& forall|section: Section| #[trigger] covers(document, regex, section, list)
}

/// The position of the entry that is updated, in a list of `count`
/// entries: the only entry of the list, or else what the choice of the
/// user comes to, as [`choice_outcome`] says. Nothing where the list is
/// empty.
pub open spec fn chosen_position(count: nat, choice: Option<CandidateChoice>) -> Result<
    Option<usize>,
    GvcError,
> {
    if count == 0 {
        Ok(None)
    } else if count == 1 {
        Ok(Some(0usize))
    } else {
        match choice {
            Some(choice) => choice_outcome(choice, count),
            None => Ok(None),
        }
    }
}

/// The report of a result.
pub open spec fn report_of(r: Result<UpdateReport, GvcError>) -> Result<ReportView, GvcError> {
    match r {
        Ok(report) => Ok(report@),
        Err(e) => Err(e),
    }
}

/// Whether a result and a document are what the selection of a version
/// for a candidate comes to. The end of the run is handed on. No
/// version, and the version that the entry has, give an empty report and
/// the document as it was. Any other version is written into the entry
/// and reported; where the entry cannot be edited, that is an error and
/// the document is as it was.
pub open spec fn selection_is_applied(
    before: TomlNode,
    c: CandidateView,
    selected: Result<Option<Seq<char>>, GvcError>,
    r: Result<ReportView, GvcError>,
    after: TomlNode,
) -> bool {
    match selected {
        Err(e) => r == Err::<ReportView, GvcError>(e) && after == before,
        Ok(None) => r == Ok::<ReportView, GvcError>(ReportView::empty()) && after == before,
        Ok(Some(version)) => if version == c.current_version {
            r == Ok::<ReportView, GvcError>(ReportView::empty()) && after == before
        } else {
            match with_target_version(before, c, version) {
                Some(changed) => r == Ok::<ReportView, GvcError>(single_change(c, version)) && after
                    == changed,
                None => r is Err && after == before,
            }
        },
    }
}

/// Whether a result and a document are what the update of a candidate
/// comes to, given the versions that its repository lists. Where no
/// version is offered, nothing is done. Otherwise the version that is
/// selected is applied: see [`selected_version`] and
/// [`selection_is_applied`].
pub open spec fn candidate_is_updated<S: VersionStrategy, P: Prompter>(
    strategy: &S,
    earlier: UpdateInteraction<P>,
    later: UpdateInteraction<P>,
    before: TomlNode,
    c: CandidateView,
    versions: Seq<Seq<char>>,
    stable_only: bool,
    r: Result<ReportView, GvcError>,
    after: TomlNode,
) -> bool {
    let entries = entries_of(versions, c.current_version, stable_only);
    if entries.len() == 0 {
        r == Ok::<ReportView, GvcError>(ReportView::empty()) && after == before
    } else {
        selection_is_applied(
            before,
            c,
            selected_version(strategy, earlier, later, c.current_version, entries, stable_only),
            r,
            after,
        )
    }
}

/// Whether a result and a document are what a targeted update comes to
/// for the list of entries that is offered. Where the list is empty or
/// the choice of the user is none, nothing is done; where the user
/// stops, the run ends. Otherwise the entry at the chosen position is
/// updated with the versions that its repository lists, as
/// [`candidate_is_updated`] says, unless the repository fails, which is
/// an error that leaves the document as it was.
pub open spec fn targeted_outcome<S: VersionStrategy, P: Prompter>(
    strategy: &S,
    earlier: UpdateInteraction<P>,
    later: UpdateInteraction<P>,
    before: TomlNode,
    list: Seq<CandidateView>,
    stable_only: bool,
    r: Result<ReportView, GvcError>,
    after: TomlNode,
) -> bool {
    match chosen_position(list.len(), later.last_choice()) {
        Err(e) => r == Err::<ReportView, GvcError>(e) && after == before,
        Ok(None) => r == Ok::<ReportView, GvcError>(ReportView::empty()) && after == before,
        Ok(Some(at)) => (r is Err && after == before) || exists|versions: Seq<Seq<char>>| #[trigger]
            candidate_is_updated(
                strategy,
                earlier,
                later,
                before,
                list[at as int],
                versions,
                stable_only,
                r,
                after,
            ),
    }
}

/// What the update of a candidate comes to does not hang on more of the
/// earlier state than on whether the user is asked.
pub proof fn lemma_outcome_hangs_on_asking<S: VersionStrategy, P: Prompter>(
    strategy: &S,
    first: UpdateInteraction<P>,
    second: UpdateInteraction<P>,
    later: UpdateInteraction<P>,
    before: TomlNode,
    c: CandidateView,
    versions: Seq<Seq<char>>,
    stable_only: bool,
    r: Result<ReportView, GvcError>,
    after: TomlNode,
)
    requires
        first.enabled() == second.enabled(),
        first.apply_all() == second.apply_all(),
    ensures
        candidate_is_updated(strategy, first, later, before, c, versions, stable_only, r, after)
            == candidate_is_updated(strategy, second, later, before, c, versions, stable_only, r, after),
{
}

/// The update of the entry at the chosen position is what a targeted
/// update comes to.
pub proof fn lemma_outcome_of_the_chosen<S: VersionStrategy, P: Prompter>(
    strategy: &S,
    earlier: UpdateInteraction<P>,
    later: UpdateInteraction<P>,
    before: TomlNode,
    list: Seq<CandidateView>,
    at: usize,
    stable_only: bool,
    r: Result<ReportView, GvcError>,
    after: TomlNode,
)
    requires
        chosen_position(list.len(), later.last_choice()) == Ok::<Option<usize>, GvcError>(Some(at)),
        (r is Err && after == before) || exists|versions: Seq<Seq<char>>| #[trigger]
            candidate_is_updated(
                strategy,
                earlier,
                later,
                before,
                list[at as int],
                versions,
                stable_only,
                r,
                after,
            ),
    ensures
        targeted_outcome(strategy, earlier, later, before, list, stable_only, r, after),
{
    let position = chosen_position(list.len(), later.last_choice());
    assert(position is Ok);
    assert(position->Ok_0 is Some);
    assert(position->Ok_0->0 == at);
    if !(r is Err && after == before) {
        let versions = choose|versions: Seq<Seq<char>>| #[trigger]
            candidate_is_updated(
                strategy,
                earlier,
                later,
                before,
                list[at as int],
                versions,
                stable_only,
                r,
                after,
            );
        assert(candidate_is_updated(
            strategy,
            earlier,
            later,
            before,
            list[position->Ok_0->0 as int],
            versions,
            stable_only,
            r,
            after,
        ));
    }
}

/// Updates one entry of the catalog that is picked by a pattern.
pub struct TargetedHandler<'a, C: RepositoryClient, D: RepositoryClient, S: VersionStrategy> {
    library_client: &'a C,
    plugin_client: &'a D,
    version_strategy: &'a S,
}

impl<'a, C: RepositoryClient, D: RepositoryClient, S: VersionStrategy> TargetedHandler<'a, C, D, S> {
    /// A handler that asks `library_client` for the versions of libraries
    /// and aliases, `plugin_client` for those of plugins and
    /// `version_strategy` whether a version is an upgrade.
    pub fn new(library_client: &'a C, plugin_client: &'a D, version_strategy: &'a S) -> (r: Self)
        ensures
            r.strategy() == version_strategy,
    {
        TargetedHandler { library_client, plugin_client, version_strategy }
    }

    /// The strategy that this handler decides by.
    pub closed spec fn strategy(&self) -> &S {
        self.version_strategy
    }

    /// Asks the repository of the candidate for all its versions and
    /// makes the list of versions that are offered. Whatever the
    /// repository answers, the list is made of its answer as
    /// [`entries_of`] says.
    pub fn fetch_versions_for_candidate(&self, candidate: &TargetCandidate, stable_only: bool) -> (r:
        Result<Vec<VersionEntry>, GvcError>)
        ensures
            match r {
                Ok(entries) => exists|versions: Seq<Seq<char>>|
                    entry_views(entries@) == entries_of(
                        versions,
                        candidate@.current_version,
                        stable_only,
                    ),
                Err(_) => true,
            },
    {
        let fetched = match &candidate.kind {
            TargetKind::Library { group, artifact } => {
                let coordinate = Coordinate::new(group.as_str(), artifact.as_str());
                self.library_client.fetch_available_versions(&coordinate)
            },
            TargetKind::VersionAlias { group, artifact } => {
                let coordinate = Coordinate::new(group.as_str(), artifact.as_str());
                self.library_client.fetch_available_versions(&coordinate)
            },
            TargetKind::Plugin { plugin_id } => {
                let coordinate = Coordinate::plugin(plugin_id.as_str());
                self.plugin_client.fetch_available_versions(&coordinate)
            },
        };
        match fetched {
            Ok(versions) => {
                let ghost all = texts(versions@);
                let entries = version_entries(versions, candidate.current_version.as_str(), stable_only);
                assert(entry_views(entries@) == entries_of(
                    all,
                    candidate@.current_version,
                    stable_only,
                ));
                Ok(entries)
            },
            Err(e) => Err(e),
        }
    }

    /// Chooses the version to move a candidate to. Without interaction
    /// the default version is taken where it is an upgrade. With
    /// interaction the user picks one of the offered versions, which is
    /// taken only if it is not the current one, is an upgrade and is
    /// confirmed; see [`chosen_version`]. Skipping, and picking the
    /// version that the entry has, leaves the entry as it is, without an
    /// error. After a pick that calls for asking again, and after one
    /// that is not confirmed, the user is asked again, as often as a
    /// machine number counts.
    pub fn select_version<P: Prompter>(
        &self,
        interaction: &mut UpdateInteraction<P>,
        candidate: &TargetCandidate,
        entries: &Vec<VersionEntry>,
        stable_only: bool,
    ) -> (r: Result<Option<String>, GvcError>)
        ensures
            final(interaction).enabled() == old(interaction).enabled(),
            (*old(interaction)).leads_to(*final(interaction)),
            (*old(interaction)).stop_is_told(*final(interaction), r),
            crate::toml_utils::optional_text_result(r) == selected_version(
                self.strategy(),
                *old(interaction),
                *final(interaction),
                candidate@.current_version,
                entry_views(entries@),
                stable_only,
            ),
            old(interaction).enabled() ==> final(interaction).last_pick() is Some,
            !old(interaction).enabled() ==> *final(interaction) == *old(interaction),
            final(interaction).last_choice() == old(interaction).last_choice(),
            match r {
                Ok(Some(version)) => self.strategy().upgrades(candidate@.current_version, version@),
                _ => true,
            },
    {
        let current = candidate.current_version.as_str();
        if !interaction.is_enabled() {
            return match select_default_version(entries, stable_only) {
                Some(version) => {
                    if self.version_strategy.is_upgrade(current, version.as_str()) {
                        Ok(Some(version))
                    } else {
                        Ok(None)
                    }
                },
                None => Ok(None),
            };
        }
        let display = candidate.display_name();
        let ghost views = entry_views(entries@);
        let mut rounds: usize = 0;
        while rounds < usize::MAX
            invariant
                views == entry_views(entries@),
                current@ == candidate@.current_version,
                display@ == display_name_of(candidate@),
                interaction.enabled(),
                interaction.enabled() == old(interaction).enabled(),
                interaction.apply_all() == old(interaction).apply_all(),
                interaction.cancelled() == old(interaction).cancelled(),
                interaction.last_choice() == old(interaction).last_choice(),
                (*old(interaction)).leads_to(*interaction),
                rounds > 0 ==> interaction.last_pick() is Some && chosen_version(
                    self.strategy(),
                    current@,
                    views,
                    interaction.last_pick()->0,
                    (*old(interaction)).confirmation(*interaction),
                ) == Ok::<Option<Seq<char>>, GvcError>(None),
            decreases usize::MAX - rounds,
        {
            let pick = interaction.choose_version(display.as_str(), current, entries);
            match settle_pick(self.version_strategy, current, entries, pick) {
                PickOutcome::Cancel => {
                    assert(crate::toml_utils::optional_text_result(
                        Err::<Option<String>, GvcError>(GvcError::UserCancelled),
                    ) == chosen_version(self.strategy(), current@, views, pick, Ok(true)));
                    return Err(GvcError::UserCancelled);
                },
                PickOutcome::Stay => {
                    assert(crate::toml_utils::optional_text_result(
                        Ok::<Option<String>, GvcError>(None),
                    ) == chosen_version(self.strategy(), current@, views, pick, Ok(true)));
                    return Ok(None);
                },
                PickOutcome::AskAgain => {},
                PickOutcome::Offer(at) => {
                    let entry = &entries[at];
                    assert(views[at as int] == entry@);
                    let confirmed = match &candidate.kind {
                        TargetKind::Plugin { .. } => interaction.confirm_plugin(
                            display.as_str(),
                            current,
                            entry.value.as_str(),
                        ),
                        _ => interaction.confirm_library(
                            display.as_str(),
                            current,
                            entry.value.as_str(),
                        ),
                    };
                    match confirmed {
                        Ok(true) => {
                            let r = Ok(Some(entry.value.clone()));
                            assert(crate::toml_utils::optional_text_result(r) == chosen_version(
                                self.strategy(),
                                current@,
                                views,
                                pick,
                                confirmed,
                            ));
                            return r;
                        },
                        Ok(false) => {},
                        Err(e) => {
                            assert(crate::toml_utils::optional_text_result(
                                Err::<Option<String>, GvcError>(e),
                            ) == chosen_version(self.strategy(), current@, views, pick, confirmed));
                            return Err(e);
                        },
                    }
                },
            }
            rounds += 1;
        }
        Ok(None)
    }

    /// Updates one entry whose name matches the pattern.
    ///
    /// The entries that match are collected; one is picked, by the user
    /// where there are several; the versions that its repository knows
    /// are offered; and the version that is chosen is written into the
    /// document. The report is empty and the document unchanged where
    /// nothing matches, nothing is offered, nothing is chosen or the
    /// current version is chosen. Otherwise the report holds the one
    /// change and the document is the document before with that change.
    /// An error leaves the document as it was. A pattern that is empty
    /// or cannot be read is refused; any other error is one of a
    /// repository or of the user who stops the run, and so there is
    /// none where the pattern picks no entry.
    ///
    /// Which entry is updated, and to which version, is decided by what
    /// the user answered, which the interaction holds afterwards: see
    /// [`targeted_outcome`].
    pub fn update<P: Prompter>(
        &self,
        interaction: &mut UpdateInteraction<P>,
        doc: &mut toml_edit::DocumentMut,
        stable_only: bool,
        pattern: &str,
    ) -> (r: Result<UpdateReport, GvcError>)
        ensures
            final(interaction).enabled() == old(interaction).enabled(),
            (*old(interaction)).leads_to(*final(interaction)),
            (*old(interaction)).stop_is_told(*final(interaction), r),
            !(trimmed(pattern@).len() == 0 || !regex_valid(pattern_regex(pattern@))) ==> exists|
                list: Seq<CandidateView>,
            |
                lists_the_candidates(document_node(*old(doc)), pattern_regex(pattern@), list)
                    && #[trigger] targeted_outcome(
                    self.strategy(),
                    *old(interaction),
                    *final(interaction),
                    document_node(*old(doc)),
                    list,
                    stable_only,
                    report_of(r),
                    document_node(*final(doc)),
                ),
            trimmed(pattern@).len() == 0 || !regex_valid(pattern_regex(pattern@)) ==> r is Err
                && r->Err_0 is ProjectValidation,
            r is Err ==> trimmed(pattern@).len() == 0 || !regex_valid(pattern_regex(pattern@))
                || picks_an_entry(document_node(*old(doc)), pattern_regex(pattern@)),
            match r {
                Ok(report) => {
                    ||| report@.is_empty() && document_node(*final(doc)) == document_node(*old(doc))
                    ||| exists|c: CandidateView, version: Seq<char>|
                        {
                            &&& regex_matches(pattern_regex(pattern@), c.name)
                            &&& describes(document_node(*old(doc)), c)
                            &&& version != c.current_version
                            &&& self.strategy().upgrades(c.current_version, version)
                            &&& report@ == single_change(c, version)
                            &&& with_target_version(document_node(*old(doc)), c, version) == Some(
                                document_node(*final(doc)),
                            )
                        }
                },
                Err(_) => *final(doc) == *old(doc),
            },
            r is Ok && r->Ok_0@.is_empty() ==> *final(doc) == *old(doc),
    {
        let matcher = match PatternMatcher::new(pattern) {
            Ok(matcher) => matcher,
            Err(e) => return Err(e),
        };
        let mut candidates = collect_candidates(doc.as_item(), &matcher);
        let ghost start = document_node(*doc);
        let ghost list = candidate_views(candidates@);
        let ghost empty = Ok::<ReportView, GvcError>(ReportView::empty());
        assert(lists_the_candidates(start, pattern_regex(pattern@), list));
        if candidates.len() == 0 {
            assert(targeted_outcome(
                self.strategy(),
                *old(interaction),
                *interaction,
                start,
                list,
                stable_only,
                empty,
                start,
            ));
            return Ok(UpdateReport::new());
        }
        proof {
            let first = candidate_views(candidates@)[0];
            assert(fits(document_node(*doc), matcher.regex(), first));
            assert(regex_matches(matcher.regex(), first.name) && describes(document_node(*doc), first))
                by {
                reveal(fits);
            }
            assert(picks_an_entry(document_node(*doc), pattern_regex(pattern@)));
        }
        let selected: usize = if candidates.len() == 1 {
            0
        } else {
            let mut lines: Vec<String> = Vec::new();
            let mut i: usize = 0;
            while i < candidates.len()
                invariant
                    i <= candidates.len(),
                    lines@.len() == i,
                decreases candidates.len() - i,
            {
                lines.push(candidates[i].describe_with_version());
                i += 1;
            }
            match settle_choice(interaction.choose_candidate(&lines), candidates.len()) {
                Ok(Some(at)) => at,
                Ok(None) => {
                    assert(targeted_outcome(
                        self.strategy(),
                        *old(interaction),
                        *interaction,
                        start,
                        list,
                        stable_only,
                        empty,
                        start,
                    ));
                    return Ok(UpdateReport::new());
                },
                Err(e) => {
                    assert(targeted_outcome(
                        self.strategy(),
                        *old(interaction),
                        *interaction,
                        start,
                        list,
                        stable_only,
                        Err::<ReportView, GvcError>(e),
                        start,
                    ));
                    return Err(e);
                },
            }
        };
        assert(chosen_position(list.len(), interaction.last_choice()) == Ok::<
            Option<usize>,
            GvcError,
        >(Some(selected)));
        assert(candidate_views(candidates@)[selected as int] == candidates@[selected as int]@);
        assert(fits(document_node(*doc), matcher.regex(), candidates@[selected as int]@));
        proof {
            reveal(fits);
        }
        let candidate = candidates.remove(selected);
        assert(candidate@ == list[selected as int]);
        let ghost asked = *interaction;
        let r = self.update_candidate(interaction, doc, &candidate, stable_only);
        proof {
            let told = report_of(r);
            let after = document_node(*doc);
            if !(r is Err && after == start) {
                let versions = choose|versions: Seq<Seq<char>>| #[trigger]
                    candidate_is_updated(
                        self.strategy(),
                        asked,
                        *interaction,
                        start,
                        candidate@,
                        versions,
                        stable_only,
                        told,
                        after,
                    );
                lemma_outcome_hangs_on_asking(
                    self.strategy(),
                    asked,
                    *old(interaction),
                    *interaction,
                    start,
                    candidate@,
                    versions,
                    stable_only,
                    told,
                    after,
                );
                assert(candidate_is_updated(
                    self.strategy(),
                    *old(interaction),
                    *interaction,
                    start,
                    list[selected as int],
                    versions,
                    stable_only,
                    told,
                    after,
                ));
            }
            lemma_outcome_of_the_chosen(
                self.strategy(),
                *old(interaction),
                *interaction,
                start,
                list,
                selected,
                stable_only,
                told,
                after,
            );
        }
        r
    }

    /// Updates the entry of a candidate: the versions that its
    /// repository knows are offered, and the version that is selected is
    /// written into the document. See [`candidate_is_updated`].
    fn update_candidate<P: Prompter>(
        &self,
        interaction: &mut UpdateInteraction<P>,
        doc: &mut toml_edit::DocumentMut,
        candidate: &TargetCandidate,
        stable_only: bool,
    ) -> (r: Result<UpdateReport, GvcError>)
        ensures
            final(interaction).enabled() == old(interaction).enabled(),
            final(interaction).last_choice() == old(interaction).last_choice(),
            (*old(interaction)).leads_to(*final(interaction)),
            (*old(interaction)).stop_is_told(*final(interaction), r),
            (r is Err && document_node(*final(doc)) == document_node(*old(doc))) || exists|
                versions: Seq<Seq<char>>,
            | #[trigger]
                candidate_is_updated(
                    self.strategy(),
                    *old(interaction),
                    *final(interaction),
                    document_node(*old(doc)),
                    candidate@,
                    versions,
                    stable_only,
                    report_of(r),
                    document_node(*final(doc)),
                ),
            match r {
                Ok(report) => {
                    ||| report@.is_empty() && document_node(*final(doc)) == document_node(*old(doc))
                    ||| exists|version: Seq<char>|
                        {
                            &&& version != candidate@.current_version
                            &&& self.strategy().upgrades(candidate@.current_version, version)
                            &&& report@ == #[trigger] single_change(candidate@, version)
                            &&& with_target_version(document_node(*old(doc)), candidate@, version)
                                == Some(document_node(*final(doc)))
                        }
                },
                Err(_) => *final(doc) == *old(doc),
            },
            r is Ok && r->Ok_0@.is_empty() ==> *final(doc) == *old(doc),
    {
        let ghost start = document_node(*doc);
        let ghost empty = Ok::<ReportView, GvcError>(ReportView::empty());
        let entries = match self.fetch_versions_for_candidate(candidate, stable_only) {
            Ok(entries) => entries,
            Err(e) => return Err(e),
        };
        let ghost versions = choose|versions: Seq<Seq<char>>|
            entry_views(entries@) == entries_of(versions, candidate@.current_version, stable_only);
        assert(entry_views(entries@).len() == entries@.len());
        if entries.len() == 0 {
            assert(candidate_is_updated(
                self.strategy(),
                *old(interaction),
                *interaction,
                start,
                candidate@,
                versions,
                stable_only,
                empty,
                start,
            ));
            return Ok(UpdateReport::new());
        }
        let chosen = match self.select_version(interaction, candidate, &entries, stable_only) {
            Ok(Some(version)) => version,
            Ok(None) => {
                assert(candidate_is_updated(
                    self.strategy(),
                    *old(interaction),
                    *interaction,
                    start,
                    candidate@,
                    versions,
                    stable_only,
                    empty,
                    start,
                ));
                return Ok(UpdateReport::new());
            },
            Err(e) => {
                assert(candidate_is_updated(
                    self.strategy(),
                    *old(interaction),
                    *interaction,
                    start,
                    candidate@,
                    versions,
                    stable_only,
                    Err::<ReportView, GvcError>(e),
                    start,
                ));
                return Err(e);
            },
        };
        if same_text(chosen.as_str(), candidate.current_version.as_str()) {
            assert(candidate_is_updated(
                self.strategy(),
                *old(interaction),
                *interaction,
                start,
                candidate@,
                versions,
                stable_only,
                empty,
                start,
            ));
            return Ok(UpdateReport::new());
        }
        let mut report = UpdateReport::new();
        proof {
            lemma_first_change(candidate@, chosen@);
        }
        match apply_update(doc, candidate, chosen.as_str(), &mut report) {
            Ok(()) => {
                assert(candidate_is_updated(
                    self.strategy(),
                    *old(interaction),
                    *interaction,
                    start,
                    candidate@,
                    versions,
                    stable_only,
                    Ok::<ReportView, GvcError>(report@),
                    document_node(*doc),
                ));
                Ok(report)
            },
            Err(e) => Err(e),
        }
    }
}

} // verus!
