//! The catalog as plain data, and the comparison of two catalogs.

use crate::text::same_text;
use vstd::prelude::*;

verus! {

/// A version as an entry gives it: a literal, or the name of an alias.
#[derive(Debug, Clone, PartialEq, Eq)]
pub enum VersionRef {
    Direct(String),
    Reference { version_ref: String },
}

/// A library entry as plain data.
#[derive(Debug, Clone, PartialEq, Eq)]
pub enum LibrarySpec {
    Simple(String),
    Detailed { module: Option<String>, version: Option<VersionRef> },
}

/// A plugin entry as plain data.
#[derive(Debug, Clone, PartialEq, Eq)]
pub enum PluginSpec {
    Simple(String),
    Detailed { id: String, version: Option<VersionRef> },
}

/// A catalog as plain data: each section, where it is there, as the
/// list of its entries by name.
#[derive(Debug, Clone, PartialEq, Eq)]
pub struct VersionCatalog {
    pub versions: Option<Vec<(String, String)>>,
    pub libraries: Option<Vec<(String, LibrarySpec)>>,
    pub plugins: Option<Vec<(String, PluginSpec)>>,
}

/// The change of one entry between two catalogs.
#[derive(Debug, Clone, PartialEq, Eq)]
pub struct DependencyUpdate {
    pub name: String,
    pub old_version: String,
    pub new_version: String,
}

/// The changes between two catalogs, by section.
#[derive(Debug, Clone)]
pub struct UpdateSummary {
    pub updated_versions: Vec<DependencyUpdate>,
    pub updated_libraries: Vec<DependencyUpdate>,
    pub updated_plugins: Vec<DependencyUpdate>,
}

impl UpdateSummary {
    /// Tells whether nothing changed.
    pub fn is_empty(&self) -> (r: bool)
        ensures
            r == (self.updated_versions@.len() == 0 && self.updated_libraries@.len() == 0
                && self.updated_plugins@.len() == 0),
    {
        self.updated_versions.is_empty() && self.updated_libraries.is_empty()
            && self.updated_plugins.is_empty()
    }

    /// The number of changes, in all sections together.
    pub fn total_updates(&self) -> (r: usize)
        requires
            self.updated_versions@.len() + self.updated_libraries@.len() + self.updated_plugins@.len()
                <= usize::MAX,
        ensures
            r == self.updated_versions@.len() + self.updated_libraries@.len()
                + self.updated_plugins@.len(),
    {
        self.updated_versions.len() + self.updated_libraries.len() + self.updated_plugins.len()
    }
}

/// The names and values of a list of aliases.
pub open spec fn pairs_of(list: Seq<(String, String)>) -> Seq<(Seq<char>, Seq<char>)> {
    Seq::new(list.len(), |i: int| (list[i].0@, list[i].1@))
}

/// The value of the first alias of this name.
pub open spec fn value_of(list: Seq<(Seq<char>, Seq<char>)>, name: Seq<char>) -> Option<Seq<char>>
    decreases list.len(),
{
    if list.len() == 0 {
        None
    } else if list[0].0 == name {
        Some(list[0].1)
    } else {
        value_of(list.skip(1), name)
    }
}

/// The aliases of `after`, in its order, that `before` has with another
/// value: each with its name, its value before and its value after.
pub open spec fn changed_aliases(
    before: Seq<(Seq<char>, Seq<char>)>,
    after: Seq<(Seq<char>, Seq<char>)>,
) -> Seq<(Seq<char>, Seq<char>, Seq<char>)>
    decreases after.len(),
{
    if after.len() == 0 {
        Seq::empty()
    } else {
        let earlier = changed_aliases(before, after.drop_last());
        let (name, value) = after.last();
        match value_of(before, name) {
            Some(old_value) => if old_value != value {
                earlier.push((name, old_value, value))
            } else {
                earlier
            },
            None => earlier,
        }
    }
}

/// The names and versions of a list of changes.
pub open spec fn updates_of(list: Seq<DependencyUpdate>) -> Seq<(Seq<char>, Seq<char>, Seq<char>)> {
    Seq::new(list.len(), |i: int| (list[i].name@, list[i].old_version@, list[i].new_version@))
}

/// Finds the value of the first alias of this name.
fn find_value<'a>(list: &'a Vec<(String, String)>, name: &str) -> (r: Option<&'a String>)
    ensures
        match r {
            Some(value) => value_of(pairs_of(list@), name@) == Some(value@),
            None => value_of(pairs_of(list@), name@) is None,
        },
{
    let ghost pairs = pairs_of(list@);
    let mut i: usize = 0;
    assert(pairs.skip(0) =~= pairs);
    while i < list.len()
        invariant
            i <= list.len(),
            pairs == pairs_of(list@),
            value_of(pairs, name@) == value_of(pairs.skip(i as int), name@),
        decreases list.len() - i,
    {
        proof {
            assert(pairs.skip(i as int)[0] == pairs[i as int]);
            assert(pairs[i as int] == (list@[i as int].0@, list@[i as int].1@));
            assert(pairs.skip(i as int).skip(1) =~= pairs.skip(i + 1));
        }
        if same_text(list[i].0.as_str(), name) {
            return Some(&list[i].1);
        }
        i += 1;
    }
    None
}

/// Reads and compares catalogs as plain data.
pub struct TomlParserAgent;

impl TomlParserAgent {
    /// An agent.
    pub fn new() -> (r: Self) {
        TomlParserAgent
    }

    /// Compares two catalogs: the aliases of `after` that `before` has
    /// with another value, in the order of `after`. Libraries and
    /// plugins are not compared. Where one of the catalogs has no
    /// `[versions]` section there is no change.
    pub fn compare_catalogs(&self, before: &VersionCatalog, after: &VersionCatalog) -> (r:
        UpdateSummary)
        ensures
            r.updated_libraries@.len() == 0,
            r.updated_plugins@.len() == 0,
            updates_of(r.updated_versions@) == match (before.versions, after.versions) {
                (Some(b), Some(a)) => changed_aliases(pairs_of(b@), pairs_of(a@)),
                _ => Seq::empty(),
            },
    {
        let mut updated_versions: Vec<DependencyUpdate> = Vec::new();
        assert(updates_of(updated_versions@) =~= Seq::empty());
        match (&before.versions, &after.versions) {
            (Some(before_versions), Some(after_versions)) => {
                let ghost b = pairs_of(before_versions@);
                let ghost a = pairs_of(after_versions@);
                let mut i: usize = 0;
                assert(a.take(0) =~= Seq::<(Seq<char>, Seq<char>)>::empty());
                while i < after_versions.len()
                    invariant
                        i <= after_versions.len(),
                        b == pairs_of(before_versions@),
                        a == pairs_of(after_versions@),
                        updates_of(updated_versions@) == changed_aliases(b, a.take(i as int)),
                    decreases after_versions.len() - i,
                {
                    let name = after_versions[i].0.as_str();
                    let value = after_versions[i].1.as_str();
                    proof {
                        let upto = a.take(i + 1);
                        assert(upto.drop_last() =~= a.take(i as int));
                        assert(upto.last() == (name@, value@));
                    }
                    if let Some(old_value) = find_value(before_versions, name) {
                        if !same_text(old_value.as_str(), value) {
                            let ghost earlier = updates_of(updated_versions@);
                            updated_versions.push(
                                DependencyUpdate {
                                    name: name.to_owned(),
                                    old_version: old_value.clone(),
                                    new_version: value.to_owned(),
                                },
                            );
                            assert(updates_of(updated_versions@) =~= earlier.push(
                                (name@, old_value@, value@),
                            ));
                        }
                    }
                    i += 1;
                }
                assert(a.take(after_versions.len() as int) =~= a);
            },
            _ => {},
        }
        UpdateSummary {
            updated_versions,
            updated_libraries: Vec::new(),
            updated_plugins: Vec::new(),
        }
    }
}

} // verus!
