//! What the update handlers ask of the outside world: a client that knows
//! the versions of a coordinate, and a strategy that tells which version
//! is an upgrade.

use crate::error::GvcError;
use crate::text::texts;
use crate::version::{latest_index, newer, VersionComparator};
use vstd::prelude::*;

verus! {

/// What a library or a plugin is looked up by in a package repository.
#[derive(Debug, Clone, PartialEq, Eq)]
pub struct Coordinate {
    pub group: String,
    pub artifact: String,
}

/// The mathematical value of a [`Coordinate`].
pub struct CoordinateView {
    pub group: Seq<char>,
    pub artifact: Seq<char>,
}

impl View for Coordinate {
    type V = CoordinateView;

    open spec fn view(&self) -> CoordinateView {
        CoordinateView { group: self.group@, artifact: self.artifact@ }
    }
}

impl Coordinate {
    /// The coordinate of a library.
    pub fn new(group: &str, artifact: &str) -> (r: Coordinate)
        ensures
            r@ == (CoordinateView { group: group@, artifact: artifact@ }),
    {
        Coordinate { group: group.to_owned(), artifact: artifact.to_owned() }
    }

    /// The coordinate of a plugin: its identifier is both group and
    /// artifact.
    pub fn plugin(plugin_id: &str) -> (r: Coordinate)
        ensures
            r@ == (CoordinateView { group: plugin_id@, artifact: plugin_id@ }),
    {
        Coordinate { group: plugin_id.to_owned(), artifact: plugin_id.to_owned() }
    }
}

/// A source of versions. What it answers is decided outside this crate,
/// so nothing is promised of it: the handlers are proved for every
/// answer.
pub trait RepositoryClient {
    /// All the versions of a coordinate, newest first.
    fn fetch_available_versions(&self, coordinate: &Coordinate) -> Result<Vec<String>, GvcError>;

    /// The latest version of a coordinate, among the stable ones only
    /// where `stable_only` is set; `None` where no version is known.
    fn fetch_latest_version(&self, coordinate: &Coordinate, stable_only: bool) -> Result<
        Option<String>,
        GvcError,
    >;
}

/// The rule that tells which version is the latest and which one is an
/// upgrade. A strategy decides by the texts alone.
pub trait VersionStrategy {
    /// Whether this strategy takes `candidate` for an upgrade of
    /// `current`.
    spec fn upgrades(&self, current: Seq<char>, candidate: Seq<char>) -> bool;

    /// The position in `versions` of the version this strategy takes for
    /// the latest one, or `-1`.
    spec fn latest(&self, versions: Seq<Seq<char>>, stable_only: bool) -> int;

    /// Picks the latest version of a list.
    fn select_latest(&self, versions: &[String], stable_only: bool) -> (r: Option<String>)
        ensures
            match r {
                Some(text) => {
                    &&& 0 <= self.latest(texts(versions@), stable_only) < versions.len()
                    &&& text@ == versions@[self.latest(texts(versions@), stable_only)]@
                },
                None => self.latest(texts(versions@), stable_only) == -1,
            },
    ;

    /// Tells whether `candidate` is an upgrade of `current`.
    fn is_upgrade(&self, current: &str, candidate: &str) -> (r: bool)
        ensures
            r == self.upgrades(current@, candidate@),
    ;
}

/// The strategy of the version model: the latest version is the greatest
/// one, and an upgrade is a version that is newer.
#[derive(Debug, Default)]
pub struct DefaultVersionStrategy;

impl VersionStrategy for DefaultVersionStrategy {
    open spec fn upgrades(&self, current: Seq<char>, candidate: Seq<char>) -> bool {
        newer(candidate, current)
    }

    open spec fn latest(&self, versions: Seq<Seq<char>>, stable_only: bool) -> int {
        latest_index(versions, stable_only)
    }

    fn select_latest(&self, versions: &[String], stable_only: bool) -> (r: Option<String>) {
        VersionComparator::get_latest(versions, stable_only)
    }

    fn is_upgrade(&self, current: &str, candidate: &str) -> (r: bool) {
        VersionComparator::is_newer(candidate, current)
    }
}

impl DefaultVersionStrategy {
    /// The strategy that the handlers use unless told otherwise.
    pub fn shared() -> (r: DefaultVersionStrategy)
        ensures
            r == DefaultVersionStrategy,
    {
        DefaultVersionStrategy
    }
}

} // verus!
