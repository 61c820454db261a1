//! The decision that all handlers share: whether the version that a
//! repository reports is to replace the current one.

use crate::error::GvcError;
use crate::repository::{Coordinate, RepositoryClient, VersionStrategy};
use crate::text::same_text;
use vstd::prelude::*;

verus! {

/// The version to move to, given what the repository reported as the
/// latest one: the reported version, where it differs from the current
/// one and the strategy takes it for an upgrade.
pub open spec fn upgrade_target<S: VersionStrategy>(
    strategy: &S,
    current: Seq<char>,
    fetched: Option<Seq<char>>,
) -> Option<Seq<char>> {
    match fetched {
        Some(latest) => if latest != current && strategy.upgrades(current, latest) {
            Some(latest)
        } else {
            None
        },
        None => None,
    }
}

/// Decides whether the version that a repository reported replaces the
/// current one.
pub fn choose_upgrade<S: VersionStrategy>(strategy: &S, current: &str, fetched: Option<String>) -> (r:
    Option<String>)
    ensures
        crate::toml_utils::optional_text(r) == upgrade_target(
            strategy,
            current@,
            crate::toml_utils::optional_text(fetched),
        ),
{
    match fetched {
        Some(latest) => {
            if !same_text(latest.as_str(), current) && strategy.is_upgrade(current, latest.as_str()) {
                Some(latest)
            } else {
                None
            }
        },
        None => None,
    }
}

/// Asks the client for the latest version of a coordinate and decides
/// whether it replaces the current one. Whatever the client answers, a
/// version that is handed back differs from the current one and is an
/// upgrade of it; an error of the client is handed on.
pub fn find_upgrade<C: RepositoryClient, S: VersionStrategy>(
    client: &C,
    strategy: &S,
    coordinate: &Coordinate,
    current: &str,
    stable_only: bool,
) -> (r: Result<Option<String>, GvcError>)
    ensures
        match r {
            Ok(Some(latest)) => latest@ != current@ && strategy.upgrades(current@, latest@),
            _ => true,
        },
{
    match client.fetch_latest_version(coordinate, stable_only) {
        Ok(fetched) => Ok(choose_upgrade(strategy, current, fetched)),
        Err(e) => Err(e),
    }
}

} // verus!
