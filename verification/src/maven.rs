//! Maven coordinates and the resolver that asks package repositories for
//! the versions of a coordinate.

use crate::error::GvcError;
use crate::gradle::{default_repositories, repository_views, Repository, RepositoryView};
use crate::order::Precedence;
use crate::pattern::{regex_is_match, regex_matches, regex_valid};
use crate::repository::{Coordinate, RepositoryClient};
use crate::text::{chars_of, rows, same_text, split_on, split_text, text_of, texts};
use crate::version::{
    compare_views, eligible, latest_index, lemma_latest_index, parse_spec, Version,
    VersionComparator,
};
use vstd::prelude::*;

verus! {

/// The parts of a coordinate text: `group:artifact` or
/// `group:artifact:version`. A text with fewer or more parts is no
/// coordinate.
pub open spec fn coordinate_parts(text: Seq<char>) -> Option<
    (Seq<char>, Seq<char>, Option<Seq<char>>),
> {
    let parts = split_on(text, ':');
    if parts.len() == 2 {
        Some((parts[0], parts[1], None))
    } else if parts.len() == 3 {
        Some((parts[0], parts[1], Some(parts[2])))
    } else {
        None
    }
}

/// The views of the parts of a coordinate.
pub open spec fn coordinate_view(parts: (String, String, Option<String>)) -> (
    Seq<char>,
    Seq<char>,
    Option<Seq<char>>,
) {
    (
        parts.0@,
        parts.1@,
        match parts.2 {
            Some(v) => Some(v@),
            None => None,
        },
    )
}

/// Splits a Maven coordinate such as `com.example:artifact:1.0.0` into
/// group, artifact and, where it is given, version.
pub fn parse_maven_coordinate(coordinate: &str) -> (r: Option<(String, String, Option<String>)>)
    ensures
        match r {
            Some(parts) => coordinate_parts(coordinate@) == Some(coordinate_view(parts)),
            None => coordinate_parts(coordinate@) is None,
        },
{
    let parts = split_text(coordinate, ':');
    proof {
        assert(rows(parts@).len() == parts@.len());
        if parts@.len() >= 2 {
            assert(rows(parts@)[0] == parts@[0]@);
            assert(rows(parts@)[1] == parts@[1]@);
        }
        if parts@.len() >= 3 {
            assert(rows(parts@)[2] == parts@[2]@);
        }
    }
    if parts.len() == 2 {
        Some((text_of(&parts[0]), text_of(&parts[1]), None))
    } else if parts.len() == 3 {
        Some((text_of(&parts[0]), text_of(&parts[1]), Some(text_of(&parts[2]))))
    } else {
        None
    }
}

/// The host of a URL.
#[derive(Debug, Clone, PartialEq, Eq)]
pub enum UrlHost {
    /// The URL has no host.
    Missing,
    /// A domain name.
    Domain(String),
    /// An IPv4 address, by its four bytes.
    Ipv4([u8; 4]),
    /// An IPv6 address, by its eight segments.
    Ipv6([u16; 8]),
}

/// The mathematical value of a [`UrlHost`].
pub enum UrlHostView {
    Missing,
    Domain(Seq<char>),
    Ipv4(Seq<u8>),
    Ipv6(Seq<u16>),
}

impl View for UrlHost {
    type V = UrlHostView;

    open spec fn view(&self) -> UrlHostView {
        match self {
            UrlHost::Missing => UrlHostView::Missing,
            UrlHost::Domain(d) => UrlHostView::Domain(d@),
            UrlHost::Ipv4(a) => UrlHostView::Ipv4(a@),
            UrlHost::Ipv6(a) => UrlHostView::Ipv6(a@),
        }
    }
}

/// What the logic reads of a URL: its scheme, its host, and the host as
/// it is written in the URL.
#[derive(Debug, Clone, PartialEq, Eq)]
pub struct UrlParts {
    pub scheme: String,
    pub host: UrlHost,
    pub host_text: Option<String>,
}

/// The mathematical value of a [`UrlParts`].
pub struct UrlPartsView {
    pub scheme: Seq<char>,
    pub host: UrlHostView,
    pub host_text: Option<Seq<char>>,
}

impl View for UrlParts {
    type V = UrlPartsView;

    open spec fn view(&self) -> UrlPartsView {
        UrlPartsView {
            scheme: self.scheme@,
            host: self.host@,
            host_text: match self.host_text {
                Some(text) => Some(text@),
                None => None,
            },
        }
    }
}

/// What `Url::parse` makes of a text: its scheme, its host and the host
/// as text, or nothing where the text is no URL. An IPv4 host has four
/// bytes and an IPv6 host eight segments.
pub uninterp spec fn parsed_url(text: Seq<char>) -> Option<UrlPartsView>;

/// Parses a text with `Url::parse` and hands out `Url::scheme`,
/// `Url::host`, the addresses by `octets` and `segments`, and
/// `Url::host_str`; an error becomes `None`.
#[verifier::external_body]
fn url_parts(text: &str) -> (r: Option<UrlParts>)
    ensures
        match r {
            Some(parts) => parsed_url(text@) == Some(parts@),
            None => parsed_url(text@) is None,
        },
{
    let url = url::Url::parse(text).ok()?;
    let host = match url.host() {
        None => UrlHost::Missing,
        Some(url::Host::Domain(d)) => UrlHost::Domain(d.to_string()),
        Some(url::Host::Ipv4(a)) => UrlHost::Ipv4(a.octets()),
        Some(url::Host::Ipv6(a)) => UrlHost::Ipv6(a.segments()),
    };
    let host_text = url.host_str().map(|h| h.to_string());
    Some(UrlParts { scheme: url.scheme().to_string(), host, host_text })
}

/// A letter of the ASCII alphabet in lower case; any other character as
/// it is.
pub open spec fn ascii_lower(c: char) -> char {
    if 'A' <= c <= 'Z' {
        ((c as u32 + 32) as u8) as char
    } else {
        c
    }
}

/// A text with its ASCII letters in lower case.
pub open spec fn ascii_lowered(s: Seq<char>) -> Seq<char> {
    Seq::new(s.len(), |i: int| ascii_lower(s[i]))
}

/// Puts the ASCII letters of a text in lower case.
pub fn to_ascii_lower(s: &str) -> (r: String)
    ensures
        r@ == ascii_lowered(s@),
{
    let chars = chars_of(s);
    let mut out: Vec<char> = Vec::new();
    let mut i: usize = 0;
    while i < chars.len()
        invariant
            i <= chars.len(),
            out@ == ascii_lowered(chars@).take(i as int),
        decreases chars.len() - i,
    {
        let c = chars[i];
        let lower = if 'A' <= c && c <= 'Z' {
            ((c as u32 + 32) as u8) as char
        } else {
            c
        };
        out.push(lower);
        assert(out@ =~= ascii_lowered(chars@).take(i + 1));
        i += 1;
    }
    assert(ascii_lowered(chars@).take(chars.len() as int) =~= ascii_lowered(chars@));
    text_of(&out)
}

/// Whether an IPv4 address is private or loopback: `10.0.0.0/8`,
/// `172.16.0.0/12`, `192.168.0.0/16` or `127.0.0.0/8`.
pub open spec fn is_private_v4(a: Seq<u8>) -> bool {
    a.len() == 4 && (a[0] == 10 || (a[0] == 172 && 16 <= a[1] <= 31) || (a[0] == 192 && a[1] == 168)
        || a[0] == 127)
}

/// Whether an IPv6 address is the loopback address `::1` or a unique
/// local address of `fc00::/7`.
pub open spec fn is_private_v6(a: Seq<u16>) -> bool {
    a.len() == 8 && ((a[0] == 0 && a[1] == 0 && a[2] == 0 && a[3] == 0 && a[4] == 0 && a[5] == 0
        && a[6] == 0 && a[7] == 1) || 0xfc00 <= a[0] <= 0xfdff)
}

/// Whether a host is one that the resolver refuses to ask: `localhost`
/// or a private or loopback address.
pub open spec fn is_private(host: UrlHostView) -> bool {
    match host {
        UrlHostView::Missing => false,
        UrlHostView::Domain(d) => ascii_lowered(d) == "localhost"@,
        UrlHostView::Ipv4(a) => is_private_v4(a),
        UrlHostView::Ipv6(a) => is_private_v6(a),
    }
}

/// Whether the URL of a repository is accepted: it is a URL, its scheme
/// is `http` or `https`, and its host is not private.
pub open spec fn url_accepted(text: Seq<char>) -> bool {
    match parsed_url(text) {
        Some(parts) => (parts.scheme == "https"@ || parts.scheme == "http"@) && !is_private(parts.host),
        None => false,
    }
}

/// Tells whether a host is one that the resolver refuses to ask.
pub fn is_private_host(host: &UrlHost) -> (r: bool)
    ensures
        r == is_private(host@),
{
    match host {
        UrlHost::Missing => false,
        UrlHost::Domain(d) => {
            let lower = to_ascii_lower(d.as_str());
            same_text(lower.as_str(), "localhost")
        },
        UrlHost::Ipv4(a) => {
            a[0] == 10 || (a[0] == 172 && 16 <= a[1] && a[1] <= 31) || (a[0] == 192 && a[1] == 168)
                || a[0] == 127
        },
        UrlHost::Ipv6(a) => {
            (a[0] == 0 && a[1] == 0 && a[2] == 0 && a[3] == 0 && a[4] == 0 && a[5] == 0 && a[6] == 0
                && a[7] == 1) || (0xfc00 <= a[0] && a[0] <= 0xfdff)
        },
    }
}

/// The message with which the URL of a repository is refused: it names
/// the text that is no URL, the scheme that is not taken, or the host
/// that is not asked.
pub open spec fn url_refusal(text: Seq<char>) -> Seq<char> {
    match parsed_url(text) {
        None => "Invalid repository URL: "@ + text,
        Some(parts) => if !(parts.scheme == "https"@ || parts.scheme == "http"@) {
            "Unsupported repository scheme: "@ + parts.scheme
        } else {
            "Repository host '"@ + match parts.host_text {
                Some(host) => host,
                None => Seq::empty(),
            } + "' is not allowed"@
        },
    }
}

/// Checks the URL of a repository before anything is asked of it.
pub fn validate_repository_url(url: &str) -> (r: Result<(), GvcError>)
    ensures
        r is Ok <==> url_accepted(url@),
        r is Err ==> r->Err_0 is ProjectValidation && r->Err_0->ProjectValidation_0@ == url_refusal(
            url@,
        ),
{
    let parts = match url_parts(url) {
        Some(parts) => parts,
        None => {
            let mut message = "Invalid repository URL: ".to_owned();
            message.append(url);
            return Err(GvcError::ProjectValidation(message));
        },
    };
    if !(same_text(parts.scheme.as_str(), "https") || same_text(parts.scheme.as_str(), "http")) {
        let mut message = "Unsupported repository scheme: ".to_owned();
        message.append(parts.scheme.as_str());
        return Err(GvcError::ProjectValidation(message));
    }
    if is_private_host(&parts.host) {
        let mut message = "Repository host '".to_owned();
        match &parts.host_text {
            Some(host) => {
                message.append(host.as_str());
            },
            None => {
                assert(message@ + Seq::<char>::empty() =~= message@);
            },
        }
        message.append("' is not allowed");
        return Err(GvcError::ProjectValidation(message));
    }
    Ok(())
}

/// Whether every repository of a list has an accepted URL.
pub open spec fn all_accepted(list: Seq<RepositoryView>) -> bool {
    forall|i: int| 0 <= i < list.len() ==> url_accepted((#[trigger] list[i]).url)
}

/// Checks the URLs of all repositories.
pub fn ensure_valid_repositories(repositories: Vec<Repository>) -> (r: Result<
    Vec<Repository>,
    GvcError,
>)
    ensures
        match r {
            Ok(list) => list == repositories && all_accepted(repository_views(repositories@)),
            Err(e) => e is ProjectValidation && !all_accepted(repository_views(repositories@)),
        },
{
    let mut i: usize = 0;
    while i < repositories.len()
        invariant
            i <= repositories.len(),
            forall|k: int|
                0 <= k < i ==> url_accepted((#[trigger] repository_views(repositories@)[k]).url),
        decreases repositories.len() - i,
    {
        assert(repository_views(repositories@)[i as int] == repositories@[i as int]@);
        match validate_repository_url(repositories[i].url.as_str()) {
            Ok(()) => {},
            Err(e) => {
                return Err(e);
            },
        }
        i += 1;
    }
    Ok(repositories)
}

/// Whether a repository serves a group: it has no filter, or one of its
/// filters is a regular expression that matches the group.
pub open spec fn applies_to(repository: RepositoryView, group: Seq<char>) -> bool {
    repository.group_filters.len() == 0 || matches_some(repository.group_filters, group)
}

/// Whether one of the filters is a regular expression that matches the
/// group. A filter that is no regular expression matches nothing.
pub open spec fn matches_some(filters: Seq<Seq<char>>, group: Seq<char>) -> bool {
    exists|i: int|
        0 <= i < filters.len() && regex_valid(#[trigger] filters[i]) && regex_matches(filters[i], group)
}

/// Tells whether one of the filters matches the group.
pub fn matches_filters(group: &str, filters: &Vec<String>) -> (r: bool)
    ensures
        r == matches_some(texts(filters@), group@),
{
    let mut i: usize = 0;
    while i < filters.len()
        invariant
            i <= filters.len(),
            forall|k: int|
                0 <= k < i ==> !(regex_valid(#[trigger] texts(filters@)[k]) && regex_matches(
                    texts(filters@)[k],
                    group@,
                )),
        decreases filters.len() - i,
    {
        assert(texts(filters@)[i as int] == filters@[i as int]@);
        match regex_is_match(filters[i].as_str(), group) {
            Ok(true) => {
                return true;
            },
            _ => {},
        }
        i += 1;
    }
    false
}

/// Tells whether a repository serves a group.
pub fn repository_applies(repository: &Repository, group: &str) -> (r: bool)
    ensures
        r == applies_to(repository@, group@),
{
    repository.group_filters.len() == 0 || matches_filters(group, &repository.group_filters)
}

/// A text with every `from` replaced by `to`.
pub open spec fn replaced(s: Seq<char>, from: char, to: char) -> Seq<char> {
    Seq::new(
        s.len(),
        |i: int|
            if s[i] == from {
                to
            } else {
                s[i]
            },
    )
}

/// The address of the metadata of a coordinate in a repository: the URL
/// of the repository, the group with its dots as slashes, the artifact
/// and the name of the metadata file.
pub open spec fn metadata_address(repo_url: Seq<char>, group: Seq<char>, artifact: Seq<char>) -> Seq<
    char,
> {
    repo_url + "/"@ + replaced(group, '.', '/') + "/"@ + artifact + "/maven-metadata.xml"@
}

/// Writes the address of the metadata of a coordinate in a repository.
pub fn metadata_url(repo_url: &str, group: &str, artifact: &str) -> (r: String)
    ensures
        r@ == metadata_address(repo_url@, group@, artifact@),
{
    let chars = chars_of(group);
    let mut path: Vec<char> = Vec::new();
    let mut i: usize = 0;
    while i < chars.len()
        invariant
            i <= chars.len(),
            path@ == replaced(chars@, '.', '/').take(i as int),
        decreases chars.len() - i,
    {
        let c = chars[i];
        path.push(
            if c == '.' {
                '/'
            } else {
                c
            },
        );
        assert(path@ =~= replaced(chars@, '.', '/').take(i + 1));
        i += 1;
    }
    assert(replaced(chars@, '.', '/').take(chars.len() as int) =~= replaced(chars@, '.', '/'));
    let group_path = text_of(&path);
    let mut out = repo_url.to_owned();
    out.append("/");
    out.append(group_path.as_str());
    out.append("/");
    out.append(artifact);
    out.append("/maven-metadata.xml");
    out
}

/// The size above which the metadata of a repository is refused: ten
/// mebibytes.
pub const MAX_METADATA_BYTES: usize = 10485760;

/// The way to a repository. What it brings back is decided outside this
/// crate, so nothing is promised of it: the resolver is proved for
/// every answer.
pub trait MetadataTransport {
    /// The body of the document at `url`; `None` where the request
    /// fails or is answered with anything but success.
    fn fetch(&self, url: &str) -> Option<String>;

    /// The versions that a metadata document lists; `None` where the
    /// document cannot be read.
    fn versions_of(&self, metadata: &str) -> Option<Vec<String>>;

    /// All that a metadata document tells; `None` where the document
    /// cannot be read.
    fn metadata_of(&self, metadata: &str) -> Option<DependencyMetadata>;
}

/// Whether an answer is small enough to be read: its UTF-8 form has at
/// most [`MAX_METADATA_BYTES`] bytes.
pub open spec fn size_accepted(body: Seq<char>) -> bool {
    vstd::utf8::encode_utf8(body).len() <= MAX_METADATA_BYTES
}

/// Tells whether an answer is small enough to be read.
pub fn accepts_size(body: &str) -> (r: bool)
    ensures
        r == size_accepted(body@),
{
    body.as_bytes().len() <= MAX_METADATA_BYTES
}

/// Decides what to do with what a request brought back: no answer
/// means that the repository has nothing; an answer that is too large is
/// refused before it is read; any other answer is read.
pub fn check_body(body: Option<String>) -> (r: Result<Option<String>, GvcError>)
    ensures
        match body {
            None => r == Ok::<Option<String>, GvcError>(None),
            Some(text) => if size_accepted(text@) {
                r == Ok::<Option<String>, GvcError>(Some(text))
            } else {
                r is Err && r->Err_0 is Io
            },
        },
{
    match body {
        None => Ok(None),
        Some(text) => {
            if accepts_size(text.as_str()) {
                Ok(Some(text))
            } else {
                Err(GvcError::Io("Maven metadata response exceeded 10MB limit".to_owned()))
            }
        },
    }
}

/// Decides what to do with what was read of an answer: the versions
/// that it lists, or the refusal of an answer that cannot be read.
pub fn check_listing(listed: Option<Vec<String>>) -> (r: Result<Option<Vec<String>>, GvcError>)
    ensures
        match listed {
            Some(versions) => r == Ok::<Option<Vec<String>>, GvcError>(Some(versions)),
            None => r is Err && r->Err_0 is TomlParsing,
        },
{
    match listed {
        Some(versions) => Ok(Some(versions)),
        None => Err(GvcError::TomlParsing("Failed to parse Maven metadata".to_owned())),
    }
}

/// Asks one repository for the versions of a coordinate, at the address
/// that [`metadata_url`] gives. What comes back is judged by
/// [`check_body`] and [`check_listing`]: no answer gives `Ok(None)`, and
/// an answer that is too large or cannot be read is an error.
pub fn fetch_versions<T: MetadataTransport>(
    transport: &T,
    repo_url: &str,
    group: &str,
    artifact: &str,
) -> (r: Result<Option<Vec<String>>, GvcError>)
    ensures
        match r {
            Err(e) => e is Io || e is TomlParsing,
            _ => true,
        },
{
    let url = metadata_url(repo_url, group, artifact);
    match check_body(transport.fetch(url.as_str())) {
        Ok(Some(body)) => check_listing(transport.versions_of(body.as_str())),
        Ok(None) => Ok(None),
        Err(e) => Err(e),
    }
}

/// Whether version `a` is not lower than version `b`.
#[verifier::opaque]
pub open spec fn descends(a: Seq<char>, b: Seq<char>) -> bool {
    compare_views(parse_spec(a), parse_spec(b)) != Precedence::Lower
}

/// Whether a list of versions goes from newest to oldest.
pub open spec fn newest_first(list: Seq<Seq<char>>) -> bool {
    forall|i: int| 0 <= i < list.len() - 1 ==> descends(#[trigger] list[i], list[i + 1])
}

/// Whether no text comes twice in a list.
pub open spec fn distinct_texts(list: Seq<Seq<char>>) -> bool {
    forall|i: int, j: int| 0 <= i < j < list.len() ==> list[i] != list[j]
}

/// The texts that the versions of a list were read from.
pub open spec fn originals(list: Seq<Version>) -> Seq<Seq<char>> {
    Seq::new(list.len(), |i: int| list[i]@.original)
}

/// Whether a version is what its text stands for.
#[verifier::opaque]
pub open spec fn is_parsed(version: Version) -> bool {
    version@ == parse_spec(version@.original)
}

/// Whether every version of a list is what its text stands for.
pub open spec fn all_parsed(list: Seq<Version>) -> bool {
    forall|i: int| 0 <= i < list.len() ==> is_parsed(#[trigger] list[i])
}

/// Tests whether a version with this text is in the list.
fn knows_text(list: &Vec<Version>, text: &str) -> (r: bool)
    ensures
        r == originals(list@).contains(text@),
{
    let mut i: usize = 0;
    while i < list.len()
        invariant
            i <= list.len(),
            forall|k: int| 0 <= k < i ==> originals(list@)[k] != text@,
        decreases list.len() - i,
    {
        assert(originals(list@)[i as int] == list@[i as int]@.original);
        if same_text(list[i].original.as_str(), text) {
            return true;
        }
        i += 1;
    }
    false
}

/// Tells whether version `a` is higher than version `b`. Where it is not,
/// `b` is not lower than `a`.
fn is_higher(a: &Version, b: &Version) -> (r: bool)
    requires
        is_parsed(*a),
        is_parsed(*b),
    ensures
        r ==> descends(a@.original, b@.original),
        !r ==> descends(b@.original, a@.original),
{
    proof {
        reveal(descends);
        reveal(is_parsed);
    }
    match a.compare(b) {
        Precedence::Higher => true,
        _ => false,
    }
}

/// Puts a version into a list that goes from newest to oldest, before
/// the first version that is not higher, so that the list stays in
/// order.
fn insert_version(sorted: &mut Vec<Version>, version: Version)
    requires
        all_parsed(old(sorted)@),
        newest_first(originals(old(sorted)@)),
        distinct_texts(originals(old(sorted)@)),
        !originals(old(sorted)@).contains(version@.original),
        is_parsed(version),
    ensures
        all_parsed(final(sorted)@),
        newest_first(originals(final(sorted)@)),
        distinct_texts(originals(final(sorted)@)),
        exists|at: int|
            0 <= at <= old(sorted)@.len() && originals(final(sorted)@) == originals(old(sorted)@).insert(
                at,
                version@.original,
            ),
{
    let ghost before = originals(sorted@);
    let ghost raw = version@.original;
    let mut at: usize = 0;
    let mut settled = false;
    while at < sorted.len() && !settled
        invariant
            at <= sorted.len(),
            sorted@ == old(sorted)@,
            before == originals(sorted@),
            raw == version@.original,
            all_parsed(sorted@),
            is_parsed(version),
            at > 0 ==> descends(before[at - 1], raw),
            settled ==> at < sorted.len() && descends(raw, before[at as int]),
        decreases sorted.len() - at, (if settled { 0int } else { 1int }),
    {
        assert(before[at as int] == sorted@[at as int]@.original);
        if is_higher(&sorted[at], &version) {
            at += 1;
        } else {
            settled = true;
        }
    }
    let ghost old_sorted = sorted@;
    sorted.insert(at, version);
    proof {
        let after = originals(sorted@);
        assert(after =~= before.insert(at as int, raw));
        assert forall|k: int| 0 <= k < sorted@.len() implies is_parsed(#[trigger] sorted@[k]) by {
            if k < at {
                assert(sorted@[k] == old_sorted[k]);
            } else if k > at {
                assert(sorted@[k] == old_sorted[k - 1]);
            }
        }
        lemma_inserted(before, after, at as int, raw);
    }
}

/// A list of versions that goes from newest to oldest and holds each
/// text once still does so when one more text is put where it fits.
proof fn lemma_inserted(before: Seq<Seq<char>>, after: Seq<Seq<char>>, at: int, raw: Seq<char>)
    requires
        0 <= at <= before.len(),
        after == before.insert(at, raw),
        newest_first(before),
        distinct_texts(before),
        !before.contains(raw),
        at > 0 ==> descends(before[at - 1], raw),
        at < before.len() ==> descends(raw, before[at]),
    ensures
        newest_first(after),
        distinct_texts(after),
{
    assert forall|k: int| 0 <= k < after.len() - 1 implies descends(#[trigger] after[k], after[k + 1]) by {
        if k + 1 < at {
            assert(after[k] == before[k] && after[k + 1] == before[k + 1]);
        } else if k + 1 == at {
            assert(after[k] == before[k] && after[k + 1] == raw);
        } else if k == at {
            assert(after[k] == raw && after[k + 1] == before[k]);
        } else {
            assert(after[k] == before[k - 1] && after[k + 1] == before[k]);
        }
    }
    assert forall|a: int, b: int| 0 <= a < b < after.len() implies after[a] != after[b] by {
        let pa = if a < at {
            a
        } else {
            a - 1
        };
        let pb = if b < at {
            b
        } else {
            b - 1
        };
        if a != at && b != at {
            assert(after[a] == before[pa] && after[b] == before[pb]);
        } else if a == at {
            assert(after[b] == before[pb]);
            assert(before.contains(before[pb]));
        } else {
            assert(after[a] == before[pa]);
            assert(before.contains(before[pa]));
        }
    }
}

/// Puts the versions that a repository lists in the order in which they
/// are shown: from newest to oldest, each text once.
pub fn order_versions(versions: &Vec<String>) -> (r: Vec<String>)
    ensures
        newest_first(texts(r@)),
        distinct_texts(texts(r@)),
        forall|t: Seq<char>| texts(r@).contains(t) <==> texts(versions@).contains(t),
{
    let mut sorted: Vec<Version> = Vec::new();
    let ghost all = texts(versions@);
    let mut i: usize = 0;
    while i < versions.len()
        invariant
            i <= versions.len(),
            all == texts(versions@),
            all_parsed(sorted@),
            newest_first(originals(sorted@)),
            distinct_texts(originals(sorted@)),
            forall|t: Seq<char>| originals(sorted@).contains(t) <==> all.take(i as int).contains(t),
        decreases versions.len() - i,
    {
        let raw = versions[i].as_str();
        let ghost before = originals(sorted@);
        proof {
            assert(all[i as int] == raw@);
            assert(all.take(i + 1) =~= all.take(i as int).push(raw@));
        }
        if knows_text(&sorted, raw) {
            proof {
                assert forall|t: Seq<char>| before.contains(t) <==> all.take(i + 1).contains(t) by {
                    lemma_push_contains(all.take(i as int), raw@, t);
                }
            }
        } else {
            let version = Version::parse(raw);
            assert(is_parsed(version)) by {
                reveal(is_parsed);
            }
            insert_version(&mut sorted, version);
            proof {
                let after = originals(sorted@);
                let at = choose|at: int| 0 <= at <= before.len() && after == before.insert(at, raw@);
                assert forall|t: Seq<char>| after.contains(t) <==> all.take(i + 1).contains(t) by {
                    lemma_push_contains(all.take(i as int), raw@, t);
                    lemma_insert_contains(before, at, raw@, t);
                }
            }
        }
        i += 1;
    }
    assert(all.take(versions.len() as int) =~= all);
    let mut out: Vec<String> = Vec::new();
    let mut k: usize = 0;
    while k < sorted.len()
        invariant
            k <= sorted.len(),
            texts(out@) == originals(sorted@).take(k as int),
        decreases sorted.len() - k,
    {
        let ghost so_far = texts(out@);
        let text = sorted[k].original.clone();
        out.push(text);
        assert(texts(out@) =~= so_far.push(sorted@[k as int]@.original));
        assert(originals(sorted@).take(k + 1) =~= originals(sorted@).take(k as int).push(
            sorted@[k as int]@.original,
        ));
        k += 1;
    }
    assert(originals(sorted@).take(sorted.len() as int) =~= originals(sorted@));
    out
}

/// A list with one more element at its end holds that element and what
/// it held before.
pub proof fn lemma_push_contains(list: Seq<Seq<char>>, added: Seq<char>, t: Seq<char>)
    ensures
        list.push(added).contains(t) <==> list.contains(t) || t == added,
{
    let after = list.push(added);
    if list.contains(t) {
        let i = choose|i: int| 0 <= i < list.len() && list[i] == t;
        assert(after[i] == t);
    }
    if t == added {
        assert(after[list.len() as int] == t);
    }
    if after.contains(t) {
        let i = choose|i: int| 0 <= i < after.len() && after[i] == t;
        if i < list.len() {
            assert(list[i] == t);
        }
    }
}

/// A list into which one more element was put holds that element and
/// what it held before.
pub proof fn lemma_insert_contains(list: Seq<Seq<char>>, at: int, added: Seq<char>, t: Seq<char>)
    requires
        0 <= at <= list.len(),
    ensures
        list.insert(at, added).contains(t) <==> list.contains(t) || t == added,
{
    let after = list.insert(at, added);
    if list.contains(t) {
        let i = choose|i: int| 0 <= i < list.len() && list[i] == t;
        if i < at {
            assert(after[i] == t);
        } else {
            assert(after[i + 1] == t);
        }
    }
    if t == added {
        assert(after[at] == t);
    }
    if after.contains(t) {
        let i = choose|i: int| 0 <= i < after.len() && after[i] == t;
        if i < at {
            assert(list[i] == t);
        } else if i > at {
            assert(list[i - 1] == t);
        }
    }
}

/// Metadata of a dependency as a repository publishes it.
#[derive(Debug, Clone)]
pub struct DependencyMetadata {
    pub group: String,
    pub artifact: String,
    pub versions: Vec<String>,
    pub latest: Option<String>,
    pub release: Option<String>,
}

/// The position of the first repository, at or after `from`, that
/// serves the group; or `-1` where there is none.
pub open spec fn next_serving(repositories: Seq<RepositoryView>, group: Seq<char>, from: int) -> int
    decreases repositories.len() - from + 1,
{
    if from < 0 || from >= repositories.len() {
        -1
    } else if applies_to(repositories[from], group) {
        from
    } else {
        next_serving(repositories, group, from + 1)
    }
}

/// The next repository to ask is one that serves the group, and every
/// repository that is passed over on the way to it does not serve the
/// group; where there is none to ask, no repository from there on serves
/// the group.
pub proof fn lemma_next_serving(repositories: Seq<RepositoryView>, group: Seq<char>, from: int)
    requires
        0 <= from,
    ensures
        next_serving(repositories, group, from) == -1 || from <= next_serving(
            repositories,
            group,
            from,
        ) < repositories.len(),
        next_serving(repositories, group, from) >= 0 ==> applies_to(
            repositories[next_serving(repositories, group, from)],
            group,
        ),
        forall|k: int|
            from <= k < repositories.len() && (next_serving(repositories, group, from) == -1 || k
                < next_serving(repositories, group, from)) ==> !applies_to(
                #[trigger] repositories[k],
                group,
            ),
    decreases repositories.len() - from + 1,
{
    if from < repositories.len() && !applies_to(repositories[from], group) {
        lemma_next_serving(repositories, group, from + 1);
    }
}

/// The listing that the answers of the repositories come to, from
/// position `from` on: that of the first repository that serves the group
/// and lists a version. `answers` holds one answer for each repository,
/// in their order: the versions that the repository lists, or nothing
/// where it fails, cannot be read or lists none. A repository that does
/// not serve the group is passed over whatever its answer would be, and
/// the listings of different repositories are never put together.
pub open spec fn resolved_listing(
    repositories: Seq<RepositoryView>,
    group: Seq<char>,
    answers: Seq<Option<Seq<Seq<char>>>>,
    from: int,
) -> Option<Seq<Seq<char>>>
    decreases repositories.len() - from,
{
    if from < 0 || from >= repositories.len() || from >= answers.len() {
        None
    } else if applies_to(repositories[from], group) && answers[from] is Some && answers[from]->0.len()
        > 0 {
        answers[from]
    } else {
        resolved_listing(repositories, group, answers, from + 1)
    }
}

/// Whether the repository at a position has nothing to say about a
/// group: it does not serve the group, or it lists no version.
pub open spec fn gives_nothing(
    repositories: Seq<RepositoryView>,
    group: Seq<char>,
    answers: Seq<Option<Seq<Seq<char>>>>,
    at: int,
) -> bool {
    !applies_to(repositories[at], group) || answers[at] is None || answers[at]->0.len() == 0
}

/// The first repository that serves the group and lists a version
/// decides: the repositories before it that do not serve the group, or
/// that fail or list nothing, are passed over, and what comes after it is
/// not looked at.
pub proof fn lemma_first_answer_decides(
    repositories: Seq<RepositoryView>,
    group: Seq<char>,
    answers: Seq<Option<Seq<Seq<char>>>>,
    from: int,
    at: int,
)
    requires
        0 <= from <= at < repositories.len(),
        at < answers.len(),
        !gives_nothing(repositories, group, answers, at),
        forall|k: int| from <= k < at ==> #[trigger] gives_nothing(repositories, group, answers, k),
    ensures
        resolved_listing(repositories, group, answers, from) == answers[at],
    decreases at - from,
{
    if from < at {
        assert(gives_nothing(repositories, group, answers, from));
        lemma_first_answer_decides(repositories, group, answers, from + 1, at);
    }
}

/// Where every repository that serves the group fails or lists nothing,
/// there is no listing.
pub proof fn lemma_no_answer_gives_nothing(
    repositories: Seq<RepositoryView>,
    group: Seq<char>,
    answers: Seq<Option<Seq<Seq<char>>>>,
    from: int,
)
    requires
        0 <= from,
        forall|k: int|
            from <= k < repositories.len() && k < answers.len() ==> #[trigger] gives_nothing(
                repositories,
                group,
                answers,
                k,
            ),
    ensures
        resolved_listing(repositories, group, answers, from) is None,
    decreases repositories.len() - from,
{
    if from < repositories.len() && from < answers.len() {
        assert(gives_nothing(repositories, group, answers, from));
        lemma_no_answer_gives_nothing(repositories, group, answers, from + 1);
    }
}

/// The metadata that the answers of the repositories come to, from
/// position `from` on: that of the first repository that has any.
/// `answers` holds one answer for each repository, in their order: the
/// metadata that it publishes, or nothing where it fails, answers too
/// much or cannot be read.
pub open spec fn first_metadata(answers: Seq<Option<DependencyMetadata>>, from: int) -> Option<
    DependencyMetadata,
>
    decreases answers.len() - from,
{
    if from < 0 || from >= answers.len() {
        None
    } else if answers[from] is Some {
        answers[from]
    } else {
        first_metadata(answers, from + 1)
    }
}

/// The first repository that has metadata decides, and where none has
/// any there is none.
pub proof fn lemma_first_metadata(answers: Seq<Option<DependencyMetadata>>, from: int, at: int)
    requires
        0 <= from <= at <= answers.len(),
        forall|k: int| from <= k < at ==> (#[trigger] answers[k]) is None,
        at < answers.len() ==> answers[at] is Some,
    ensures
        first_metadata(answers, from) == if at < answers.len() {
            answers[at]
        } else {
            None
        },
    decreases at - from,
{
    if from < at {
        assert(answers[from] is None);
        lemma_first_metadata(answers, from + 1, at);
    }
}

/// The texts of a listing that may be missing.
pub open spec fn listing_of(listing: Option<Vec<String>>) -> Option<Seq<Seq<char>>> {
    match listing {
        Some(versions) => Some(texts(versions@)),
        None => None,
    }
}

/// Whether a list holds exactly the versions of a listing, and nothing
/// where the listing is missing.
pub open spec fn holds_the_versions_of(list: Seq<Seq<char>>, listing: Option<Seq<Seq<char>>>) -> bool {
    match listing {
        Some(versions) => forall|t: Seq<char>| list.contains(t) <==> versions.contains(t),
        None => list.len() == 0,
    }
}

/// The latest version of a listing that may be missing.
pub open spec fn latest_of(listing: Option<Seq<Seq<char>>>, stable_only: bool) -> Option<Seq<char>> {
    match listing {
        Some(versions) => if latest_index(versions, stable_only) >= 0 {
            Some(versions[latest_index(versions, stable_only)])
        } else {
            None
        },
        None => None,
    }
}

/// What the answer of a repository means for the search: its listing,
/// where it lists a version; otherwise, and where the repository failed,
/// the search goes on with the next repository.
pub fn judge_listing(answer: Result<Option<Vec<String>>, GvcError>) -> (r: Option<Vec<String>>)
    ensures
        match answer {
            Ok(Some(versions)) => if versions@.len() > 0 {
                r == Some(versions)
            } else {
                r is None
            },
            _ => r is None,
        },
{
    match answer {
        Ok(Some(versions)) => {
            if versions.len() > 0 {
                Some(versions)
            } else {
                None
            }
        },
        _ => None,
    }
}

/// The resolver over the repositories of a build. The repositories are
/// asked in their order; one that does not serve the group is passed
/// over; the first one that lists any version decides, and what the
/// others list is never mixed in. A repository that fails counts as one
/// that lists nothing.
pub struct MavenRepository<T: MetadataTransport> {
    transport: T,
    repositories: Vec<Repository>,
}

impl<T: MetadataTransport> MavenRepository<T> {
    /// The repositories that this resolver asks, in order.
    pub closed spec fn repositories(&self) -> Seq<RepositoryView> {
        repository_views(self.repositories@)
    }

    #[verifier::type_invariant]
    spec fn checked(&self) -> bool {
        all_accepted(repository_views(self.repositories@))
    }

    /// The repositories that this resolver asks, in order. Each of them
    /// has an accepted URL: that was checked when the resolver was made.
    pub fn configured(&self) -> (r: &Vec<Repository>)
        ensures
            repository_views(r@) == self.repositories(),
            all_accepted(self.repositories()),
    {
        proof {
            use_type_invariant(self);
        }
        &self.repositories
    }

    /// A resolver over the default repositories. It is refused where one
    /// of their URLs is not accepted.
    pub fn new(transport: T) -> (r: Result<Self, GvcError>)
        ensures
            match r {
                Ok(resolver) => resolver.repositories() == crate::gradle::default_repository_views()
                    && all_accepted(resolver.repositories()),
                Err(e) => e is ProjectValidation && !all_accepted(
                    crate::gradle::default_repository_views(),
                ),
            },
    {
        match ensure_valid_repositories(default_repositories()) {
            Ok(repositories) => Ok(MavenRepository { transport, repositories }),
            Err(e) => Err(e),
        }
    }

    /// A resolver over the given repositories, or over the default ones
    /// where none is given. It is refused where one of the URLs is not
    /// accepted: no scheme but `http` and `https`, and no private or
    /// loopback host.
    pub fn with_repositories(transport: T, repositories: Vec<Repository>) -> (r: Result<
        Self,
        GvcError,
    >)
        ensures
            ({
                let used = if repositories@.len() == 0 {
                    crate::gradle::default_repository_views()
                } else {
                    repository_views(repositories@)
                };
                match r {
                    Ok(resolver) => resolver.repositories() == used && all_accepted(used),
                    Err(e) => e is ProjectValidation && !all_accepted(used),
                }
            }),
    {
        let used = if repositories.len() == 0 {
            default_repositories()
        } else {
            repositories
        };
        match ensure_valid_repositories(used) {
            Ok(repositories) => Ok(MavenRepository { transport, repositories }),
            Err(e) => Err(e),
        }
    }

    /// Finds the next repository to ask for a group: the first one, at or
    /// after position `from`, that serves the group.
    pub fn next_repository(&self, group: &str, from: usize) -> (r: Option<usize>)
        ensures
            match r {
                Some(at) => at == next_serving(self.repositories(), group@, from as int) && from <= at
                    < self.repositories().len(),
                None => next_serving(self.repositories(), group@, from as int) == -1,
            },
    {
        let mut i: usize = from;
        while i < self.repositories.len()
            invariant
                from <= i,
                next_serving(self.repositories(), group@, from as int) == next_serving(
                    self.repositories(),
                    group@,
                    i as int,
                ),
            decreases self.repositories.len() - i,
        {
            assert(self.repositories()[i as int] == self.repositories@[i as int]@);
            if repository_applies(&self.repositories[i], group) {
                return Some(i);
            }
            i += 1;
        }
        None
    }

    /// Asks the repositories for the versions of a coordinate. The
    /// repositories that serve the group are asked in their order, each
    /// at the address that [`metadata_url`] gives, until one lists a
    /// version: see [`judge_listing`]. `None` where none does.
    pub fn first_listing(&self, group: &str, artifact: &str) -> (r: Option<Vec<String>>)
        ensures
            match r {
                Some(versions) => versions@.len() > 0 && next_serving(self.repositories(), group@, 0)
                    >= 0,
                None => true,
            },
            next_serving(self.repositories(), group@, 0) == -1 ==> r is None,
            exists|answers: Seq<Option<Seq<Seq<char>>>>|
                answers.len() == self.repositories().len() && listing_of(r) == #[trigger] resolved_listing(
                    self.repositories(),
                    group@,
                    answers,
                    0,
                ),
    {
        let mut from: usize = 0;
        let ghost silent = Seq::new(
            self.repositories().len(),
            |k: int| None::<Seq<Seq<char>>>,
        );
        loop
            invariant
                from <= self.repositories@.len(),
                self.repositories().len() == self.repositories@.len(),
                silent.len() == self.repositories().len(),
                forall|k: int| 0 <= k < silent.len() ==> silent[k] is None,
                from > 0 ==> next_serving(self.repositories(), group@, 0) >= 0,
                next_serving(self.repositories(), group@, 0) == -1 ==> next_serving(
                    self.repositories(),
                    group@,
                    from as int,
                ) == -1,
            decreases self.repositories@.len() - from,
        {
            let at = match self.next_repository(group, from) {
                Some(at) => at,
                None => {
                    proof {
                        lemma_no_answer_gives_nothing(self.repositories(), group@, silent, 0);
                    }
                    return None;
                },
            };
            proof {
                assert(self.repositories().len() == self.repositories@.len());
                lemma_next_serving(self.repositories(), group@, 0);
                lemma_next_serving(self.repositories(), group@, from as int);
            }
            let answer = fetch_versions(
                &self.transport,
                self.repositories[at].url.as_str(),
                group,
                artifact,
            );
            if let Some(versions) = judge_listing(answer) {
                proof {
                    let answers = silent.update(at as int, Some(texts(versions@)));
                    lemma_first_answer_decides(self.repositories(), group@, answers, 0, at as int);
                    assert(listing_of(Some(versions)) == resolved_listing(
                        self.repositories(),
                        group@,
                        answers,
                        0,
                    ));
                }
                return Some(versions);
            }
            assert(at < self.repositories.len());
            from = at + 1;
        }
    }

    /// The metadata of a coordinate as the first repository that has any
    /// publishes it; the filters of the repositories are not looked at.
    /// Never an error: a repository that fails, or whose answer is too
    /// large or cannot be read, counts as one that has nothing.
    pub fn fetch_metadata(&self, group: &str, artifact: &str) -> (r: Result<
        Option<DependencyMetadata>,
        GvcError,
    >)
        ensures
            r is Ok,
            self.repositories().len() == 0 ==> r->Ok_0 is None,
            exists|answers: Seq<Option<DependencyMetadata>>|
                answers.len() == self.repositories().len() && r->Ok_0 == #[trigger] first_metadata(
                    answers,
                    0,
                ),
    {
        let ghost silent = Seq::new(
            self.repositories().len(),
            |k: int| None::<DependencyMetadata>,
        );
        let mut i: usize = 0;
        while i < self.repositories.len()
            invariant
                i <= self.repositories.len(),
                self.repositories().len() == self.repositories@.len(),
                silent.len() == self.repositories().len(),
                forall|k: int| 0 <= k < silent.len() ==> (#[trigger] silent[k]) is None,
            decreases self.repositories.len() - i,
        {
            let url = metadata_url(self.repositories[i].url.as_str(), group, artifact);
            if let Ok(Some(body)) = check_body(self.transport.fetch(url.as_str())) {
                if let Some(metadata) = self.transport.metadata_of(body.as_str()) {
                    proof {
                        let answers = silent.update(i as int, Some(metadata));
                        lemma_first_metadata(answers, 0, i as int);
                        assert(Some(metadata) == first_metadata(answers, 0));
                    }
                    return Ok(Some(metadata));
                }
            }
            i += 1;
        }
        proof {
            lemma_first_metadata(silent, 0, silent.len() as int);
        }
        Ok(None)
    }

    /// The latest version of a coordinate, among the stable ones only
    /// where `stable_only` is set. The first repository that serves the
    /// group and lists a version decides. Never an error: a repository
    /// that fails counts as one that lists nothing, and where no
    /// repository lists a version the answer is `None`.
    pub fn fetch_latest_version(&self, group: &str, artifact: &str, stable_only: bool) -> (r: Result<
        Option<String>,
        GvcError,
    >)
        ensures
            r is Ok,
            match r {
                Ok(Some(version)) => {
                    &&& eligible(version@, stable_only)
                    &&& exists|listed: Seq<Seq<char>>|
                        0 <= latest_index(listed, stable_only) < listed.len()
                            && #[trigger] listed[latest_index(listed, stable_only)] == version@
                },
                _ => true,
            },
            next_serving(self.repositories(), group@, 0) == -1 ==> r == Ok::<Option<String>, GvcError>(
                None,
            ),
            exists|answers: Seq<Option<Seq<Seq<char>>>>|
                answers.len() == self.repositories().len() && crate::toml_utils::optional_text(
                    r->Ok_0,
                ) == latest_of(
                    #[trigger] resolved_listing(self.repositories(), group@, answers, 0),
                    stable_only,
                ),
    {
        let listing = self.first_listing(group, artifact);
        let ghost answers = choose|answers: Seq<Option<Seq<Seq<char>>>>|
            answers.len() == self.repositories().len() && listing_of(listing) == #[trigger] resolved_listing(
                self.repositories(),
                group@,
                answers,
                0,
            );
        match listing {
            Some(versions) => {
                let latest = VersionComparator::get_latest(versions.as_slice(), stable_only);
                proof {
                    if latest is Some {
                        let listed = texts(versions@);
                        lemma_latest_index(listed, stable_only);
                        assert(listed[latest_index(listed, stable_only)] == latest->0@);
                    }
                }
                Ok(latest)
            },
            None => Ok(None),
        }
    }

    /// All the versions of a coordinate, from newest to oldest and each
    /// text once. The first repository that serves the group and lists a
    /// version decides. Never an error; the list is empty where no
    /// repository lists a version.
    pub fn fetch_available_versions(&self, group: &str, artifact: &str) -> (r: Result<
        Vec<String>,
        GvcError,
    >)
        ensures
            r is Ok,
            newest_first(texts(r->Ok_0@)),
            distinct_texts(texts(r->Ok_0@)),
            next_serving(self.repositories(), group@, 0) == -1 ==> r->Ok_0@.len() == 0,
            exists|answers: Seq<Option<Seq<Seq<char>>>>|
                answers.len() == self.repositories().len() && holds_the_versions_of(
                    texts(r->Ok_0@),
                    #[trigger] resolved_listing(self.repositories(), group@, answers, 0),
                ),
    {
        let listing = self.first_listing(group, artifact);
        let ghost answers = choose|answers: Seq<Option<Seq<Seq<char>>>>|
            answers.len() == self.repositories().len() && listing_of(listing) == #[trigger] resolved_listing(
                self.repositories(),
                group@,
                answers,
                0,
            );
        match listing {
            Some(versions) => Ok(order_versions(&versions)),
            None => {
                let empty: Vec<String> = Vec::new();
                Ok(empty)
            },
        }
    }
}

impl<T: MetadataTransport> RepositoryClient for MavenRepository<T> {
    fn fetch_available_versions(&self, coordinate: &Coordinate) -> (r: Result<Vec<String>, GvcError>) {
        MavenRepository::fetch_available_versions(
            self,
            coordinate.group.as_str(),
            coordinate.artifact.as_str(),
        )
    }

    fn fetch_latest_version(&self, coordinate: &Coordinate, stable_only: bool) -> (r: Result<
        Option<String>,
        GvcError,
    >) {
        MavenRepository::fetch_latest_version(
            self,
            coordinate.group.as_str(),
            coordinate.artifact.as_str(),
            stable_only,
        )
    }
}

/// The artifact under which a plugin is published: its identifier
/// followed by `.gradle.plugin`.
pub open spec fn plugin_artifact(plugin_id: Seq<char>) -> Seq<char> {
    plugin_id + ".gradle.plugin"@
}

/// The coordinate under which a plugin is published: its identifier is
/// the group, and the artifact is the identifier followed by
/// `.gradle.plugin`.
pub fn plugin_coordinate(plugin_id: &str) -> (r: Coordinate)
    ensures
        r@.group == plugin_id@,
        r@.artifact == plugin_artifact(plugin_id@),
{
    let mut artifact = plugin_id.to_owned();
    artifact.append(".gradle.plugin");
    Coordinate { group: plugin_id.to_owned(), artifact }
}

/// The resolver for plugins: the Gradle plugin portal, asked as a Maven
/// repository for the coordinate of the plugin.
pub struct PluginPortalClient<T: MetadataTransport> {
    transport: T,
}

impl<T: MetadataTransport> PluginPortalClient<T> {
    /// The transport through which the portal is asked.
    pub closed spec fn transport(&self) -> T {
        self.transport
    }

    /// A resolver that asks the Gradle plugin portal through
    /// `transport`.
    pub fn new(transport: T) -> (r: Result<Self, GvcError>)
        ensures
            r is Ok,
            r->Ok_0.transport() == transport,
    {
        Ok(PluginPortalClient { transport })
    }

    /// The versions that the portal lists for a plugin; `None` where it
    /// lists none or fails.
    fn listing(&self, plugin_id: &str) -> (r: Option<Vec<String>>)
        ensures
            r is Some ==> r->0@.len() > 0,
    {
        let coordinate = plugin_coordinate(plugin_id);
        judge_listing(
            fetch_versions(
                &self.transport,
                "https://plugins.gradle.org/m2",
                coordinate.group.as_str(),
                coordinate.artifact.as_str(),
            ),
        )
    }

    /// The latest version of a plugin, among the stable ones only where
    /// `stable_only` is set. Never an error: where the portal fails or
    /// lists nothing the answer is `None`.
    pub fn fetch_latest_plugin_version(&self, plugin_id: &str, stable_only: bool) -> (r: Result<
        Option<String>,
        GvcError,
    >)
        ensures
            r is Ok,
            match r {
                Ok(Some(version)) => {
                    &&& eligible(version@, stable_only)
                    &&& exists|listed: Seq<Seq<char>>|
                        0 <= latest_index(listed, stable_only) < listed.len()
                            && #[trigger] listed[latest_index(listed, stable_only)] == version@
                },
                _ => true,
            },
    {
        match self.listing(plugin_id) {
            Some(versions) => {
                let latest = VersionComparator::get_latest(versions.as_slice(), stable_only);
                proof {
                    if latest is Some {
                        let listed = texts(versions@);
                        lemma_latest_index(listed, stable_only);
                        assert(listed[latest_index(listed, stable_only)] == latest->0@);
                    }
                }
                Ok(latest)
            },
            None => Ok(None),
        }
    }

    /// All the versions of a plugin, from newest to oldest and each text
    /// once. Never an error.
    pub fn fetch_available_plugin_versions(&self, plugin_id: &str) -> (r: Result<Vec<String>, GvcError>)
        ensures
            r is Ok,
            newest_first(texts(r->Ok_0@)),
            distinct_texts(texts(r->Ok_0@)),
    {
        match self.listing(plugin_id) {
            Some(versions) => Ok(order_versions(&versions)),
            None => {
                let empty: Vec<String> = Vec::new();
                Ok(empty)
            },
        }
    }
}

impl<T: MetadataTransport> RepositoryClient for PluginPortalClient<T> {
    /// The versions of the plugin that the group of the coordinate
    /// names, as [`Self::fetch_available_plugin_versions`] gives them.
    fn fetch_available_versions(&self, coordinate: &Coordinate) -> (r: Result<Vec<String>, GvcError>)
        ensures
            r is Ok,
            newest_first(texts(r->Ok_0@)),
            distinct_texts(texts(r->Ok_0@)),
    {
        self.fetch_available_plugin_versions(coordinate.group.as_str())
    }

    /// The latest version of the plugin that the group of the coordinate
    /// names, as [`Self::fetch_latest_plugin_version`] gives it.
    fn fetch_latest_version(&self, coordinate: &Coordinate, stable_only: bool) -> (r: Result<
        Option<String>,
        GvcError,
    >)
        ensures
            r is Ok,
            match r {
                Ok(Some(version)) => {
                    &&& eligible(version@, stable_only)
                    &&& exists|listed: Seq<Seq<char>>|
                        0 <= latest_index(listed, stable_only) < listed.len()
                            && #[trigger] listed[latest_index(listed, stable_only)] == version@
                },
                _ => true,
            },
    {
        self.fetch_latest_plugin_version(coordinate.group.as_str(), stable_only)
    }
}

/// Makes the resolvers that the handlers ask.
pub struct RepositoryFactory;

impl RepositoryFactory {
    /// The resolver for libraries, over the given repositories or the
    /// default ones where none is given.
    pub fn create_maven<T: MetadataTransport>(transport: T, repositories: Vec<Repository>) -> (r:
        Result<MavenRepository<T>, GvcError>)
        ensures
            ({
                let used = if repositories@.len() == 0 {
                    crate::gradle::default_repository_views()
                } else {
                    repository_views(repositories@)
                };
                match r {
                    Ok(resolver) => resolver.repositories() == used && all_accepted(used),
                    Err(e) => e is ProjectValidation && !all_accepted(used),
                }
            }),
    {
        MavenRepository::with_repositories(transport, repositories)
    }

    /// The resolver for plugins, which asks the portal through
    /// `transport`.
    pub fn create_plugin_portal<T: MetadataTransport>(transport: T) -> (r: Result<
        PluginPortalClient<T>,
        GvcError,
    >)
        ensures
            r is Ok,
            r->Ok_0.transport() == transport,
    {
        PluginPortalClient::new(transport)
    }
}

} // verus!
