//! The version model: reading a version text, classifying it, telling
//! whether it is stable and ordering two versions.

use crate::order::{
    compare_numbers, compare_text, lemma_lex_flip, lemma_lex_same_iff_equal, lemma_lex_transitive,
    lex_order, numbers_of, text_order, Precedence,
};
use crate::text::{
    chars_of, contains_text, ends_with, has_suffix, has_text, lowercase_of, parse_u32,
    parse_u32_spec, rows, split_on, split_text, texts,
};
use vstd::prelude::*;

verus! {

/// The parts of a semantic version, as the `semver` crate reads them.
#[derive(Debug, Clone, PartialEq, Eq)]
pub struct Semantic {
    pub major: u64,
    pub minor: u64,
    pub patch: u64,
    pub pre: String,
    pub build: String,
}

/// The mathematical value of a [`Semantic`].
pub struct SemanticView {
    pub major: u64,
    pub minor: u64,
    pub patch: u64,
    pub pre: Seq<char>,
    pub build: Seq<char>,
}

impl View for Semantic {
    type V = SemanticView;

    open spec fn view(&self) -> SemanticView {
        SemanticView {
            major: self.major,
            minor: self.minor,
            patch: self.patch,
            pre: self.pre@,
            build: self.build@,
        }
    }
}

/// How a version text was understood.
#[derive(Debug, Clone, PartialEq, Eq)]
pub enum VersionType {
    Semantic(Semantic),
    Numeric(Vec<u32>),
    Snapshot(String),
    Unknown(String),
}

/// The mathematical value of a [`VersionType`].
pub enum VersionKind {
    Semantic(SemanticView),
    Numeric(Seq<u32>),
    Snapshot(Seq<char>),
    Unknown(Seq<char>),
}

impl View for VersionType {
    type V = VersionKind;

    open spec fn view(&self) -> VersionKind {
        match self {
            VersionType::Semantic(s) => VersionKind::Semantic(s@),
            VersionType::Numeric(n) => VersionKind::Numeric(n@),
            VersionType::Snapshot(t) => VersionKind::Snapshot(t@),
            VersionType::Unknown(t) => VersionKind::Unknown(t@),
        }
    }
}

/// A version: the text it was read from and how that text was understood.
#[derive(Debug, Clone, PartialEq, Eq)]
pub struct Version {
    pub original: String,
    pub parsed: VersionType,
}

/// The mathematical value of a [`Version`].
pub struct VersionView {
    pub original: Seq<char>,
    pub kind: VersionKind,
}

impl View for Version {
    type V = VersionView;

    open spec fn view(&self) -> VersionView {
        VersionView { original: self.original@, kind: self.parsed@ }
    }
}

/// What `semver::Version::parse` makes of a text: its parts, or nothing
/// where the text is no semantic version.
pub uninterp spec fn semver_parsed(text: Seq<char>) -> Option<SemanticView>;

/// How `semver` orders two semantic versions given by their parts, or
/// nothing where a pre-release or build text is not one that `semver`
/// accepts.
pub uninterp spec fn semver_precedence(a: SemanticView, b: SemanticView) -> Option<Precedence>;

/// Calls `semver::Version::parse` and hands out the five fields of what it
/// returns; an error becomes `None`.
#[verifier::external_body]
fn semver_parse(text: &str) -> (r: Option<Semantic>)
    ensures
        match r {
            Some(parts) => semver_parsed(text@) == Some(parts@),
            None => semver_parsed(text@) is None,
        },
{
    match semver::Version::parse(text) {
        Ok(v) => Some(
            Semantic {
                major: v.major,
                minor: v.minor,
                patch: v.patch,
                pre: v.pre.as_str().to_string(),
                build: v.build.as_str().to_string(),
            },
        ),
        Err(_) => None,
    }
}

/// A comparison that may be missing, seen from the other side.
pub open spec fn flipped_result(r: Option<Precedence>) -> Option<Precedence> {
    match r {
        Some(p) => Some(p.flipped()),
        None => None,
    }
}

/// Rebuilds two `semver::Version` values from their parts with
/// `Prerelease::new` and `BuildMetadata::new` and compares them with the
/// `Ord` of `semver::Version`; `None` where one of the texts is refused.
/// The `Ord` of `semver::Version` is an order: comparing the same two
/// versions the other way round gives the reverse.
#[verifier::external_body]
fn semver_compare(a: &Semantic, b: &Semantic) -> (r: Option<Precedence>)
    ensures
        r == semver_precedence(a@, b@),
        flipped_result(r) == semver_precedence(b@, a@),
{
    let (pre, build) = (semver::Prerelease::new(&a.pre).ok()?, semver::BuildMetadata::new(&a.build).ok()?);
    let x = semver::Version { major: a.major, minor: a.minor, patch: a.patch, pre, build };
    let (pre, build) = (semver::Prerelease::new(&b.pre).ok()?, semver::BuildMetadata::new(&b.build).ok()?);
    let y = semver::Version { major: b.major, minor: b.minor, patch: b.patch, pre, build };
    Some(
        match x.cmp(&y) {
            std::cmp::Ordering::Less => Precedence::Lower,
            std::cmp::Ordering::Equal => Precedence::Same,
            std::cmp::Ordering::Greater => Precedence::Higher,
        },
    )
}

/// The numbers of a dotted text such as `2024.1.1`, where every piece
/// between the dots is a number.
pub open spec fn numeric_parts(text: Seq<char>) -> Option<Seq<u32>> {
    let pieces = split_on(text, '.');
    if forall|i: int| 0 <= i < pieces.len() ==> (#[trigger] parse_u32_spec(pieces[i])) is Some {
        Some(Seq::new(pieces.len(), |i: int| parse_u32_spec(pieces[i])->0))
    } else {
        None
    }
}

/// How a version text is classified: a semantic version where `semver`
/// reads it as one; else a snapshot where it ends with `-SNAPSHOT`; else
/// numeric where it is made of dotted numbers; else unrecognized.
pub open spec fn classify(text: Seq<char>) -> VersionKind {
    match semver_parsed(text) {
        Some(parts) => VersionKind::Semantic(parts),
        None => if ends_with(text, "-SNAPSHOT"@) {
            VersionKind::Snapshot(text)
        } else {
            match numeric_parts(text) {
                Some(numbers) => VersionKind::Numeric(numbers),
                None => VersionKind::Unknown(text),
            }
        },
    }
}

/// The version that a text stands for.
pub open spec fn parse_spec(text: Seq<char>) -> VersionView {
    VersionView { original: text, kind: classify(text) }
}

/// Whether a lower-cased version text holds one of the markers of an
/// unstable release.
pub open spec fn has_unstable_marker(lower: Seq<char>) -> bool {
    ||| contains_text(lower, "alpha"@)
    ||| contains_text(lower, "beta"@)
    ||| contains_text(lower, "rc"@)
    ||| contains_text(lower, "snapshot"@)
    ||| contains_text(lower, "dev"@)
    ||| contains_text(lower, "-dev"@)
    ||| contains_text(lower, "+dev"@)
    ||| contains_text(lower, ".dev"@)
    ||| contains_text(lower, "m1"@)
    ||| contains_text(lower, "m2"@)
    ||| contains_text(lower, "m3"@)
    ||| contains_text(lower, "eap"@)
    ||| contains_text(lower, "preview"@)
    ||| contains_text(lower, "canary"@)
}

/// Whether a version is a stable release: its lower-cased text holds no
/// unstable marker, it is no snapshot, and as a semantic version it has no
/// pre-release part.
pub open spec fn stable_view(v: VersionView) -> bool {
    &&& !has_unstable_marker(lowercase_of(v.original))
    &&& match v.kind {
        VersionKind::Semantic(parts) => parts.pre.len() == 0,
        VersionKind::Snapshot(_) => false,
        _ => true,
    }
}

/// The order of two lists of version numbers: element by element, then by
/// length.
pub open spec fn numeric_order(x: Seq<u32>, y: Seq<u32>) -> Precedence {
    lex_order(numbers_of(x), numbers_of(y))
}

/// How version `a` stands to version `b` by what they are classified as,
/// with `Same` where the classification does not tell them apart.
///
/// Two semantic versions follow `semver`, two numeric ones compare number
/// by number and then by length, and a snapshot is lower than anything
/// that is no snapshot.
pub open spec fn class_order(a: VersionView, b: VersionView) -> Precedence {
    match (a.kind, b.kind) {
        (VersionKind::Semantic(x), VersionKind::Semantic(y)) => match semver_precedence(x, y) {
            Some(p) => p,
            None => Precedence::Same,
        },
        (VersionKind::Numeric(x), VersionKind::Numeric(y)) => numeric_order(x, y),
        (VersionKind::Snapshot(_), VersionKind::Snapshot(_)) => Precedence::Same,
        (VersionKind::Snapshot(_), _) => Precedence::Lower,
        (_, VersionKind::Snapshot(_)) => Precedence::Higher,
        _ => Precedence::Same,
    }
}

/// How version `a` stands to version `b`.
///
/// What the versions are classified as decides first, as [`class_order`]
/// says. Versions that it does not tell apart are ordered by their
/// texts: two snapshots, two unrecognized versions, versions of different
/// classifications, and versions that are level as numbers or for
/// `semver` though written differently. So two versions are level only
/// when their texts are the same.
pub open spec fn compare_views(a: VersionView, b: VersionView) -> Precedence {
    match class_order(a, b) {
        Precedence::Same => text_order(a.original, b.original),
        decided => decided,
    }
}

/// Tests whether `lower` holds the marker `marker`.
fn holds_marker(lower: &Vec<char>, marker: &str) -> (r: bool)
    ensures
        r == contains_text(lower@, marker@),
{
    let m = chars_of(marker);
    has_text(lower, &m)
}

impl Version {
    /// Whether the classification of this version is the one of its text.
    pub open spec fn wf(&self) -> bool {
        self@.kind == classify(self@.original)
    }

    /// Reads a version text. Every text is a version: one that fits no
    /// known form is kept as unrecognized.
    pub fn parse(version: &str) -> (r: Version)
        ensures
            r@ == parse_spec(version@),
            r.wf(),
    {
        let parsed = match semver_parse(version) {
            Some(parts) => VersionType::Semantic(parts),
            None => {
                let chars = chars_of(version);
                let suffix = chars_of("-SNAPSHOT");
                if has_suffix(&chars, &suffix) {
                    VersionType::Snapshot(version.to_owned())
                } else {
                    match Self::parse_numeric(version) {
                        Some(numbers) => VersionType::Numeric(numbers),
                        None => VersionType::Unknown(version.to_owned()),
                    }
                }
            },
        };
        Version { original: version.to_owned(), parsed }
    }

    /// Reads a dotted list of numbers, or nothing where a piece between
    /// two dots is no number.
    pub fn parse_numeric(version: &str) -> (r: Option<Vec<u32>>)
        ensures
            match r {
                Some(numbers) => numeric_parts(version@) == Some(numbers@),
                None => numeric_parts(version@) is None,
            },
    {
        let parts = split_text(version, '.');
        let ghost pieces = split_on(version@, '.');
        let mut numbers: Vec<u32> = Vec::new();
        let mut i: usize = 0;
        while i < parts.len()
            invariant
                i <= parts.len(),
                rows(parts@) == pieces,
                pieces == split_on(version@, '.'),
                numbers.len() == i,
                forall|k: int| 0 <= k < i ==> parse_u32_spec(pieces[k]) == Some(#[trigger] numbers@[k]),
            decreases parts.len() - i,
        {
            assert(rows(parts@)[i as int] == parts@[i as int]@);
            match parse_u32(&parts[i]) {
                Some(n) => {
                    numbers.push(n);
                },
                None => {
                    assert(parse_u32_spec(pieces[i as int]) is None);
                    return None;
                },
            }
            i += 1;
        }
        proof {
            assert(pieces.len() == parts.len());
            assert forall|k: int| 0 <= k < pieces.len() implies (#[trigger] parse_u32_spec(
                pieces[k],
            )) is Some by {
                assert(parse_u32_spec(pieces[k]) == Some(numbers@[k]));
            }
            assert(numbers@ =~= numeric_parts(version@)->0) by {
                assert forall|k: int| 0 <= k < numbers@.len() implies numbers@[k] == numeric_parts(
                    version@,
                )->0[k] by {
                    assert(parse_u32_spec(pieces[k]) == Some(numbers@[k]));
                }
            }
        }
        Some(numbers)
    }

    /// Tells whether this is a stable release.
    pub fn is_stable(&self) -> (r: bool)
        ensures
            r == stable_view(self@),
    {
        let lowered = self.original.as_str().to_lowercase();
        let lower = chars_of(lowered.as_str());
        if holds_marker(&lower, "alpha") || holds_marker(&lower, "beta") || holds_marker(
            &lower,
            "rc",
        ) || holds_marker(&lower, "snapshot") || holds_marker(&lower, "dev") || holds_marker(
            &lower,
            "-dev",
        ) || holds_marker(&lower, "+dev") || holds_marker(&lower, ".dev") || holds_marker(
            &lower,
            "m1",
        ) || holds_marker(&lower, "m2") || holds_marker(&lower, "m3") || holds_marker(
            &lower,
            "eap",
        ) || holds_marker(&lower, "preview") || holds_marker(&lower, "canary") {
            return false;
        }
        match &self.parsed {
            VersionType::Semantic(parts) => parts.pre.as_str().is_empty(),
            VersionType::Snapshot(_) => false,
            _ => true,
        }
    }

    /// Tells how this version stands to `other`. Seen from the other
    /// side the comparison gives the reverse, and two versions are level
    /// exactly when their texts are the same.
    pub fn compare(&self, other: &Version) -> (r: Precedence)
        ensures
            r == compare_views(self@, other@),
            compare_views(other@, self@) == r.flipped(),
            r == Precedence::Same ==> self@.original == other@.original,
            self.wf() && other.wf() && self@.original == other@.original ==> r == Precedence::Same,
    {
        proof {
            crate::order::lemma_text_order_is_total(
                self@.original,
                other@.original,
                self@.original,
            );
            crate::order::lemma_text_order_same_iff_equal(self@.original, other@.original);
            match (self@.kind, other@.kind) {
                (VersionKind::Numeric(x), VersionKind::Numeric(y)) => {
                    lemma_numeric_order_is_total(x, y, x);
                },
                _ => {},
            }
        }
        let by_class = match (&self.parsed, &other.parsed) {
            (VersionType::Semantic(a), VersionType::Semantic(b)) => {
                match semver_compare(a, b) {
                    Some(p) => p,
                    None => Precedence::Same,
                }
            },
            (VersionType::Numeric(a), VersionType::Numeric(b)) => compare_numbers(a, b),
            (VersionType::Snapshot(_), VersionType::Snapshot(_)) => Precedence::Same,
            (VersionType::Snapshot(_), _) => Precedence::Lower,
            (_, VersionType::Snapshot(_)) => Precedence::Higher,
            _ => Precedence::Same,
        };
        match by_class {
            Precedence::Same => compare_text(self.original.as_str(), other.original.as_str()),
            decided => decided,
        }
    }
}

/// Whether a version text may be chosen: every text when unstable
/// releases are allowed, only stable ones otherwise.
pub open spec fn eligible(text: Seq<char>, stable_only: bool) -> bool {
    !stable_only || stable_view(parse_spec(text))
}

/// The position of the latest eligible version of a list, or `-1` where
/// none is eligible. Going through the list, a version replaces the best
/// one so far unless it is lower, so of a text that comes several times
/// the last one is chosen.
pub open spec fn latest_index(versions: Seq<Seq<char>>, stable_only: bool) -> int
    decreases versions.len(),
{
    if versions.len() == 0 {
        -1
    } else {
        let before = latest_index(versions.drop_last(), stable_only);
        let last = versions.len() - 1;
        if !eligible(versions[last], stable_only) {
            before
        } else if before < 0 {
            last
        } else if compare_views(parse_spec(versions[last]), parse_spec(versions[before]))
            == Precedence::Lower {
            before
        } else {
            last
        }
    }
}

/// Whether version text `a` is newer than version text `b`.
pub open spec fn newer(a: Seq<char>, b: Seq<char>) -> bool {
    compare_views(parse_spec(a), parse_spec(b)) == Precedence::Higher
}

/// The comparisons that decide which version is the latest one and
/// whether one version is an upgrade of another.
pub struct VersionComparator;

impl VersionComparator {
    /// Picks the latest version of a list, among the stable ones only
    /// where `stable_only` is set.
    pub fn get_latest(versions: &[String], stable_only: bool) -> (r: Option<String>)
        ensures
            match r {
                Some(text) => {
                    &&& 0 <= latest_index(texts(versions@), stable_only) < versions.len()
                    &&& text@ == versions@[latest_index(texts(versions@), stable_only)]@
                },
                None => latest_index(texts(versions@), stable_only) == -1,
            },
    {
        let ghost all = texts(versions@);
        let mut best: Option<(usize, Version)> = None;
        let mut i: usize = 0;
        assert(all.take(0) =~= Seq::<Seq<char>>::empty());
        while i < versions.len()
            invariant
                i <= versions.len(),
                all == texts(versions@),
                match best {
                    Some((at, v)) => {
                        &&& at < i
                        &&& at == latest_index(all.take(i as int), stable_only)
                        &&& v@ == parse_spec(all[at as int])
                    },
                    None => latest_index(all.take(i as int), stable_only) == -1,
                },
            decreases versions.len() - i,
        {
            let candidate = Version::parse(versions[i].as_str());
            proof {
                let upto = all.take(i + 1);
                assert(upto.drop_last() =~= all.take(i as int));
                assert(upto[i as int] == all[i as int]);
                assert(all[i as int] == versions@[i as int]@);
            }
            if !stable_only || candidate.is_stable() {
                let replace = match &best {
                    Some((_, current)) => match candidate.compare(current) {
                        Precedence::Lower => false,
                        _ => true,
                    },
                    None => true,
                };
                if replace {
                    best = Some((i, candidate));
                }
            }
            i += 1;
        }
        assert(all.take(versions.len() as int) =~= all);
        match best {
            Some((at, _)) => Some(versions[at].clone()),
            None => None,
        }
    }

    /// Tells whether version `a` is newer than version `b`. Of two
    /// different versions exactly one is newer than the other, and no
    /// version is newer than itself.
    pub fn is_newer(a: &str, b: &str) -> (r: bool)
        ensures
            r == newer(a@, b@),
            r ==> !newer(b@, a@),
            a@ == b@ ==> !r,
            a@ != b@ ==> r || newer(b@, a@),
    {
        let va = Version::parse(a);
        let vb = Version::parse(b);
        match va.compare(&vb) {
            Precedence::Higher => true,
            _ => false,
        }
    }
}

/// Whether `semver` orders the pair `(y, x)` as the reverse of `(x, y)`.
/// Nothing in this crate proves it of the outside crate: the laws below
/// that need it ask for it.
pub open spec fn semver_order_flips(x: SemanticView, y: SemanticView) -> bool {
    semver_precedence(y, x) == match semver_precedence(x, y) {
        Some(p) => Some(p.flipped()),
        None => None,
    }
}

/// Seen from the other side, a comparison gives the reverse result. For
/// two semantic versions this holds as far as it holds of `semver`.
pub proof fn lemma_compare_flips(a: VersionView, b: VersionView)
    requires
        a.kind is Semantic && b.kind is Semantic ==> semver_order_flips(
            a.kind->Semantic_0,
            b.kind->Semantic_0,
        ),
    ensures
        compare_views(b, a) == compare_views(a, b).flipped(),
{
    crate::order::lemma_text_order_is_total(a.original, b.original, a.original);
    match (a.kind, b.kind) {
        (VersionKind::Numeric(x), VersionKind::Numeric(y)) => {
            lemma_lex_flip(numbers_of(x), numbers_of(y));
        },
        _ => {},
    }
}

/// Two versions are level exactly when their texts are the same. For a
/// semantic version this holds as far as `semver` takes a version for
/// level with itself.
pub proof fn lemma_level_is_same_text(a: Seq<char>, b: Seq<char>)
    requires
        classify(a) is Semantic ==> semver_order_flips(
            classify(a)->Semantic_0,
            classify(a)->Semantic_0,
        ),
    ensures
        compare_views(parse_spec(a), parse_spec(b)) == Precedence::Same <==> a == b,
{
    crate::order::lemma_text_order_same_iff_equal(a, b);
    if a == b {
        match classify(a) {
            VersionKind::Numeric(x) => {
                lemma_numeric_order_is_total(x, x, x);
            },
            _ => {},
        }
    }
}

/// An upgrade goes one way only: where `a` is newer than `b`, `b` is not
/// newer than `a`, and no version is newer than itself. For two semantic
/// versions this holds as far as it holds of `semver`.
pub proof fn lemma_newer_is_one_way(a: Seq<char>, b: Seq<char>)
    requires
        classify(a) is Semantic && classify(b) is Semantic ==> semver_order_flips(
            classify(a)->Semantic_0,
            classify(b)->Semantic_0,
        ),
    ensures
        newer(a, b) ==> !newer(b, a),
        a == b ==> !newer(a, b),
{
    lemma_compare_flips(parse_spec(a), parse_spec(b));
}

/// A snapshot is lower than every version that is no snapshot, and every
/// such version is higher than a snapshot.
pub proof fn lemma_snapshot_is_lowest(snapshot: VersionView, other: VersionView)
    requires
        snapshot.kind is Snapshot,
        !(other.kind is Snapshot),
    ensures
        compare_views(snapshot, other) == Precedence::Lower,
        compare_views(other, snapshot) == Precedence::Higher,
{
}

/// Numeric versions of different lengths that agree on the shorter one:
/// the longer one is higher, so `1.0.0` is higher than `1.0`.
pub proof fn lemma_longer_numeric_is_higher(x: Seq<u32>, y: Seq<u32>)
    requires
        x.len() < y.len(),
        forall|k: int| 0 <= k < x.len() ==> x[k] == y[k],
    ensures
        numeric_order(y, x) == Precedence::Higher,
        numeric_order(x, y) == Precedence::Lower,
{
    let n = x.len() as int;
    crate::order::lemma_lex_skip_common(numbers_of(x), numbers_of(y), n);
    crate::order::lemma_lex_skip_common(numbers_of(y), numbers_of(x), n);
}

/// Among numeric versions the order is a total order on the lists of
/// numbers: two versions are level exactly when their numbers are the
/// same, a comparison flips with its sides, and the order is transitive.
pub proof fn lemma_numeric_order_is_total(x: Seq<u32>, y: Seq<u32>, z: Seq<u32>)
    ensures
        numeric_order(x, y) == Precedence::Same <==> x == y,
        numeric_order(y, x) == numeric_order(x, y).flipped(),
        numeric_order(x, y) != Precedence::Higher && numeric_order(y, z) != Precedence::Higher
            ==> numeric_order(x, z) != Precedence::Higher,
        numeric_order(x, y) == Precedence::Lower && numeric_order(y, z) == Precedence::Lower
            ==> numeric_order(x, z) == Precedence::Lower,
{
    lemma_lex_same_iff_equal(numbers_of(x), numbers_of(y));
    if numbers_of(x) == numbers_of(y) {
        assert(x.len() == numbers_of(x).len());
        assert(y.len() == numbers_of(y).len());
        assert forall|k: int| 0 <= k < x.len() implies x[k] == y[k] by {
            assert(numbers_of(x)[k] == x[k] as int);
            assert(numbers_of(y)[k] == y[k] as int);
        }
        assert(x =~= y);
    }
    lemma_lex_flip(numbers_of(x), numbers_of(y));
    if numeric_order(x, y) != Precedence::Higher && numeric_order(y, z) != Precedence::Higher {
        lemma_lex_transitive(numbers_of(x), numbers_of(y), numbers_of(z));
    }
}

/// Whether a version is a snapshot or numeric.
pub open spec fn snapshot_or_numeric(v: VersionView) -> bool {
    v.kind is Snapshot || v.kind is Numeric
}

/// Whether a version is a snapshot or unrecognized.
pub open spec fn snapshot_or_unrecognized(v: VersionView) -> bool {
    v.kind is Snapshot || v.kind is Unknown
}

/// Among snapshots and numeric versions, and among snapshots and
/// unrecognized versions, the order is a total order: two versions are
/// level exactly when they are the same, a comparison flips with its
/// sides, and the order is transitive. Numeric versions are ordered by
/// their numbers first.
///
/// The order of all versions is not transitive: between a semantic and
/// a numeric version, and between either and an unrecognized one, the
/// texts decide, and so `9.0` is lower than `10.0`, `10.0` lower than
/// `2.0.0`, and `2.0.0` lower than `9.0`.
pub proof fn lemma_order_is_total_within_class(a: VersionView, b: VersionView, c: VersionView)
    requires
        (snapshot_or_numeric(a) && snapshot_or_numeric(b) && snapshot_or_numeric(c)) || (
        snapshot_or_unrecognized(a) && snapshot_or_unrecognized(b) && snapshot_or_unrecognized(c)),
    ensures
        compare_views(a, b) == Precedence::Same ==> a.original == b.original,
        a == b ==> compare_views(a, b) == Precedence::Same,
        compare_views(b, a) == compare_views(a, b).flipped(),
        compare_views(a, b) != Precedence::Higher && compare_views(b, c) != Precedence::Higher
            ==> compare_views(a, c) != Precedence::Higher,
        compare_views(a, b) == Precedence::Lower && compare_views(b, c) == Precedence::Lower
            ==> compare_views(a, c) == Precedence::Lower,
        a.kind is Numeric && b.kind is Numeric && numeric_order(a.kind->Numeric_0, b.kind->Numeric_0)
            != Precedence::Same ==> compare_views(a, b) == numeric_order(
            a.kind->Numeric_0,
            b.kind->Numeric_0,
        ),
{
    crate::order::lemma_text_order_is_total(a.original, b.original, c.original);
    crate::order::lemma_text_order_is_total(a.original, c.original, b.original);
    crate::order::lemma_text_order_same_iff_equal(a.original, b.original);
    match (a.kind, b.kind, c.kind) {
        (VersionKind::Numeric(x), VersionKind::Numeric(y), VersionKind::Numeric(z)) => {
            lemma_numeric_order_is_total(x, y, z);
            lemma_numeric_order_is_total(y, z, x);
            lemma_numeric_order_is_total(x, z, y);
        },
        (VersionKind::Numeric(x), VersionKind::Numeric(y), _) => {
            lemma_numeric_order_is_total(x, y, x);
        },
        _ => {},
    }
}

/// The latest version of a list is one of its eligible versions, there is
/// none exactly when no version is eligible, and no eligible version that
/// comes after it in the list is higher or level.
pub proof fn lemma_latest_index(versions: Seq<Seq<char>>, stable_only: bool)
    ensures
        -1 <= latest_index(versions, stable_only) < versions.len(),
        latest_index(versions, stable_only) >= 0 ==> eligible(
            versions[latest_index(versions, stable_only)],
            stable_only,
        ),
        latest_index(versions, stable_only) == -1 <==> forall|j: int|
            0 <= j < versions.len() ==> !eligible(#[trigger] versions[j], stable_only),
        forall|j: int|
            latest_index(versions, stable_only) < j < versions.len() && eligible(
                #[trigger] versions[j],
                stable_only,
            ) ==> compare_views(
                parse_spec(versions[j]),
                parse_spec(versions[latest_index(versions, stable_only)]),
            ) == Precedence::Lower,
    decreases versions.len(),
{
    if versions.len() > 0 {
        let front = versions.drop_last();
        lemma_latest_index(front, stable_only);
        let before = latest_index(front, stable_only);
        let at = latest_index(versions, stable_only);
        assert forall|j: int| 0 <= j < front.len() implies front[j] == versions[j] by {}
        if at == -1 {
            assert forall|j: int| 0 <= j < versions.len() implies !eligible(
                #[trigger] versions[j],
                stable_only,
            ) by {
                if j < front.len() {
                    assert(front[j] == versions[j]);
                }
            }
        }
        if before >= 0 {
            assert(eligible(front[before], stable_only));
        }
        assert forall|j: int| at < j < versions.len() && eligible(#[trigger] versions[j], stable_only)
            implies compare_views(parse_spec(versions[j]), parse_spec(versions[at]))
            == Precedence::Lower by {
            if j < front.len() {
                assert(front[j] == versions[j]);
            }
        }
    }
}

/// Where the order is transitive and flips with its sides on the versions
/// of a list, the latest version is a greatest one: no eligible version of
/// the list is higher.
#[verifier::rlimit(30)]
pub proof fn lemma_latest_is_greatest(versions: Seq<Seq<char>>, stable_only: bool)
    requires
        forall|i: int, j: int|
            0 <= i < versions.len() && 0 <= j < versions.len() ==> #[trigger] compare_views(
                parse_spec(versions[j]),
                parse_spec(versions[i]),
            ) == compare_views(parse_spec(versions[i]), parse_spec(versions[j])).flipped(),
        forall|i: int, j: int, k: int|
            0 <= i < versions.len() && 0 <= j < versions.len() && 0 <= k < versions.len()
                && #[trigger] compare_views(parse_spec(versions[i]), parse_spec(versions[j]))
                != Precedence::Higher && #[trigger] compare_views(
                parse_spec(versions[j]),
                parse_spec(versions[k]),
            ) != Precedence::Higher ==> compare_views(
                parse_spec(versions[i]),
                parse_spec(versions[k]),
            ) != Precedence::Higher,
    ensures
        forall|j: int|
            0 <= j < versions.len() && eligible(#[trigger] versions[j], stable_only)
                ==> latest_index(versions, stable_only) >= 0 && compare_views(
                parse_spec(versions[j]),
                parse_spec(versions[latest_index(versions, stable_only)]),
            ) != Precedence::Higher,
    decreases versions.len(),
{
    if versions.len() > 0 {
        let front = versions.drop_last();
        let last = versions.len() - 1;
        assert forall|j: int| 0 <= j < front.len() implies front[j] == versions[j] by {}
        lemma_latest_is_greatest(front, stable_only);
        lemma_latest_index(front, stable_only);
        lemma_latest_index(versions, stable_only);
        let before = latest_index(front, stable_only);
        let at = latest_index(versions, stable_only);
        assert forall|j: int| 0 <= j < versions.len() && eligible(#[trigger] versions[j], stable_only)
            implies at >= 0 && compare_views(parse_spec(versions[j]), parse_spec(versions[at]))
            != Precedence::Higher by {
            let vj = parse_spec(versions[j]);
            if j < last {
                assert(front[j] == versions[j]);
                assert(before >= 0);
                assert(front[before] == versions[before]);
                let vb = parse_spec(versions[before]);
                assert(compare_views(vj, vb) != Precedence::Higher);
                if at != before {
                    let vl = parse_spec(versions[last]);
                    assert(compare_views(vl, vb) != Precedence::Lower);
                    assert(compare_views(vb, vl) == compare_views(vl, vb).flipped());
                    assert(compare_views(vb, vl) != Precedence::Higher);
                }
            } else {
                if at != last {
                    assert(at == before);
                    assert(compare_views(vj, parse_spec(versions[before])) == Precedence::Lower);
                } else {
                    assert(compare_views(vj, vj) == compare_views(vj, vj).flipped());
                }
            }
        }
    }
}

/// Whether `semver` orders three semantic versions as an order does, as
/// far as going from `x` over `y` to `z` needs it: it compares each
/// pair, each comparison flips with its sides, and what is not higher
/// than something that is not higher than a third is not higher than
/// the third. Nothing in this crate proves it of the outside crate: the
/// law below that needs it asks for it.
pub open spec fn semver_is_an_order(x: SemanticView, y: SemanticView, z: SemanticView) -> bool {
    &&& semver_precedence(x, y) is Some
    &&& semver_precedence(y, z) is Some
    &&& semver_precedence(x, z) is Some
    &&& semver_order_flips(x, y)
    &&& semver_order_flips(y, z)
    &&& semver_order_flips(x, z)
    &&& semver_order_flips(x, x)
    &&& semver_passes_on(x, y, z)
    &&& semver_passes_on(y, z, x)
    &&& semver_passes_on(z, x, y)
    &&& semver_passes_on(x, z, y)
    &&& semver_passes_on(y, x, z)
    &&& semver_passes_on(z, y, x)
}

/// Whether, for `semver`, `x` is not higher than `z` where `x` is not
/// higher than `y` and `y` is not higher than `z`.
pub open spec fn semver_passes_on(x: SemanticView, y: SemanticView, z: SemanticView) -> bool {
    semver_precedence(x, y) != Some(Precedence::Higher) && semver_precedence(y, z) != Some(
        Precedence::Higher,
    ) ==> semver_precedence(x, z) != Some(Precedence::Higher)
}

/// Whether a version is a snapshot or semantic.
pub open spec fn snapshot_or_semantic(v: VersionView) -> bool {
    v.kind is Snapshot || v.kind is Semantic
}

/// Among snapshots and semantic versions the order is a total order, as
/// far as the order of `semver` is one: two versions are level only
/// when their texts are the same, a comparison flips with its sides,
/// and the order is transitive.
pub proof fn lemma_order_is_total_among_semantic(a: VersionView, b: VersionView, c: VersionView)
    requires
        snapshot_or_semantic(a) && snapshot_or_semantic(b) && snapshot_or_semantic(c),
        a.kind is Semantic && b.kind is Semantic ==> semver_order_flips(
            a.kind->Semantic_0,
            b.kind->Semantic_0,
        ),
        a.kind is Semantic && b.kind is Semantic && c.kind is Semantic ==> semver_is_an_order(
            a.kind->Semantic_0,
            b.kind->Semantic_0,
            c.kind->Semantic_0,
        ),
    ensures
        compare_views(a, b) == Precedence::Same ==> a.original == b.original,
        compare_views(b, a) == compare_views(a, b).flipped(),
        compare_views(a, b) != Precedence::Higher && compare_views(b, c) != Precedence::Higher
            ==> compare_views(a, c) != Precedence::Higher,
        compare_views(a, b) == Precedence::Lower && compare_views(b, c) == Precedence::Lower
            ==> compare_views(a, c) == Precedence::Lower,
{
    crate::order::lemma_text_order_is_total(a.original, b.original, c.original);
    crate::order::lemma_text_order_is_total(a.original, c.original, b.original);
    crate::order::lemma_text_order_same_iff_equal(a.original, b.original);
    crate::order::lemma_text_order_same_iff_equal(a.original, c.original);
    crate::order::lemma_text_order_same_iff_equal(b.original, c.original);
}

/// Among versions that are all snapshots or numeric, and among versions
/// that are all snapshots or unrecognized, the latest version is a
/// greatest one: no eligible version of the list is higher.
pub proof fn lemma_latest_of_one_class_is_greatest(versions: Seq<Seq<char>>, stable_only: bool)
    requires
        (forall|i: int| 0 <= i < versions.len() ==> snapshot_or_numeric(#[trigger] parse_spec(versions[i])))
            || (forall|i: int|
            0 <= i < versions.len() ==> snapshot_or_unrecognized(#[trigger] parse_spec(versions[i]))),
    ensures
        forall|j: int|
            0 <= j < versions.len() && eligible(#[trigger] versions[j], stable_only)
                ==> latest_index(versions, stable_only) >= 0 && compare_views(
                parse_spec(versions[j]),
                parse_spec(versions[latest_index(versions, stable_only)]),
            ) != Precedence::Higher,
{
    assert forall|i: int, j: int| 0 <= i < versions.len() && 0 <= j < versions.len() implies #[trigger] compare_views(
        parse_spec(versions[j]),
        parse_spec(versions[i]),
    ) == compare_views(parse_spec(versions[i]), parse_spec(versions[j])).flipped() by {
        lemma_order_is_total_within_class(
            parse_spec(versions[i]),
            parse_spec(versions[j]),
            parse_spec(versions[i]),
        );
    }
    assert forall|i: int, j: int, k: int|
        0 <= i < versions.len() && 0 <= j < versions.len() && 0 <= k < versions.len()
            && #[trigger] compare_views(parse_spec(versions[i]), parse_spec(versions[j]))
            != Precedence::Higher && #[trigger] compare_views(
            parse_spec(versions[j]),
            parse_spec(versions[k]),
        ) != Precedence::Higher implies compare_views(
        parse_spec(versions[i]),
        parse_spec(versions[k]),
    ) != Precedence::Higher by {
        lemma_order_is_total_within_class(
            parse_spec(versions[i]),
            parse_spec(versions[j]),
            parse_spec(versions[k]),
        );
    }
    lemma_latest_is_greatest(versions, stable_only);
}

impl PartialOrd for Version {
    /// Orders versions as [`Version::compare`] does.
    fn partial_cmp(&self, other: &Self) -> (r: Option<std::cmp::Ordering>) {
        Some(
            match self.compare(other) {
                Precedence::Lower => std::cmp::Ordering::Less,
                Precedence::Same => std::cmp::Ordering::Equal,
                Precedence::Higher => std::cmp::Ordering::Greater,
            },
        )
    }
}

impl vstd::std_specs::cmp::PartialOrdSpecImpl for Version {
    open spec fn obeys_partial_cmp_spec() -> bool {
        true
    }

    open spec fn partial_cmp_spec(&self, other: &Self) -> Option<std::cmp::Ordering> {
        Some(
            match compare_views(self@, other@) {
                Precedence::Lower => std::cmp::Ordering::Less,
                Precedence::Same => std::cmp::Ordering::Equal,
                Precedence::Higher => std::cmp::Ordering::Greater,
            },
        )
    }
}

} // verus!
