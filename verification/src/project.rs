//! The decisions about a project directory that need no look at the
//! disk: which paths are refused, what a project has to hold, how the
//! branch of an update is named and how the build tool is called.

use crate::error::GvcError;
use crate::text::{chars_of, text_of, texts};
use vstd::prelude::*;

verus! {

/// Whether a character may not stand in a path that is handed to a
/// source-control command.
pub open spec fn is_dangerous(c: char) -> bool {
    c == ';' || c == '|' || c == '&' || c == '$' || c == '`' || c == '\n' || c == '\r'
}

/// The position of the first dangerous character of a path, or `-1`.
pub open spec fn first_dangerous(path: Seq<char>) -> int
    decreases path.len(),
{
    if path.len() == 0 {
        -1
    } else {
        let before = first_dangerous(path.drop_last());
        if before >= 0 {
            before
        } else if is_dangerous(path.last()) {
            path.len() - 1
        } else {
            -1
        }
    }
}

/// Finds the first dangerous character of a path.
pub fn dangerous_character(path: &str) -> (r: Option<char>)
    ensures
        match r {
            Some(c) => 0 <= first_dangerous(path@) < path@.len() && c == path@[first_dangerous(path@)],
            None => first_dangerous(path@) == -1,
        },
{
    let chars = chars_of(path);
    let mut i: usize = 0;
    assert(chars@.take(0) =~= Seq::<char>::empty());
    while i < chars.len()
        invariant
            i <= chars.len(),
            chars@ == path@,
            first_dangerous(chars@.take(i as int)) == -1,
        decreases chars.len() - i,
    {
        let c = chars[i];
        proof {
            let upto = chars@.take(i + 1);
            assert(upto.drop_last() =~= chars@.take(i as int));
            assert(upto.last() == c);
        }
        if c == ';' || c == '|' || c == '&' || c == '$' || c == '`' || c == '\n' || c == '\r' {
            proof {
                assert(is_dangerous(c));
                assert(first_dangerous(chars@.take(i + 1)) == i);
                lemma_first_dangerous_stays(chars@, i + 1);
            }
            return Some(c);
        }
        i += 1;
    }
    assert(chars@.take(chars.len() as int) =~= chars@);
    None
}

/// A dangerous character that was found in a prefix of a path is the
/// first one of the whole path.
proof fn lemma_first_dangerous_stays(path: Seq<char>, n: int)
    requires
        0 <= n <= path.len(),
        first_dangerous(path.take(n)) >= 0,
    ensures
        first_dangerous(path) == first_dangerous(path.take(n)),
        first_dangerous(path) < n,
    decreases path.len() - n,
{
    lemma_first_dangerous_bound(path.take(n));
    if n < path.len() {
        let next = path.take(n + 1);
        assert(next.drop_last() =~= path.take(n));
        lemma_first_dangerous_stays(path, n + 1);
    } else {
        assert(path.take(n) =~= path);
    }
}

/// The first dangerous character stands in the path.
proof fn lemma_first_dangerous_bound(path: Seq<char>)
    ensures
        -1 <= first_dangerous(path) < path.len(),
        first_dangerous(path) >= 0 ==> is_dangerous(path[first_dangerous(path)]),
    decreases path.len(),
{
    if path.len() > 0 {
        lemma_first_dangerous_bound(path.drop_last());
    }
}

/// Whether a character may stand in the name of a branch: an ASCII
/// letter or digit, `-`, `_` or `/`.
pub open spec fn is_branch_character(c: char) -> bool {
    ('a' <= c <= 'z') || ('A' <= c <= 'Z') || ('0' <= c <= '9') || c == '-' || c == '_' || c == '/'
}

/// The name of the branch of the update of a day: `deps/update-` and the
/// date, with `-` for every character that may not stand in it, and at
/// most fifty characters long.
pub open spec fn branch_name_of(date: Seq<char>) -> Seq<char> {
    let whole = "deps/update-"@ + date;
    let safe = Seq::new(
        whole.len(),
        |i: int|
            if is_branch_character(whole[i]) {
                whole[i]
            } else {
                '-'
            },
    );
    if safe.len() > 50 {
        safe.take(50)
    } else {
        safe
    }
}

/// Makes the name of the branch of the update of a day.
pub fn safe_branch_name(date: &str) -> (r: String)
    ensures
        r@ == branch_name_of(date@),
        r@.len() <= 50,
        forall|i: int| 0 <= i < r@.len() ==> is_branch_character(r@[i]),
{
    let mut whole = "deps/update-".to_owned();
    whole.append(date);
    let chars = chars_of(whole.as_str());
    let ghost safe = Seq::new(
        chars@.len(),
        |i: int|
            if is_branch_character(chars@[i]) {
                chars@[i]
            } else {
                '-'
            },
    );
    let limit: usize = if chars.len() > 50 {
        50
    } else {
        chars.len()
    };
    let mut out: Vec<char> = Vec::new();
    let mut i: usize = 0;
    while i < limit
        invariant
            i <= limit <= chars.len(),
            out@ == safe.take(i as int),
            safe.len() == chars@.len(),
            forall|k: int|
                0 <= k < chars@.len() ==> safe[k] == if is_branch_character(chars@[k]) {
                    chars@[k]
                } else {
                    '-'
                },
        decreases limit - i,
    {
        let c = chars[i];
        let kept = if ('a' <= c && c <= 'z') || ('A' <= c && c <= 'Z') || ('0' <= c && c <= '9') || c
            == '-' || c == '_' || c == '/' {
            c
        } else {
            '-'
        };
        out.push(kept);
        assert(out@ =~= safe.take(i + 1));
        i += 1;
    }
    proof {
        if chars.len() <= 50 {
            assert(safe.take(limit as int) =~= safe);
        }
    }
    text_of(&out)
}

/// The directories of the system that a project may not lie in.
pub open spec fn forbidden_roots() -> Seq<Seq<char>> {
    seq!["/etc"@, "/sys"@, "/proc"@, "/dev"@, "/boot"@]
}

/// Whether a path lies in the directory `root`: it is the directory, or
/// begins with it and goes on behind a `/`, which may be the last
/// character of `root` itself, as in `/`.
pub open spec fn lies_in(path: Seq<char>, root: Seq<char>) -> bool {
    path.len() >= root.len() && path.take(root.len() as int) == root && (path.len() == root.len()
        || path[root.len() as int] == '/' || (root.len() > 0 && root.last() == '/'))
}

/// Whether a path lies in one of the forbidden directories of the
/// system.
pub open spec fn is_forbidden(path: Seq<char>) -> bool {
    exists|i: int| 0 <= i < forbidden_roots().len() && lies_in(path, #[trigger] forbidden_roots()[i])
}

/// Tests whether a path lies in a directory.
fn check_lies_in(path: &Vec<char>, root: &str) -> (r: bool)
    ensures
        r == lies_in(path@, root@),
{
    let prefix = chars_of(root);
    if path.len() < prefix.len() {
        return false;
    }
    let mut i: usize = 0;
    while i < prefix.len()
        invariant
            i <= prefix.len() <= path.len(),
            prefix@ == root@,
            forall|k: int| 0 <= k < i ==> path@[k] == prefix@[k],
        decreases prefix.len() - i,
    {
        if path[i] != prefix[i] {
            assert(path@.take(prefix@.len() as int)[i as int] == path@[i as int]);
            assert(path@.take(prefix@.len() as int) != prefix@);
            return false;
        }
        i += 1;
    }
    assert(path@.take(prefix@.len() as int) =~= prefix@);
    path.len() == prefix.len() || path[prefix.len()] == '/' || (prefix.len() > 0 && prefix[prefix.len()
        - 1] == '/')
}

/// Tells whether a path lies in one of the forbidden directories of the
/// system.
pub fn is_system_path(path: &str) -> (r: bool)
    ensures
        r == is_forbidden(path@),
{
    let chars = chars_of(path);
    let r = check_lies_in(&chars, "/etc") || check_lies_in(&chars, "/sys") || check_lies_in(
        &chars,
        "/proc",
    ) || check_lies_in(&chars, "/dev") || check_lies_in(&chars, "/boot");
    proof {
        let roots = forbidden_roots();
        if r {
            if lies_in(chars@, "/etc"@) {
                assert(lies_in(chars@, roots[0]));
            } else if lies_in(chars@, "/sys"@) {
                assert(lies_in(chars@, roots[1]));
            } else if lies_in(chars@, "/proc"@) {
                assert(lies_in(chars@, roots[2]));
            } else if lies_in(chars@, "/dev"@) {
                assert(lies_in(chars@, roots[3]));
            } else {
                assert(lies_in(chars@, roots[4]));
            }
        }
    }
    r
}

/// The forbidden directories of the system, for a caller that looks up
/// their canonical forms.
pub fn system_directories() -> (r: Vec<String>)
    ensures
        texts(r@) == forbidden_roots(),
{
    let mut r: Vec<String> = Vec::new();
    r.push("/etc".to_owned());
    r.push("/sys".to_owned());
    r.push("/proc".to_owned());
    r.push("/dev".to_owned());
    r.push("/boot".to_owned());
    assert(texts(r@) =~= forbidden_roots());
    r
}

/// Whether a path lies in one of the directories `roots`.
pub open spec fn lies_in_one_of(path: Seq<char>, roots: Seq<Seq<char>>) -> bool {
    exists|i: int| 0 <= i < roots.len() && lies_in(path, #[trigger] roots[i])
}

/// What the disk tells of a path: the path with its links resolved,
/// where it exists, whether it is a directory, and where the forbidden
/// directories of the system really lie.
#[derive(Debug, Clone, PartialEq, Eq)]
pub struct PathFacts {
    /// The canonical form of the path; `None` where the path does not
    /// exist or cannot be resolved.
    pub canonical: Option<String>,
    /// Whether the canonical path is a directory.
    pub is_directory: bool,
    /// Whether the path is absolute.
    pub is_absolute: bool,
    /// The canonical forms of the forbidden directories of the system,
    /// as far as they exist.
    pub system_roots: Vec<String>,
    /// What went wrong, in words, where the path cannot be resolved and
    /// the disk said why.
    pub failure: Option<String>,
}

/// The canonical form that the facts give.
pub open spec fn canonical_of(facts: PathFacts) -> Option<Seq<char>> {
    match facts.canonical {
        Some(c) => Some(c@),
        None => None,
    }
}

/// Whether a path may be the directory of a project: it exists, is a
/// directory, and neither the path as given nor its canonical form lies
/// in a forbidden directory of the system, under the name of the
/// directory or under its canonical form.
pub open spec fn project_path_accepted(path: Seq<char>, facts: PathFacts) -> bool {
    &&& canonical_of(facts) is Some
    &&& facts.is_directory
    &&& !is_forbidden(path)
    &&& !is_forbidden(canonical_of(facts)->0)
    &&& !lies_in_one_of(canonical_of(facts)->0, texts(facts.system_roots@))
}

/// The position of the first directory of `roots`, at or after `from`,
/// that a path lies in; `-1` where it lies in none.
pub open spec fn first_root(path: Seq<char>, roots: Seq<Seq<char>>, from: int) -> int
    decreases roots.len() - from,
{
    if from < 0 || from >= roots.len() {
        -1
    } else if lies_in(path, roots[from]) {
        from
    } else {
        first_root(path, roots, from + 1)
    }
}

/// `first_root` finds a directory that the path lies in exactly where
/// there is one.
pub proof fn lemma_first_root(path: Seq<char>, roots: Seq<Seq<char>>, from: int)
    requires
        0 <= from,
    ensures
        first_root(path, roots, from) == -1 || (from <= first_root(path, roots, from) < roots.len()
            && lies_in(path, roots[first_root(path, roots, from)])),
        first_root(path, roots, from) == -1 ==> forall|k: int|
            from <= k < roots.len() ==> !lies_in(path, #[trigger] roots[k]),
    decreases roots.len() - from,
{
    if from < roots.len() && !lies_in(path, roots[from]) {
        lemma_first_root(path, roots, from + 1);
    }
}

/// Finds the first directory of a list that a path lies in.
fn find_root(path: &Vec<char>, roots: &Vec<String>) -> (r: Option<usize>)
    ensures
        match r {
            Some(at) => at == first_root(path@, texts(roots@), 0) && at < roots@.len(),
            None => first_root(path@, texts(roots@), 0) == -1,
        },
{
    let mut i: usize = 0;
    while i < roots.len()
        invariant
            i <= roots.len(),
            first_root(path@, texts(roots@), 0) == first_root(path@, texts(roots@), i as int),
        decreases roots.len() - i,
    {
        assert(texts(roots@)[i as int] == roots@[i as int]@);
        if check_lies_in(path, roots[i].as_str()) {
            return Some(i);
        }
        i += 1;
    }
    None
}

/// The forbidden directory that keeps a path from being the directory
/// of a project, if there is one: the first forbidden directory that the
/// path as given lies in, or else the first one that its canonical form
/// lies in, under the name of the directory or else under its
/// canonical form.
pub open spec fn denied_root(path: Seq<char>, canonical: Seq<char>, found: Seq<Seq<char>>) -> Option<
    Seq<char>,
> {
    let named = forbidden_roots();
    if first_root(path, named, 0) >= 0 {
        Some(named[first_root(path, named, 0)])
    } else if first_root(canonical, named, 0) >= 0 {
        Some(named[first_root(canonical, named, 0)])
    } else if first_root(canonical, found, 0) >= 0 {
        Some(found[first_root(canonical, found, 0)])
    } else {
        None
    }
}

/// The message with which a path is refused as the directory of a
/// project, or nothing where it is accepted. The message names the path
/// that cannot be resolved, with what the disk said of it, the path
/// that is no directory, or the forbidden directory.
pub open spec fn project_path_refusal(path: Seq<char>, facts: PathFacts) -> Option<Seq<char>> {
    match facts.canonical {
        None => Some(
            "Invalid path '"@ + path + "'"@ + match facts.failure {
                Some(cause) => ": "@ + cause@,
                None => Seq::empty(),
            },
        ),
        Some(canonical) => if !facts.is_directory {
            Some("Path '"@ + canonical@ + "' is not a directory"@)
        } else {
            match denied_root(path, canonical@, texts(facts.system_roots@)) {
                Some(root) => Some("Access to system directory '"@ + root + "' is not allowed"@),
                None => None,
            }
        },
    }
}

/// A path is accepted as the directory of a project exactly where there
/// is no message to refuse it with.
pub proof fn lemma_refusal_is_rejection(path: Seq<char>, facts: PathFacts)
    ensures
        project_path_accepted(path, facts) <==> project_path_refusal(path, facts) is None,
{
    let named = forbidden_roots();
    lemma_first_root(path, named, 0);
    match facts.canonical {
        Some(canonical) => {
            let found = texts(facts.system_roots@);
            lemma_first_root(canonical@, named, 0);
            lemma_first_root(canonical@, found, 0);
        },
        None => {},
    }
}

/// The message with which a path is refused as the directory that a
/// source-control command works in, or nothing where it is accepted.
pub open spec fn git_path_refusal(path: Seq<char>, facts: PathFacts) -> Option<Seq<char>> {
    if first_dangerous(path) >= 0 {
        Some("Path contains dangerous character: '"@ + seq![path[first_dangerous(path)]] + "'"@)
    } else if !facts.is_absolute {
        Some("Only absolute paths are allowed for Git operations"@)
    } else {
        match project_path_refusal(path, facts) {
            Some(cause) => Some("Invalid Git path: Project validation failed: "@ + cause),
            None => None,
        }
    }
}

/// Whether a path may be handed to a source-control command as the
/// directory of a project: it holds no dangerous character, is absolute
/// and may be the directory of a project.
pub open spec fn git_path_accepted(path: Seq<char>, facts: PathFacts) -> bool {
    &&& first_dangerous(path) == -1
    &&& facts.is_absolute
    &&& project_path_accepted(path, facts)
}

/// Checks paths before anything is read from them or written to them.
pub struct PathValidator;

impl PathValidator {
    /// Checks the directory of a project, given what the disk tells of
    /// it, and hands back its canonical form. A path that is refused is
    /// refused with the message of [`project_path_refusal`].
    pub fn validate_project_path(path: &str, facts: &PathFacts) -> (r: Result<String, GvcError>)
        ensures
            match r {
                Ok(canonical) => project_path_accepted(path@, *facts) && Some(canonical@)
                    == canonical_of(*facts),
                Err(e) => e is ProjectValidation && !project_path_accepted(path@, *facts) && Some(
                    e->ProjectValidation_0@,
                ) == project_path_refusal(path@, *facts),
            },
    {
        proof {
            lemma_refusal_is_rejection(path@, *facts);
        }
        let canonical = match &facts.canonical {
            Some(canonical) => canonical,
            None => {
                let mut message = "Invalid path '".to_owned();
                message.append(path);
                message.append("'");
                match &facts.failure {
                    Some(cause) => {
                        let ghost before = message@;
                        message.append(": ");
                        message.append(cause.as_str());
                        assert(message@ =~= before + (": "@ + cause@));
                    },
                    None => {
                        assert(message@ + Seq::<char>::empty() =~= message@);
                    },
                }
                return Err(GvcError::ProjectValidation(message));
            },
        };
        if !facts.is_directory {
            let mut message = "Path '".to_owned();
            message.append(canonical.as_str());
            message.append("' is not a directory");
            return Err(GvcError::ProjectValidation(message));
        }
        let named = system_directories();
        let given = chars_of(path);
        let resolved = chars_of(canonical.as_str());
        let root: Option<String> = match find_root(&given, &named) {
            Some(at) => Some(named[at].clone()),
            None => match find_root(&resolved, &named) {
                Some(at) => Some(named[at].clone()),
                None => match find_root(&resolved, &facts.system_roots) {
                    Some(at) => Some(facts.system_roots[at].clone()),
                    None => None,
                },
            },
        };
        proof {
            assert(forall|k: int| 0 <= k < named@.len() ==> texts(named@)[k] == named@[k]@);
            assert(forall|k: int|
                0 <= k < facts.system_roots@.len() ==> texts(facts.system_roots@)[k]
                    == facts.system_roots@[k]@);
        }
        match root {
            Some(root) => {
                let mut message = "Access to system directory '".to_owned();
                message.append(root.as_str());
                message.append("' is not allowed");
                Err(GvcError::ProjectValidation(message))
            },
            None => Ok(canonical.clone()),
        }
    }

    /// Checks that a file lies in a directory, both given in their
    /// canonical forms.
    pub fn validate_file_path(canonical_file: &str, canonical_base: &str) -> (r: Result<
        String,
        GvcError,
    >)
        ensures
            match r {
                Ok(file) => file@ == canonical_file@ && lies_in(canonical_file@, canonical_base@),
                Err(e) => e is ProjectValidation && !lies_in(canonical_file@, canonical_base@),
            },
    {
        let chars = chars_of(canonical_file);
        if check_lies_in(&chars, canonical_base) {
            Ok(canonical_file.to_owned())
        } else {
            Err(
                GvcError::ProjectValidation("File path is outside the allowed directory".to_owned()),
            )
        }
    }
}

/// Checks the directory of a project before it is handed to a
/// source-control command, given what the disk tells of it, and hands
/// back its canonical form. A path that is refused is refused with the
/// message of [`git_path_refusal`].
pub fn validate_git_path(path: &str, facts: &PathFacts) -> (r: Result<String, GvcError>)
    ensures
        match r {
            Ok(canonical) => git_path_accepted(path@, *facts) && Some(canonical@) == canonical_of(
                *facts,
            ),
            Err(e) => e is GitOperation && !git_path_accepted(path@, *facts) && Some(
                e->GitOperation_0@,
            ) == git_path_refusal(path@, *facts),
        },
{
    proof {
        lemma_refusal_is_rejection(path@, *facts);
    }
    match dangerous_character(path) {
        Some(c) => {
            let mut message = "Path contains dangerous character: '".to_owned();
            let ghost before = message@;
            message.push(c);
            assert(message@ =~= before + seq![c]);
            message.append("'");
            return Err(GvcError::GitOperation(message));
        },
        None => {},
    }
    if !facts.is_absolute {
        return Err(
            GvcError::GitOperation("Only absolute paths are allowed for Git operations".to_owned()),
        );
    }
    match PathValidator::validate_project_path(path, facts) {
        Ok(canonical) => Ok(canonical),
        Err(e) => {
            let mut message = "Invalid Git path: Project validation failed: ".to_owned();
            match e {
                GvcError::ProjectValidation(cause) => {
                    message.append(cause.as_str());
                },
                _ => {},
            }
            Err(GvcError::GitOperation(message))
        },
    }
}

/// What was found of a project on disk.
#[derive(Debug, Clone, Copy, PartialEq, Eq, Structural)]
pub struct ProjectLayout {
    /// Whether there is a Gradle wrapper script, of either kind.
    pub has_wrapper: bool,
    /// Whether there is a `gradle/libs.versions.toml`.
    pub has_catalog: bool,
    /// Whether there is a `.git` directory.
    pub has_git: bool,
}

/// Decides whether a directory is a project that can be updated: it
/// needs a Gradle wrapper and a version catalog.
pub fn assess_project(layout: ProjectLayout) -> (r: Result<(), GvcError>)
    ensures
        r is Ok <==> layout.has_wrapper && layout.has_catalog,
        r is Err ==> r->Err_0 is ProjectValidation,
{
    if !layout.has_wrapper {
        return Err(
            GvcError::ProjectValidation("Gradle wrapper (gradlew or gradlew.bat) not found".to_owned()),
        );
    }
    if !layout.has_catalog {
        return Err(GvcError::ProjectValidation("gradle/libs.versions.toml not found".to_owned()));
    }
    Ok(())
}

/// The arguments of the build tool for an update of the catalog: the
/// task, then `--interactive` and `--stable-only` where they are asked
/// for.
pub open spec fn update_arguments(interactive: bool, stable_only: bool) -> Seq<Seq<char>> {
    seq!["nl.littlerobots.version-catalog-update:versionCatalogUpdate"@] + (if interactive {
        seq!["--interactive"@]
    } else {
        Seq::empty()
    }) + (if stable_only {
        seq!["--stable-only"@]
    } else {
        Seq::empty()
    })
}

/// Makes the arguments of the build tool for an update of the catalog.
pub fn version_catalog_update_arguments(interactive: bool, stable_only: bool) -> (r: Vec<String>)
    ensures
        crate::text::texts(r@) == update_arguments(interactive, stable_only),
{
    let mut args: Vec<String> = Vec::new();
    args.push("nl.littlerobots.version-catalog-update:versionCatalogUpdate".to_owned());
    if interactive {
        args.push("--interactive".to_owned());
    }
    if stable_only {
        args.push("--stable-only".to_owned());
    }
    assert(crate::text::texts(args@) =~= update_arguments(interactive, stable_only));
    args
}

} // verus!
