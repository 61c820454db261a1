//! The matcher of entry names: a shell-like pattern with `*` and `?`,
//! matched without regard to case against the whole name. A pattern
//! without `*` and `?` matches wherever it occurs in the name.

use crate::error::GvcError;
use crate::text::{chars_of, text_of, trim_chars, trimmed};
use vstd::prelude::*;

verus! {

/// Whether the `regex` crate accepts a text as a regular expression.
pub uninterp spec fn regex_valid(pattern: Seq<char>) -> bool;

/// Whether the regular expression `pattern` matches somewhere in `text`,
/// as `Regex::is_match` tells it.
pub uninterp spec fn regex_matches(pattern: Seq<char>, text: Seq<char>) -> bool;

/// Compiles `pattern` with `Regex::new` and asks `Regex::is_match` for
/// `text`. Where the pattern is refused, the error is handed out as the
/// message that its `Display` gives; nothing is promised of its words.
#[verifier::external_body]
pub(crate) fn regex_is_match(pattern: &str, text: &str) -> (r: Result<bool, String>)
    ensures
        r is Ok <==> regex_valid(pattern@),
        r is Ok ==> r->Ok_0 == regex_matches(pattern@, text@),
{
    match regex::Regex::new(pattern) {
        Ok(re) => Ok(re.is_match(text)),
        Err(e) => Err(e.to_string()),
    }
}

/// Whether a character has a meaning of its own in a regular expression
/// and is written with a backslash to stand for itself.
pub open spec fn is_regex_special(c: char) -> bool {
    c == '.' || c == '+' || c == '(' || c == ')' || c == '|' || c == '^' || c == '$' || c == '{'
        || c == '}' || c == '[' || c == ']' || c == '\\'
}

/// What one character of a pattern becomes in the regular expression:
/// `*` any run of characters, `?` any one character, any other
/// character itself.
pub open spec fn glob_piece(c: char) -> Seq<char> {
    if c == '*' {
        seq!['.', '*']
    } else if c == '?' {
        seq!['.']
    } else if is_regex_special(c) {
        seq!['\\', c]
    } else {
        seq![c]
    }
}

/// The pieces of all characters of a pattern, in order.
pub open spec fn glob_body(pattern: Seq<char>) -> Seq<char>
    decreases pattern.len(),
{
    if pattern.len() == 0 {
        Seq::empty()
    } else {
        glob_body(pattern.drop_last()) + glob_piece(pattern.last())
    }
}

/// The regular expression of a pattern: case is ignored, and the
/// pattern has to match from the start of the name to its end.
pub open spec fn glob_regex(pattern: Seq<char>) -> Seq<char> {
    seq!['(', '?', 'i', ')', '^'] + glob_body(pattern) + seq!['$']
}

/// Whether a pattern holds a `*` or a `?`.
pub open spec fn has_wildcard(pattern: Seq<char>) -> bool {
    exists|i: int| 0 <= i < pattern.len() && (#[trigger] pattern[i] == '*' || pattern[i] == '?')
}

/// The pattern that is compiled: the pattern as it is where it holds a
/// `*` or a `?`, and else the pattern between two `*`, so that it matches
/// anywhere in a name.
pub open spec fn adjusted_pattern(pattern: Seq<char>) -> Seq<char> {
    if has_wildcard(pattern) {
        pattern
    } else {
        seq!['*'] + pattern + seq!['*']
    }
}

/// The regular expression that the pattern of a user stands for.
pub open spec fn pattern_regex(pattern: Seq<char>) -> Seq<char> {
    glob_regex(adjusted_pattern(trimmed(pattern)))
}

/// Tests whether a pattern holds a `*` or a `?`.
fn check_wildcard(pattern: &Vec<char>) -> (r: bool)
    ensures
        r == has_wildcard(pattern@),
{
    let mut i: usize = 0;
    while i < pattern.len()
        invariant
            i <= pattern.len(),
            forall|k: int| 0 <= k < i ==> !(#[trigger] pattern@[k] == '*' || pattern@[k] == '?'),
        decreases pattern.len() - i,
    {
        if pattern[i] == '*' || pattern[i] == '?' {
            return true;
        }
        i += 1;
    }
    false
}

/// Writes the regular expression of a pattern.
pub fn compile_glob(pattern: &Vec<char>) -> (r: String)
    ensures
        r@ == glob_regex(pattern@),
{
    let mut regex = String::new();
    regex.push('(');
    regex.push('?');
    regex.push('i');
    regex.push(')');
    regex.push('^');
    let ghost head = seq!['(', '?', 'i', ')', '^'];
    assert(regex@ =~= head);
    assert(pattern@.take(0) =~= Seq::<char>::empty());
    let mut i: usize = 0;
    while i < pattern.len()
        invariant
            i <= pattern.len(),
            head == seq!['(', '?', 'i', ')', '^'],
            regex@ == head + glob_body(pattern@.take(i as int)),
        decreases pattern.len() - i,
    {
        let c = pattern[i];
        let ghost before = regex@;
        proof {
            let upto = pattern@.take(i + 1);
            assert(upto.drop_last() =~= pattern@.take(i as int));
            assert(upto.last() == c);
        }
        if c == '*' {
            regex.push('.');
            regex.push('*');
            assert(regex@ =~= before + seq!['.', '*']);
        } else if c == '?' {
            regex.push('.');
            assert(regex@ =~= before + seq!['.']);
        } else if c == '.' || c == '+' || c == '(' || c == ')' || c == '|' || c == '^' || c == '$'
            || c == '{' || c == '}' || c == '[' || c == ']' || c == '\\' {
            regex.push('\\');
            regex.push(c);
            assert(regex@ =~= before + seq!['\\', c]);
        } else {
            regex.push(c);
            assert(regex@ =~= before + seq![c]);
        }
        assert(regex@ =~= head + glob_body(pattern@.take(i + 1)));
        i += 1;
    }
    assert(pattern@.take(pattern.len() as int) =~= pattern@);
    regex.push('$');
    assert(regex@ =~= head + glob_body(pattern@) + seq!['$']);
    regex
}

/// The message with which a pattern is refused that cannot be compiled:
/// it names the pattern that was compiled and the cause.
pub open spec fn refusal_of(pattern: Seq<char>, cause: Seq<char>) -> Seq<char> {
    "Invalid filter pattern '"@ + pattern + "': "@ + cause
}

/// A compiled pattern for the names of catalog entries.
pub struct PatternMatcher {
    regex: String,
}

impl PatternMatcher {
    /// The regular expression that this matcher matches with.
    pub closed spec fn regex(&self) -> Seq<char> {
        self.regex@
    }

    #[verifier::type_invariant]
    spec fn accepted(&self) -> bool {
        regex_valid(self.regex@)
    }

    /// Compiles the pattern of a user. A pattern that is empty but for
    /// white space is refused, and so is one whose regular expression
    /// the `regex` crate does not accept.
    pub fn new(pattern: &str) -> (r: Result<PatternMatcher, GvcError>)
        ensures
            match r {
                Ok(matcher) => {
                    &&& trimmed(pattern@).len() > 0
                    &&& matcher.regex() == pattern_regex(pattern@)
                    &&& regex_valid(pattern_regex(pattern@))
                },
                Err(e) => {
                    &&& e is ProjectValidation
                    &&& trimmed(pattern@).len() == 0 || !regex_valid(pattern_regex(pattern@))
                    &&& trimmed(pattern@).len() == 0 ==> e->ProjectValidation_0@
                        == "Filter pattern cannot be empty"@
                    &&& trimmed(pattern@).len() > 0 ==> exists|cause: Seq<char>|
                        e->ProjectValidation_0@ == #[trigger] refusal_of(
                            adjusted_pattern(trimmed(pattern@)),
                            cause,
                        )
                },
            },
    {
        let chars = chars_of(pattern);
        let kept = trim_chars(&chars);
        if kept.len() == 0 {
            return Err(GvcError::ProjectValidation("Filter pattern cannot be empty".to_owned()));
        }
        let adjusted = if check_wildcard(&kept) {
            kept
        } else {
            let mut wrapped: Vec<char> = Vec::new();
            wrapped.push('*');
            let mut i: usize = 0;
            while i < kept.len()
                invariant
                    i <= kept.len(),
                    wrapped@ == seq!['*'] + kept@.take(i as int),
                decreases kept.len() - i,
            {
                wrapped.push(kept[i]);
                assert(kept@.take(i + 1) =~= kept@.take(i as int).push(kept@[i as int]));
                assert(wrapped@ =~= seq!['*'] + kept@.take(i + 1));
                i += 1;
            }
            assert(kept@.take(kept.len() as int) =~= kept@);
            wrapped.push('*');
            assert(wrapped@ =~= seq!['*'] + kept@ + seq!['*']);
            wrapped
        };
        let regex = compile_glob(&adjusted);
        match regex_is_match(regex.as_str(), "") {
            Ok(_) => Ok(PatternMatcher { regex }),
            Err(cause) => {
                let compiled = text_of(&adjusted);
                let mut message = "Invalid filter pattern '".to_owned();
                message.append(compiled.as_str());
                message.append("': ");
                message.append(cause.as_str());
                assert(message@ == refusal_of(adjusted_pattern(trimmed(pattern@)), cause@));
                Err(GvcError::ProjectValidation(message))
            },
        }
    }

    /// Tells whether the pattern matches a name.
    pub fn matches(&self, value: &str) -> (r: bool)
        ensures
            r == regex_matches(self.regex(), value@),
    {
        proof {
            use_type_invariant(self);
        }
        match regex_is_match(self.regex.as_str(), value) {
            Ok(found) => found,
            Err(_) => false,
        }
    }
}

/// A pattern without `*` and `?` is compiled as a search for the
/// pattern anywhere in the name, whatever stands before and after it.
pub proof fn lemma_plain_pattern_is_wrapped(pattern: Seq<char>)
    requires
        !has_wildcard(trimmed(pattern)),
    ensures
        pattern_regex(pattern) == seq!['(', '?', 'i', ')', '^', '.', '*'] + glob_body(trimmed(pattern))
            + seq!['.', '*', '$'],
{
    let t = trimmed(pattern);
    let front = seq!['*'] + t;
    let whole = front + seq!['*'];
    assert(whole.drop_last() =~= front);
    lemma_glob_body_after_star(t);
    assert(glob_body(whole) == glob_body(front) + seq!['.', '*']);
    assert(seq!['(', '?', 'i', ')', '^'] + (seq!['.', '*'] + glob_body(t) + seq!['.', '*']) + seq!['$']
        =~= seq!['(', '?', 'i', ')', '^', '.', '*'] + glob_body(t) + seq!['.', '*', '$']);
}

/// The pieces of a pattern that starts with `*` start with `.*`.
pub proof fn lemma_glob_body_after_star(rest: Seq<char>)
    ensures
        glob_body(seq!['*'] + rest) == seq!['.', '*'] + glob_body(rest),
    decreases rest.len(),
{
    let whole = seq!['*'] + rest;
    if rest.len() == 0 {
        assert(whole.drop_last() =~= Seq::<char>::empty());
        assert(glob_body(whole.drop_last()) =~= Seq::<char>::empty());
        assert(glob_body(whole) =~= seq!['.', '*']);
        assert(glob_body(rest) =~= Seq::<char>::empty());
    } else {
        assert(whole.drop_last() =~= seq!['*'] + rest.drop_last());
        assert(whole.last() == rest.last());
        lemma_glob_body_after_star(rest.drop_last());
        assert(glob_body(whole) =~= seq!['.', '*'] + glob_body(rest));
    }
}

} // verus!
