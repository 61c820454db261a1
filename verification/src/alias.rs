//! The names that new entries of the catalog are given: an alias for the
//! entry and an alias for its version, both made of the words of its
//! coordinate.

use crate::text::{chars_of, lowercase_of, rows, split_chars_from, split_on, text_of, texts};
use vstd::prelude::*;

verus! {

/// Whether a character is an ASCII letter or digit.
pub open spec fn is_ascii_alphanumeric(c: char) -> bool {
    ('a' <= c <= 'z') || ('A' <= c <= 'Z') || ('0' <= c <= '9')
}

/// The ASCII letters and digits of a text, in order.
pub open spec fn alphanumerics(s: Seq<char>) -> Seq<char>
    decreases s.len(),
{
    if s.len() == 0 {
        Seq::empty()
    } else if is_ascii_alphanumeric(s.last()) {
        alphanumerics(s.drop_last()).push(s.last())
    } else {
        alphanumerics(s.drop_last())
    }
}

/// Whether a word is one of the prefixes that say nothing about a
/// project: `org`, `com`, `net`, `io`, `dev`.
pub open spec fn is_common_prefix(word: Seq<char>) -> bool {
    word == "org"@ || word == "com"@ || word == "net"@ || word == "io"@ || word == "dev"@
}

/// The words of a list of parts: the ASCII letters and digits of each
/// part that is not empty and no common prefix, where any are left.
pub open spec fn words_of(parts: Seq<Seq<char>>) -> Seq<Seq<char>>
    decreases parts.len(),
{
    if parts.len() == 0 {
        Seq::empty()
    } else {
        let before = words_of(parts.drop_last());
        let part = parts.last();
        if part.len() == 0 || is_common_prefix(part) || alphanumerics(part).len() == 0 {
            before
        } else {
            before.push(alphanumerics(part))
        }
    }
}

/// The words of a dotted name such as a group or a plugin identifier.
pub open spec fn dotted_words(name: Seq<char>) -> Seq<Seq<char>> {
    words_of(split_on(name, '.'))
}

/// A list of words in lower case, without the empty ones and without a
/// word that repeats the one before it.
pub open spec fn normalized_words(words: Seq<Seq<char>>) -> Seq<Seq<char>>
    decreases words.len(),
{
    if words.len() == 0 {
        Seq::empty()
    } else {
        let before = normalized_words(words.drop_last());
        let lowered = lowercase_of(words.last());
        if lowered.len() == 0 || (before.len() > 0 && before.last() == lowered) {
            before
        } else {
            before.push(lowered)
        }
    }
}

/// The words of a list written one after the other with `-` between
/// them.
pub open spec fn hyphenated(words: Seq<Seq<char>>) -> Seq<char>
    decreases words.len(),
{
    if words.len() == 0 {
        Seq::empty()
    } else if words.len() == 1 {
        words[0]
    } else {
        hyphenated(words.drop_last()) + seq!['-'] + words.last()
    }
}

/// The alias that a list of words makes.
pub open spec fn alias_of(words: Seq<Seq<char>>) -> Seq<char> {
    hyphenated(normalized_words(words))
}

/// Keeps the ASCII letters and digits of a text.
fn keep_alphanumerics(part: &Vec<char>) -> (r: Vec<char>)
    ensures
        r@ == alphanumerics(part@),
{
    let mut out: Vec<char> = Vec::new();
    let mut i: usize = 0;
    assert(part@.take(0) =~= Seq::<char>::empty());
    while i < part.len()
        invariant
            i <= part.len(),
            out@ == alphanumerics(part@.take(i as int)),
        decreases part.len() - i,
    {
        let c = part[i];
        proof {
            let upto = part@.take(i + 1);
            assert(upto.drop_last() =~= part@.take(i as int));
            assert(upto.last() == c);
        }
        if ('a' <= c && c <= 'z') || ('A' <= c && c <= 'Z') || ('0' <= c && c <= '9') {
            out.push(c);
        }
        i += 1;
    }
    assert(part@.take(part.len() as int) =~= part@);
    out
}

/// Tests whether two lists of characters are the same.
fn same_chars(a: &Vec<char>, b: &Vec<char>) -> (r: bool)
    ensures
        r == (a@ == b@),
{
    if a.len() != b.len() {
        return false;
    }
    let mut i: usize = 0;
    while i < a.len()
        invariant
            i <= a.len(),
            a.len() == b.len(),
            forall|k: int| 0 <= k < i ==> a@[k] == b@[k],
        decreases a.len() - i,
    {
        if a[i] != b[i] {
            return false;
        }
        i += 1;
    }
    assert(a@ =~= b@);
    true
}

/// Tests whether a word is a common prefix.
fn check_common_prefix(word: &Vec<char>) -> (r: bool)
    ensures
        r == is_common_prefix(word@),
{
    same_chars(word, &chars_of("org")) || same_chars(word, &chars_of("com")) || same_chars(
        word,
        &chars_of("net"),
    ) || same_chars(word, &chars_of("io")) || same_chars(word, &chars_of("dev"))
}

/// Makes the words of a list of parts.
fn words_from(parts: &Vec<Vec<char>>) -> (r: Vec<String>)
    ensures
        texts(r@) == words_of(rows(parts@)),
{
    let mut words: Vec<String> = Vec::new();
    let ghost all = rows(parts@);
    let mut i: usize = 0;
    assert(all.take(0) =~= Seq::<Seq<char>>::empty());
    assert(texts(words@) =~= Seq::<Seq<char>>::empty());
    while i < parts.len()
        invariant
            i <= parts.len(),
            all == rows(parts@),
            texts(words@) == words_of(all.take(i as int)),
        decreases parts.len() - i,
    {
        let part = &parts[i];
        proof {
            let upto = all.take(i + 1);
            assert(upto.drop_last() =~= all.take(i as int));
            assert(upto.last() == part@);
        }
        if part.len() > 0 && !check_common_prefix(part) {
            let kept = keep_alphanumerics(part);
            if kept.len() > 0 {
                let ghost before = texts(words@);
                words.push(text_of(&kept));
                assert(texts(words@) =~= before.push(kept@));
            }
        }
        i += 1;
    }
    assert(all.take(parts.len() as int) =~= all);
    words
}

/// The words of a group: the parts between its dots, without the empty
/// ones and the common prefixes, each reduced to its ASCII letters and
/// digits.
pub fn group_tokens(group: &str) -> (r: Vec<String>)
    ensures
        texts(r@) == dotted_words(group@),
{
    let chars = chars_of(group);
    let parts = split_chars_from(&chars, 0, '.');
    assert(chars@.skip(0) =~= chars@);
    words_from(&parts)
}

/// The words of a plugin identifier, made as those of a group.
pub fn plugin_tokens(plugin_id: &str) -> (r: Vec<String>)
    ensures
        texts(r@) == dotted_words(plugin_id@),
{
    group_tokens(plugin_id)
}

/// Writes the first `count` words of a list as an alias: in lower case,
/// without empty words and immediate repetitions, with `-` between them.
fn normalize_first(tokens: &Vec<String>, count: usize) -> (r: String)
    requires
        count <= tokens.len(),
    ensures
        r@ == alias_of(texts(tokens@).take(count as int)),
{
    let mut out = String::new();
    let ghost all = texts(tokens@).take(count as int);
    let mut last: Option<String> = None;
    let mut i: usize = 0;
    assert(all.take(0) =~= Seq::<Seq<char>>::empty());
    while i < count
        invariant
            i <= count <= tokens.len(),
            all == texts(tokens@).take(count as int),
            out@ == hyphenated(normalized_words(all.take(i as int))),
            match last {
                Some(word) => normalized_words(all.take(i as int)).len() > 0 && normalized_words(
                    all.take(i as int),
                ).last() == word@,
                None => normalized_words(all.take(i as int)).len() == 0,
            },
        decreases count - i,
    {
        let lowered = tokens[i].as_str().to_lowercase();
        let ghost before = normalized_words(all.take(i as int));
        proof {
            let upto = all.take(i + 1);
            assert(upto.drop_last() =~= all.take(i as int));
            assert(upto.last() == tokens@[i as int]@);
        }
        let repeats = match &last {
            Some(word) => crate::text::same_text(word.as_str(), lowered.as_str()),
            None => false,
        };
        if !lowered.as_str().is_empty() && !repeats {
            proof {
                let after = before.push(lowered@);
                assert(after.drop_last() =~= before);
                assert(after.last() == lowered@);
                if before.len() == 0 {
                    assert(after.len() == 1);
                    assert(hyphenated(after) == lowered@);
                    assert(out@ =~= Seq::<char>::empty());
                }
            }
            if last.is_some() {
                out.push('-');
            }
            out.append(lowered.as_str());
            proof {
                let after = before.push(lowered@);
                if before.len() > 0 {
                    assert(out@ =~= hyphenated(before) + seq!['-'] + lowered@);
                } else {
                    assert(out@ =~= lowered@);
                }
                assert(out@ == hyphenated(after));
            }
            last = Some(lowered);
        }
        i += 1;
    }
    assert(all.take(count as int) =~= all);
    out
}

/// Writes a list of words as an alias.
pub fn normalize_tokens(tokens: &Vec<String>) -> (r: String)
    ensures
        r@ == alias_of(texts(tokens@)),
{
    let r = normalize_first(tokens, tokens.len());
    assert(texts(tokens@).take(tokens.len() as int) =~= texts(tokens@));
    r
}

/// The alias that a name given by the user stands for.
pub fn sanitize_alias(raw: &str) -> (r: String)
    ensures
        r@ == alias_of(seq![raw@]),
{
    let mut tokens: Vec<String> = Vec::new();
    tokens.push(raw.to_owned());
    assert(texts(tokens@) =~= seq![raw@]);
    normalize_tokens(&tokens)
}

/// The parts of an artifact between its dots and hyphens.
pub open spec fn artifact_parts(artifact: Seq<char>) -> Seq<Seq<char>> {
    split_on(crate::maven::replaced(artifact, '-', '.'), '.')
}

/// The alias of a library: the words of its group, then the parts of
/// its artifact.
pub open spec fn library_alias(group: Seq<char>, artifact: Seq<char>) -> Seq<char> {
    alias_of(dotted_words(group) + artifact_parts(artifact))
}

/// Makes the alias of a library from its group and artifact.
pub fn generate_library_alias(group: &str, artifact: &str) -> (r: String)
    ensures
        r@ == library_alias(group@, artifact@),
{
    let mut tokens = group_tokens(group);
    let ghost words = texts(tokens@);
    let chars = chars_of(artifact);
    let mut dotted: Vec<char> = Vec::new();
    let mut i: usize = 0;
    while i < chars.len()
        invariant
            i <= chars.len(),
            dotted@ == crate::maven::replaced(chars@, '-', '.').take(i as int),
        decreases chars.len() - i,
    {
        let c = chars[i];
        dotted.push(
            if c == '-' {
                '.'
            } else {
                c
            },
        );
        assert(dotted@ =~= crate::maven::replaced(chars@, '-', '.').take(i + 1));
        i += 1;
    }
    assert(crate::maven::replaced(chars@, '-', '.').take(chars.len() as int)
        =~= crate::maven::replaced(chars@, '-', '.'));
    let parts = split_chars_from(&dotted, 0, '.');
    assert(dotted@.skip(0) =~= dotted@);
    let mut k: usize = 0;
    while k < parts.len()
        invariant
            k <= parts.len(),
            texts(tokens@) == words + rows(parts@).take(k as int),
        decreases parts.len() - k,
    {
        let ghost before = texts(tokens@);
        tokens.push(text_of(&parts[k]));
        assert(texts(tokens@) =~= before.push(parts@[k as int]@));
        assert(rows(parts@).take(k + 1) =~= rows(parts@).take(k as int).push(parts@[k as int]@));
        assert(texts(tokens@) =~= words + rows(parts@).take(k + 1));
        k += 1;
    }
    assert(rows(parts@).take(parts.len() as int) =~= rows(parts@));
    normalize_tokens(&tokens)
}

/// Makes the alias of a plugin from its identifier.
pub fn generate_plugin_alias(plugin_id: &str) -> (r: String)
    ensures
        r@ == alias_of(dotted_words(plugin_id@)),
{
    let tokens = plugin_tokens(plugin_id);
    normalize_tokens(&tokens)
}

/// The alias of the version of an entry with these words: the fallback
/// where there is no word; the first two words and `version` where
/// there are three or more; all the words otherwise.
pub open spec fn version_alias_of(words: Seq<Seq<char>>, fallback: Seq<char>) -> Seq<char> {
    if words.len() == 0 {
        fallback
    } else if words.len() >= 3 {
        alias_of(words.take(2)) + "-version"@
    } else {
        alias_of(words)
    }
}

/// Makes the version alias of a list of words.
fn version_alias_from(tokens: &Vec<String>, fallback: &str) -> (r: String)
    ensures
        r@ == version_alias_of(texts(tokens@), fallback@),
{
    if tokens.len() == 0 {
        return fallback.to_owned();
    }
    if tokens.len() >= 3 {
        let mut base = normalize_first(tokens, 2);
        base.append("-version");
        base
    } else {
        normalize_tokens(tokens)
    }
}

/// Makes the version alias of a library from its group.
pub fn generate_version_alias(group: &str) -> (r: String)
    ensures
        r@ == version_alias_of(dotted_words(group@), "version"@),
{
    let tokens = group_tokens(group);
    version_alias_from(&tokens, "version")
}

/// Makes the version alias of a plugin from its identifier.
pub fn generate_plugin_version_alias(plugin_id: &str) -> (r: String)
    ensures
        r@ == version_alias_of(dotted_words(plugin_id@), "plugin-version"@),
{
    let tokens = plugin_tokens(plugin_id);
    version_alias_from(&tokens, "plugin-version")
}

} // verus!
