//! Three-way comparison results and the lexicographic order on sequences
//! of integers, with the laws that the version order rests on.

use vstd::prelude::*;

verus! {

/// How a value stands to another one in an order.
#[derive(Clone, Copy, Debug, PartialEq, Eq, Structural)]
pub enum Precedence {
    Lower,
    Same,
    Higher,
}

impl Precedence {
    /// The same comparison seen from the other side.
    pub open spec fn flipped(self) -> Precedence {
        match self {
            Precedence::Lower => Precedence::Higher,
            Precedence::Same => Precedence::Same,
            Precedence::Higher => Precedence::Lower,
        }
    }
}

/// How two integers compare.
pub open spec fn int_order(a: int, b: int) -> Precedence {
    if a < b {
        Precedence::Lower
    } else if a == b {
        Precedence::Same
    } else {
        Precedence::Higher
    }
}

/// The lexicographic order: the first position at which the sequences
/// differ decides; when one is a prefix of the other, the shorter one is
/// lower.
pub open spec fn lex_order(x: Seq<int>, y: Seq<int>) -> Precedence
    decreases x.len(),
{
    if x.len() == 0 || y.len() == 0 {
        int_order(x.len() as int, y.len() as int)
    } else if x[0] != y[0] {
        int_order(x[0], y[0])
    } else {
        lex_order(x.skip(1), y.skip(1))
    }
}

/// Sequences that agree on their first `n` positions compare as their
/// remainders do.
pub proof fn lemma_lex_skip_common(x: Seq<int>, y: Seq<int>, n: int)
    requires
        0 <= n <= x.len(),
        n <= y.len(),
        forall|k: int| 0 <= k < n ==> x[k] == y[k],
    ensures
        lex_order(x, y) == lex_order(x.skip(n), y.skip(n)),
    decreases n,
{
    if n == 0 {
        assert(x.skip(0) =~= x);
        assert(y.skip(0) =~= y);
    } else {
        let x1 = x.skip(1);
        let y1 = y.skip(1);
        assert forall|k: int| 0 <= k < n - 1 implies x1[k] == y1[k] by {
            assert(x1[k] == x[k + 1]);
            assert(y1[k] == y[k + 1]);
        }
        lemma_lex_skip_common(x1, y1, n - 1);
        assert(x1.skip(n - 1) =~= x.skip(n));
        assert(y1.skip(n - 1) =~= y.skip(n));
    }
}

/// Two sequences compare as `Same` exactly when they are equal.
pub proof fn lemma_lex_same_iff_equal(x: Seq<int>, y: Seq<int>)
    ensures
        lex_order(x, y) == Precedence::Same <==> x == y,
    decreases x.len(),
{
    if x.len() == 0 || y.len() == 0 {
        if x.len() == y.len() {
            assert(x =~= y);
        }
    } else if x[0] == y[0] {
        lemma_lex_same_iff_equal(x.skip(1), y.skip(1));
        if x.skip(1) == y.skip(1) {
            assert forall|k: int| 0 <= k < x.len() implies x[k] == y[k] by {
                if k > 0 {
                    assert(x.skip(1)[k - 1] == x[k]);
                    assert(y.skip(1)[k - 1] == y[k]);
                }
            }
            assert(x.len() == x.skip(1).len() + 1);
            assert(y.len() == y.skip(1).len() + 1);
            assert(x =~= y);
        }
    }
}

/// Swapping the two sides flips the result.
pub proof fn lemma_lex_flip(x: Seq<int>, y: Seq<int>)
    ensures
        lex_order(y, x) == lex_order(x, y).flipped(),
    decreases x.len(),
{
    if x.len() != 0 && y.len() != 0 && x[0] == y[0] {
        lemma_lex_flip(x.skip(1), y.skip(1));
    }
}

/// The lexicographic order is transitive, strictly and weakly.
pub proof fn lemma_lex_transitive(x: Seq<int>, y: Seq<int>, z: Seq<int>)
    requires
        lex_order(x, y) != Precedence::Higher,
        lex_order(y, z) != Precedence::Higher,
    ensures
        lex_order(x, z) != Precedence::Higher,
        lex_order(x, z) == Precedence::Same ==> lex_order(x, y) == Precedence::Same && lex_order(y, z)
            == Precedence::Same,
    decreases x.len(),
{
    if x.len() == 0 || y.len() == 0 || z.len() == 0 {
    } else if x[0] == y[0] && y[0] == z[0] {
        lemma_lex_transitive(x.skip(1), y.skip(1), z.skip(1));
    }
}

/// The numbers of a sequence of 32-bit values.
pub open spec fn numbers_of(x: Seq<u32>) -> Seq<int> {
    Seq::new(x.len(), |i: int| x[i] as int)
}

/// The numbers of a sequence of bytes.
pub open spec fn bytes_of(x: Seq<u8>) -> Seq<int> {
    Seq::new(x.len(), |i: int| x[i] as int)
}

/// The order of two texts: the lexicographic order of their UTF-8 bytes,
/// which is how the standard library orders strings.
pub open spec fn text_order(a: Seq<char>, b: Seq<char>) -> Precedence {
    lex_order(bytes_of(vstd::utf8::encode_utf8(a)), bytes_of(vstd::utf8::encode_utf8(b)))
}

/// What a comparison that stopped at position `n` has found out.
proof fn lemma_lex_decided_at(x: Seq<int>, y: Seq<int>, n: int)
    requires
        0 <= n <= x.len(),
        n <= y.len(),
        forall|k: int| 0 <= k < n ==> x[k] == y[k],
    ensures
        n == x.len() || n == y.len() ==> lex_order(x, y) == int_order(x.len() as int, y.len() as int),
        n < x.len() && n < y.len() && x[n] != y[n] ==> lex_order(x, y) == int_order(x[n], y[n]),
{
    lemma_lex_skip_common(x, y, n);
    if n < x.len() && n < y.len() {
        assert(x.skip(n)[0] == x[n]);
        assert(y.skip(n)[0] == y[n]);
    }
}

/// Compares two lists of numbers lexicographically.
pub fn compare_numbers(x: &Vec<u32>, y: &Vec<u32>) -> (r: Precedence)
    ensures
        r == lex_order(numbers_of(x@), numbers_of(y@)),
{
    let mut i: usize = 0;
    while i < x.len() && i < y.len()
        invariant
            i <= x.len(),
            i <= y.len(),
            forall|k: int| 0 <= k < i ==> x@[k] == y@[k],
        decreases x.len() - i,
    {
        if x[i] != y[i] {
            proof {
                lemma_lex_decided_at(numbers_of(x@), numbers_of(y@), i as int);
            }
            return if x[i] < y[i] {
                Precedence::Lower
            } else {
                Precedence::Higher
            };
        }
        i += 1;
    }
    proof {
        lemma_lex_decided_at(numbers_of(x@), numbers_of(y@), i as int);
    }
    if x.len() < y.len() {
        Precedence::Lower
    } else if x.len() == y.len() {
        Precedence::Same
    } else {
        Precedence::Higher
    }
}

/// Compares two byte strings lexicographically.
pub fn compare_bytes(x: &[u8], y: &[u8]) -> (r: Precedence)
    ensures
        r == lex_order(bytes_of(x@), bytes_of(y@)),
{
    let mut i: usize = 0;
    while i < x.len() && i < y.len()
        invariant
            i <= x.len(),
            i <= y.len(),
            forall|k: int| 0 <= k < i ==> x@[k] == y@[k],
        decreases x.len() - i,
    {
        if x[i] != y[i] {
            proof {
                lemma_lex_decided_at(bytes_of(x@), bytes_of(y@), i as int);
            }
            return if x[i] < y[i] {
                Precedence::Lower
            } else {
                Precedence::Higher
            };
        }
        i += 1;
    }
    proof {
        lemma_lex_decided_at(bytes_of(x@), bytes_of(y@), i as int);
    }
    if x.len() < y.len() {
        Precedence::Lower
    } else if x.len() == y.len() {
        Precedence::Same
    } else {
        Precedence::Higher
    }
}

/// Compares two texts as the standard library orders strings.
pub fn compare_text(a: &str, b: &str) -> (r: Precedence)
    ensures
        r == text_order(a@, b@),
{
    compare_bytes(a.as_bytes(), b.as_bytes())
}

/// Two texts compare as `Same` exactly when they are the same text.
pub proof fn lemma_text_order_same_iff_equal(a: Seq<char>, b: Seq<char>)
    ensures
        text_order(a, b) == Precedence::Same <==> a == b,
{
    let ea = vstd::utf8::encode_utf8(a);
    let eb = vstd::utf8::encode_utf8(b);
    lemma_lex_same_iff_equal(bytes_of(ea), bytes_of(eb));
    if bytes_of(ea) == bytes_of(eb) {
        assert(ea.len() == bytes_of(ea).len());
        assert(eb.len() == bytes_of(eb).len());
        assert forall|k: int| 0 <= k < ea.len() implies ea[k] == eb[k] by {
            assert(bytes_of(ea)[k] == ea[k] as int);
            assert(bytes_of(eb)[k] == eb[k] as int);
        }
        assert(ea =~= eb);
        vstd::utf8::encode_utf8_decode_utf8(a);
        vstd::utf8::encode_utf8_decode_utf8(b);
    }
}

/// The order of texts is a total order: a comparison flips with its
/// sides, and the order is transitive.
pub proof fn lemma_text_order_is_total(a: Seq<char>, b: Seq<char>, c: Seq<char>)
    ensures
        text_order(b, a) == text_order(a, b).flipped(),
        text_order(a, b) != Precedence::Higher && text_order(b, c) != Precedence::Higher
            ==> text_order(a, c) != Precedence::Higher,
        text_order(a, b) == Precedence::Lower && text_order(b, c) == Precedence::Lower ==> text_order(
            a,
            c,
        ) == Precedence::Lower,
{
    let x = bytes_of(vstd::utf8::encode_utf8(a));
    let y = bytes_of(vstd::utf8::encode_utf8(b));
    let z = bytes_of(vstd::utf8::encode_utf8(c));
    lemma_lex_flip(x, y);
    if lex_order(x, y) != Precedence::Higher && lex_order(y, z) != Precedence::Higher {
        lemma_lex_transitive(x, y, z);
    }
}

} // verus!
