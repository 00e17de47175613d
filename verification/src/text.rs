//! Text as sequences of characters: the lexical order of timestamps and the
//! date portion of a timestamp.

use vstd::prelude::*;
use vstd::std_specs::iter::IteratorSpec;
use vstd::string::{axiom_spec_iter, next_postcondition};

verus! {

/// Lexical order on text, character by character from the front; a text comes
/// before every longer text that it starts.
pub open spec fn lex_le(a: Seq<char>, b: Seq<char>) -> bool
    decreases a.len(),
{
    if a.len() == 0 {
        true
    } else if b.len() == 0 {
        false
    } else if a[0] != b[0] {
        (a[0] as int) < (b[0] as int)
    } else {
        lex_le(a.drop_first(), b.drop_first())
    }
}

/// The texts `a` and `b` agree before `i` and differ at `i`.
pub open spec fn first_difference(a: Seq<char>, b: Seq<char>, i: int) -> bool {
    &&& 0 <= i < a.len()
    &&& i < b.len()
    &&& a.take(i) == b.take(i)
    &&& a[i] != b[i]
}

/// What the lexical order comes to: `a` is at most `b` where `b` starts with
/// `a`, or where they differ and, at the first place at which they do, the
/// character of `a` has the smaller code point.
pub proof fn lemma_lex_le_by_first_difference(a: Seq<char>, b: Seq<char>)
    ensures
        lex_le(a, b) <==> a.is_prefix_of(b) || exists|i: int|
            first_difference(a, b, i) && (a[i] as int) < (b[i] as int),
    decreases a.len(),
{
    if a.len() == 0 {
        assert(a.is_prefix_of(b));
    } else if b.len() == 0 {
    } else if a[0] != b[0] {
        assert(a.take(0) =~= b.take(0));
        assert(first_difference(a, b, 0));
        assert(!a.is_prefix_of(b)) by {
            if a.is_prefix_of(b) {
                assert(a[0] == b.subrange(0, a.len() as int)[0]);
            }
        }
        assert forall|i: int| first_difference(a, b, i) implies i == 0 by {
            if i > 0 {
                assert(a.take(i)[0] == b.take(i)[0]);
            }
        }
    } else {
        let ta = a.drop_first();
        let tb = b.drop_first();
        lemma_lex_le_by_first_difference(ta, tb);
        assert(a.is_prefix_of(b) <==> ta.is_prefix_of(tb)) by {
            if a.is_prefix_of(b) {
                assert(ta =~= tb.subrange(0, ta.len() as int)) by {
                    assert forall|k: int| 0 <= k < ta.len() implies ta[k] == tb[k] by {
                        assert(a[k + 1] == b.subrange(0, a.len() as int)[k + 1]);
                    }
                }
            }
            if ta.is_prefix_of(tb) {
                assert(a =~= b.subrange(0, a.len() as int)) by {
                    assert forall|k: int| 0 <= k < a.len() implies a[k] == b[k] by {
                        if k > 0 {
                            assert(ta[k - 1] == tb.subrange(0, ta.len() as int)[k - 1]);
                        }
                    }
                }
            }
        }
        assert forall|i: int| first_difference(ta, tb, i) implies first_difference(a, b, i + 1) by {
            assert(a.take(i + 1) =~= b.take(i + 1)) by {
                assert forall|k: int| 0 <= k < i + 1 implies a[k] == b[k] by {
                    if k > 0 {
                        assert(ta.take(i)[k - 1] == tb.take(i)[k - 1]);
                    }
                }
            }
        }
        assert forall|i: int| first_difference(a, b, i) implies first_difference(ta, tb, i - 1) by {
            assert(ta.take(i - 1) =~= tb.take(i - 1)) by {
                assert forall|k: int| 0 <= k < i - 1 implies ta[k] == tb[k] by {
                    assert(a.take(i)[k + 1] == b.take(i)[k + 1]);
                }
            }
        }
        if exists|i: int| first_difference(ta, tb, i) && (ta[i] as int) < (tb[i] as int) {
            let i = choose|i: int| first_difference(ta, tb, i) && (ta[i] as int) < (tb[i] as int);
            assert(first_difference(a, b, i + 1) && (a[i + 1] as int) < (b[i + 1] as int));
        }
        if exists|i: int| first_difference(a, b, i) && (a[i] as int) < (b[i] as int) {
            let i = choose|i: int| first_difference(a, b, i) && (a[i] as int) < (b[i] as int);
            assert(first_difference(ta, tb, i - 1) && (ta[i - 1] as int) < (tb[i - 1] as int));
        }
    }
}

/// Every text is at most itself.
pub proof fn lemma_lex_le_refl(a: Seq<char>)
    ensures
        lex_le(a, a),
    decreases a.len(),
{
    if a.len() > 0 {
        lemma_lex_le_refl(a.drop_first());
    }
}

/// Of two texts one is at most the other.
pub proof fn lemma_lex_le_total(a: Seq<char>, b: Seq<char>)
    ensures
        lex_le(a, b) || lex_le(b, a),
    decreases a.len(),
{
    if a.len() > 0 && b.len() > 0 {
        if a[0] == b[0] {
            lemma_lex_le_total(a.drop_first(), b.drop_first());
        } else {
            assert(a[0] as int != b[0] as int);
        }
    }
}

/// Two texts that are each at most the other are the same text.
pub proof fn lemma_lex_le_antisym(a: Seq<char>, b: Seq<char>)
    requires
        lex_le(a, b),
        lex_le(b, a),
    ensures
        a == b,
    decreases a.len(),
{
    if a.len() > 0 && b.len() > 0 {
        lemma_lex_le_antisym(a.drop_first(), b.drop_first());
        assert(a =~= seq![a[0]] + a.drop_first());
        assert(b =~= seq![b[0]] + b.drop_first());
    } else {
        assert(a =~= b);
    }
}

/// The lexical order is transitive.
pub proof fn lemma_lex_le_trans(a: Seq<char>, b: Seq<char>, c: Seq<char>)
    requires
        lex_le(a, b),
        lex_le(b, c),
    ensures
        lex_le(a, c),
    decreases a.len(),
{
    if a.len() > 0 && b.len() > 0 && c.len() > 0 && a[0] == b[0] && b[0] == c[0] {
        lemma_lex_le_trans(a.drop_first(), b.drop_first(), c.drop_first());
    }
}

/// The lexical order is a total order: what the four lemmas above state, of
/// three texts at once.
pub proof fn lemma_lex_le_order(a: Seq<char>, b: Seq<char>, c: Seq<char>)
    ensures
        lex_le(a, a),
        lex_le(a, b) || lex_le(b, a),
        lex_le(b, c) || lex_le(c, b),
        lex_le(a, c) || lex_le(c, a),
        lex_le(a, b) && lex_le(b, a) ==> a == b,
        lex_le(b, c) && lex_le(c, b) ==> b == c,
        lex_le(a, c) && lex_le(c, a) ==> a == c,
        lex_le(a, b) && lex_le(b, c) ==> lex_le(a, c),
{
    lemma_lex_le_refl(a);
    lemma_lex_le_total(a, b);
    lemma_lex_le_total(b, c);
    lemma_lex_le_total(a, c);
    if lex_le(a, b) && lex_le(b, a) {
        lemma_lex_le_antisym(a, b);
    }
    if lex_le(b, c) && lex_le(c, b) {
        lemma_lex_le_antisym(b, c);
    }
    if lex_le(a, c) && lex_le(c, a) {
        lemma_lex_le_antisym(a, c);
    }
    if lex_le(a, b) && lex_le(b, c) {
        lemma_lex_le_trans(a, b, c);
    }
}

/// Whether `a` is at most `b` in lexical order.
pub fn str_le(a: &str, b: &str) -> (r: bool)
    ensures
        r == lex_le(a@, b@),
{
    broadcast use {axiom_spec_iter, next_postcondition};

    let mut rest_a = a.chars();
    let mut rest_b = b.chars();
    loop
        invariant
            lex_le(a@, b@) == lex_le(rest_a.remaining(), rest_b.remaining()),
            rest_a.decrease() is Some,
        decreases rest_a.decrease()->0,
    {
        let next_a = rest_a.next();
        let next_b = rest_b.next();
        match (next_a, next_b) {
            (None, _) => {
                return true;
            },
            (Some(_), None) => {
                return false;
            },
            (Some(x), Some(y)) => {
                if x != y {
                    return x < y;
                }
            },
        }
    }
}

/// The index of the first `c` in `s`, or the length of `s` where it has none.
pub open spec fn first_index_of(s: Seq<char>, c: char) -> int
    decreases s.len(),
{
    if s.len() == 0 {
        0
    } else if s[0] == c {
        0
    } else {
        1 + first_index_of(s.drop_first(), c)
    }
}

/// The date portion of a timestamp: what stands before its first `T`, the
/// whole text where it holds no `T`.
pub open spec fn date_part_of(s: Seq<char>) -> Seq<char> {
    s.take(first_index_of(s, 'T'))
}

/// `first_index_of` lies within the text, nothing before it is `c`, and where
/// it is short of the end, `c` stands there.
pub proof fn lemma_first_index_of(s: Seq<char>, c: char)
    ensures
        0 <= first_index_of(s, c) <= s.len(),
        forall|j: int| 0 <= j < first_index_of(s, c) ==> s[j] != c,
        first_index_of(s, c) < s.len() ==> s[first_index_of(s, c)] == c,
    decreases s.len(),
{
    if s.len() > 0 && s[0] != c {
        let t = s.drop_first();
        lemma_first_index_of(t, c);
        assert forall|j: int| 0 <= j < first_index_of(s, c) implies s[j] != c by {
            if j > 0 {
                assert(s[j] == t[j - 1]);
            }
        }
    }
}

/// A position at which `c` stands, with no `c` before it, is the first index;
/// so is the length, where the text holds no `c`.
pub proof fn lemma_first_index_unique(s: Seq<char>, c: char, i: int)
    requires
        0 <= i <= s.len(),
        forall|j: int| 0 <= j < i ==> s[j] != c,
        i < s.len() ==> s[i] == c,
    ensures
        first_index_of(s, c) == i,
{
    lemma_first_index_of(s, c);
}

/// The date portion of `s`, as a text of its own.
pub fn date_part(s: &str) -> (r: String)
    ensures
        r@ == date_part_of(s@),
{
    broadcast use {axiom_spec_iter, next_postcondition};

    let n: usize = s.unicode_len();
    let mut rest = s.chars();
    let mut i: usize = 0;
    assert(s@.skip(0) =~= s@);
    loop
        invariant_except_break
            rest.remaining() == s@.skip(i as int),
            rest.decrease() is Some,
        invariant
            n == s@.len(),
            i <= n,
            forall|j: int| 0 <= j < i ==> s@[j] != 'T',
        ensures
            i == n || s@[i as int] == 'T',
        decreases rest.decrease()->0,
    {
        match rest.next() {
            None => {
                break ;
            },
            Some(c) => {
                assert(c == s@[i as int]);
                if c == 'T' {
                    break ;
                }
                assert(s@.skip(i as int).drop_first() =~= s@.skip(i + 1));
                i = i + 1;
            },
        }
    }
    proof {
        lemma_first_index_unique(s@, 'T', i as int);
    }
    let r = s.substring_char(0, i).to_owned();
    assert(r@ =~= date_part_of(s@));
    r
}

/// Whether `a` and `b` are the same text.
pub fn same_text(a: &str, b: &str) -> (r: bool)
    ensures
        r == (a@ == b@),
{
    proof {
        lemma_lex_le_refl(a@);
        if lex_le(a@, b@) && lex_le(b@, a@) {
            lemma_lex_le_antisym(a@, b@);
        }
    }
    str_le(a, b) && str_le(b, a)
}

} // verus!
