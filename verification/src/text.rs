//! Character-level scanning primitives shared by the parsers: first-match
//! search over a character sequence, splitting on a separator, and verified
//! string comparison.

use vstd::prelude::*;
use vstd::string::StrSliceExecFns;

verus! {

/// Index of the first character of `s` satisfying `p`, if any.
pub open spec fn find_first(s: Seq<char>, p: spec_fn(char) -> bool) -> Option<int>
    decreases s.len(),
{
    if s.len() == 0 {
        None
    } else if p(s[0]) {
        Some(0int)
    } else {
        match find_first(s.skip(1), p) {
            Some(i) => Some(i + 1),
            None => None,
        }
    }
}

/// The predicate matching exactly the character `c`.
pub open spec fn eq_pred(c: char) -> spec_fn(char) -> bool {
    |x: char| x == c
}

/// `find_first` returns the first matching index: it is in bounds, matches,
/// and nothing before it matches; `None` means nothing matches at all.
pub proof fn lemma_find_first(s: Seq<char>, p: spec_fn(char) -> bool)
    ensures
        match find_first(s, p) {
            Some(i) => 0 <= i < s.len() && p(s[i]) && (forall|j: int| 0 <= j < i ==> !p(s[j])),
            None => forall|j: int| 0 <= j < s.len() ==> !p(s[j]),
        },
    decreases s.len(),
{
    if s.len() > 0 && !p(s[0]) {
        lemma_find_first(s.skip(1), p);
        assert(forall|j: int| 0 <= j < s.skip(1).len() ==> s.skip(1)[j] == s[j + 1]);
        match find_first(s.skip(1), p) {
            Some(i) => {
                assert(s[i + 1] == s.skip(1)[i]);
                assert(forall|j: int| 1 <= j < i + 1 ==> !p(#[trigger] s[j])) by {
                    assert(forall|j: int| 1 <= j < i + 1 ==> s[j] == s.skip(1)[j - 1]);
                }
            },
            None => {
                assert(forall|j: int| 1 <= j < s.len() ==> !p(#[trigger] s[j])) by {
                    assert(forall|j: int| 1 <= j < s.len() ==> s[j] == s.skip(1)[j - 1]);
                }
            },
        }
    }
}

/// Converse direction: an index that matches, with no match before it, is
/// what `find_first` returns.
pub proof fn lemma_find_first_is(s: Seq<char>, p: spec_fn(char) -> bool, i: int)
    requires
        0 <= i < s.len(),
        p(s[i]),
        forall|j: int| 0 <= j < i ==> !p(s[j]),
    ensures
        find_first(s, p) == Some(i),
    decreases i,
{
    if i > 0 {
        assert(!p(s[0]));
        assert(s.skip(1)[i - 1] == s[i]);
        assert(forall|j: int| 0 <= j < i - 1 ==> s.skip(1)[j] == s[j + 1]);
        lemma_find_first_is(s.skip(1), p, i - 1);
    }
}

/// Converse direction for the miss case.
pub proof fn lemma_find_first_none(s: Seq<char>, p: spec_fn(char) -> bool)
    requires
        forall|j: int| 0 <= j < s.len() ==> !p(s[j]),
    ensures
        find_first(s, p) is None,
    decreases s.len(),
{
    if s.len() > 0 {
        assert(forall|j: int| 0 <= j < s.skip(1).len() ==> s.skip(1)[j] == s[j + 1]);
        lemma_find_first_none(s.skip(1), p);
    }
}

/// The pieces of `s` between occurrences of the separator `c`, in order.
/// An empty sequence yields one empty piece, matching how a text with no
/// separator yields exactly one piece.
pub open spec fn split_char(s: Seq<char>, c: char) -> Seq<Seq<char>>
    decreases s.len(),
{
    if s.len() == 0 {
        seq![Seq::<char>::empty()]
    } else if s[0] == c {
        seq![Seq::<char>::empty()] + split_char(s.skip(1), c)
    } else {
        let rest = split_char(s.skip(1), c);
        seq![seq![s[0]] + rest[0]] + rest.skip(1)
    }
}

/// Splitting always yields at least one piece.
pub proof fn lemma_split_char_len(s: Seq<char>, c: char)
    ensures
        split_char(s, c).len() >= 1,
    decreases s.len(),
{
    if s.len() > 0 {
        lemma_split_char_len(s.skip(1), c);
    }
}

/// When the separator does not occur, the whole text is the single piece.
pub proof fn lemma_split_char_none(s: Seq<char>, c: char)
    requires
        forall|j: int| 0 <= j < s.len() ==> s[j] != c,
    ensures
        split_char(s, c) == seq![s],
    decreases s.len(),
{
    if s.len() == 0 {
        assert(s =~= Seq::<char>::empty());
    } else {
        assert(forall|j: int| 0 <= j < s.skip(1).len() ==> s.skip(1)[j] == s[j + 1]);
        lemma_split_char_none(s.skip(1), c);
        lemma_split_char_len(s.skip(1), c);
        let rest = split_char(s.skip(1), c);
        assert(rest[0] == s.skip(1));
        assert(seq![s[0]] + s.skip(1) =~= s);
        assert(rest.skip(1) =~= Seq::<Seq<char>>::empty());
        assert(seq![seq![s[0]] + rest[0]] + rest.skip(1) =~= seq![s]);
    }
}

/// Peeling off the first piece: if the first separator stands at `i`, the
/// pieces are the prefix before it followed by the pieces of what comes
/// after it.
pub proof fn lemma_split_char_first(s: Seq<char>, c: char, i: int)
    requires
        0 <= i < s.len(),
        s[i] == c,
        forall|j: int| 0 <= j < i ==> s[j] != c,
    ensures
        split_char(s, c) == seq![s.take(i)] + split_char(s.skip(i + 1), c),
    decreases i,
{
    if i == 0 {
        assert(s.take(0) =~= Seq::<char>::empty());
        assert(seq![Seq::<char>::empty()] + split_char(s.skip(1), c) =~= seq![s.take(0)]
            + split_char(s.skip(1), c));
    } else {
        assert(s[0] != c);
        assert(forall|j: int| 0 <= j < s.skip(1).len() ==> s.skip(1)[j] == s[j + 1]);
        lemma_split_char_first(s.skip(1), c, i - 1);
        lemma_split_char_len(s.skip(1).skip(i), c);
        let rest = split_char(s.skip(1), c);
        assert(rest == seq![s.skip(1).take(i - 1)] + split_char(s.skip(1).skip(i), c));
        assert(rest[0] == s.skip(1).take(i - 1));
        assert(s.skip(1).skip(i) =~= s.skip(i + 1));
        assert(seq![s[0]] + s.skip(1).take(i - 1) =~= s.take(i));
        assert(rest.skip(1) =~= split_char(s.skip(i + 1), c));
        assert(seq![seq![s[0]] + rest[0]] + rest.skip(1) =~= seq![s.take(i)] + split_char(
            s.skip(i + 1),
            c,
        ));
    }
}

/// Verified character-by-character string equality.
pub fn str_eq(a: &str, b: &str) -> (r: bool)
    ensures
        r == (a@ == b@),
{
    let alen = a.unicode_len();
    let blen = b.unicode_len();
    if alen != blen {
        return false;
    }
    let mut i: usize = 0;
    while i < alen
        invariant
            alen == a@.len(),
            alen == b@.len(),
            0 <= i <= alen,
            forall|j: int| 0 <= j < i ==> a@[j] == b@[j],
        decreases alen - i,
    {
        if a.get_char(i) != b.get_char(i) {
            return false;
        }
        i = i + 1;
    }
    proof {
        assert(a@ =~= b@);
    }
    true
}

/// Position of the first occurrence of `c` in `s`, scanning left to right.
pub fn find_char(s: &str, c: char) -> (r: Option<usize>)
    ensures
        match r {
            Some(i) => find_first(s@, eq_pred(c)) == Some(i as int),
            None => find_first(s@, eq_pred(c)) is None,
        },
{
    let n = s.unicode_len();
    let mut i: usize = 0;
    while i < n
        invariant
            n == s@.len(),
            0 <= i <= n,
            forall|j: int| 0 <= j < i ==> s@[j] != c,
        decreases n - i,
    {
        if s.get_char(i) == c {
            proof {
                lemma_find_first_is(s@, eq_pred(c), i as int);
            }
            return Some(i);
        }
        i = i + 1;
    }
    proof {
        lemma_find_first_none(s@, eq_pred(c));
    }
    None
}

} // verus!
