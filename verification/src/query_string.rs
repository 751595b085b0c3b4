//! Parsing of a `key=value&key2=value2` fragment into a multi-valued
//! mapping. The conversion is total: any text, however malformed, yields
//! some mapping. Keys and values borrow the backing buffer of the request.

use vstd::prelude::*;
use crate::text::{
    eq_pred, find_char, find_first, lemma_find_first, lemma_split_char_first,
    lemma_split_char_none, split_char, str_eq,
};
use vstd::string::StrSliceExecFns;

verus! {

/// The value bound to a key: a key appearing once maps to `Single`; a key
/// appearing two or more times maps to `Multiple`, in order of appearance.
#[derive(Debug)]
pub enum Value<'buf> {
    Single(&'buf str),
    Multiple(Vec<&'buf str>),
}

impl<'buf> View for Value<'buf> {
    type V = Seq<Seq<char>>;

    open spec fn view(&self) -> Seq<Seq<char>> {
        match self {
            Value::Single(v) => seq![v@],
            Value::Multiple(vs) => vs@.map_values(|x: &'buf str| x@),
        }
    }
}

impl<'buf> Value<'buf> {
    /// The `Multiple` form is reserved for keys seen at least twice, so a
    /// value is `Single` exactly when it holds one text.
    pub open spec fn wf(&self) -> bool {
        match self {
            Value::Single(_) => true,
            Value::Multiple(vs) => vs@.len() >= 2,
        }
    }
}

/// The key of one `&`-delimited piece: everything before the first `=`, or
/// the whole piece when it has no `=`.
pub open spec fn pair_key(sub: Seq<char>) -> Seq<char> {
    match find_first(sub, eq_pred('=')) {
        Some(i) => sub.take(i),
        None => sub,
    }
}

/// The value of one `&`-delimited piece: everything after the first `=`
/// verbatim (later `=` characters included), or empty when it has no `=`.
pub open spec fn pair_val(sub: Seq<char>) -> Seq<char> {
    match find_first(sub, eq_pred('=')) {
        Some(i) => sub.skip(i + 1),
        None => Seq::empty(),
    }
}

/// Index of the entry holding key `k`, scanning in insertion order.
pub open spec fn find_key(m: Seq<(Seq<char>, Seq<Seq<char>>)>, k: Seq<char>) -> Option<int>
    decreases m.len(),
{
    if m.len() == 0 {
        None
    } else if m[0].0 == k {
        Some(0int)
    } else {
        match find_key(m.skip(1), k) {
            Some(i) => Some(i + 1),
            None => None,
        }
    }
}

/// The values bound to key `k`, if the key is present.
pub open spec fn lookup(m: Seq<(Seq<char>, Seq<Seq<char>>)>, k: Seq<char>) -> Option<
    Seq<Seq<char>>,
> {
    match find_key(m, k) {
        Some(i) => Some(m[i].1),
        None => None,
    }
}

/// Binding one more value to `k`: appended to the existing entry's values,
/// or a fresh entry at the end when the key is new.
pub open spec fn insert_value(
    m: Seq<(Seq<char>, Seq<Seq<char>>)>,
    k: Seq<char>,
    v: Seq<char>,
) -> Seq<(Seq<char>, Seq<Seq<char>>)> {
    match find_key(m, k) {
        Some(i) => m.update(i, (k, m[i].1.push(v))),
        None => m.push((k, seq![v])),
    }
}

/// Folding the pieces of a fragment into a mapping, left to right.
pub open spec fn insert_pairs(
    m: Seq<(Seq<char>, Seq<Seq<char>>)>,
    subs: Seq<Seq<char>>,
) -> Seq<(Seq<char>, Seq<Seq<char>>)>
    decreases subs.len(),
{
    if subs.len() == 0 {
        m
    } else {
        insert_pairs(insert_value(m, pair_key(subs[0]), pair_val(subs[0])), subs.skip(1))
    }
}

/// The mapping denoted by a whole query-string fragment.
pub open spec fn qs_of(s: Seq<char>) -> Seq<(Seq<char>, Seq<Seq<char>>)> {
    insert_pairs(Seq::empty(), split_char(s, '&'))
}

/// No key occurs in two entries.
pub open spec fn unique_keys(m: Seq<(Seq<char>, Seq<Seq<char>>)>) -> bool {
    forall|i: int, j: int| 0 <= i < j < m.len() ==> m[i].0 != m[j].0
}

/// Binding one more value never duplicates a key.
pub proof fn lemma_insert_value_unique(
    m: Seq<(Seq<char>, Seq<Seq<char>>)>,
    k: Seq<char>,
    v: Seq<char>,
)
    requires
        unique_keys(m),
    ensures
        unique_keys(insert_value(m, k, v)),
{
    lemma_find_key(m, k);
    match find_key(m, k) {
        Some(i) => {
            let m2 = insert_value(m, k, v);
            assert(forall|j: int| 0 <= j < m.len() ==> m2[j].0 == m[j].0);
        },
        None => {},
    }
}

/// Folding pieces never duplicates a key.
pub proof fn lemma_insert_pairs_unique(m: Seq<(Seq<char>, Seq<Seq<char>>)>, subs: Seq<Seq<char>>)
    requires
        unique_keys(m),
    ensures
        unique_keys(insert_pairs(m, subs)),
    decreases subs.len(),
{
    if subs.len() > 0 {
        lemma_insert_value_unique(m, pair_key(subs[0]), pair_val(subs[0]));
        lemma_insert_pairs_unique(
            insert_value(m, pair_key(subs[0]), pair_val(subs[0])),
            subs.skip(1),
        );
    }
}

/// The invariant of the parsed mapping: keys are unique, however often a
/// key repeats in the fragment.
pub proof fn lemma_qs_of_unique_keys(s: Seq<char>)
    ensures
        unique_keys(qs_of(s)),
{
    lemma_insert_pairs_unique(Seq::empty(), split_char(s, '&'));
}

/// The values carried by the pieces whose key is `k`, in their order of
/// appearance.
pub open spec fn values_for(subs: Seq<Seq<char>>, k: Seq<char>) -> Seq<Seq<char>> {
    subs.filter(|sub: Seq<char>| pair_key(sub) == k).map_values(|sub: Seq<char>| pair_val(sub))
}

/// How one binding changes a lookup: the bound key gains the value at the
/// end of its entry, every other key is untouched.
proof fn lemma_lookup_insert_value(
    m: Seq<(Seq<char>, Seq<Seq<char>>)>,
    k2: Seq<char>,
    v: Seq<char>,
    k: Seq<char>,
)
    ensures
        lookup(insert_value(m, k2, v), k) == (if k == k2 {
            match lookup(m, k) {
                Some(old) => Some(old.push(v)),
                None => Some(seq![v]),
            }
        } else {
            lookup(m, k)
        }),
{
    lemma_find_key(m, k2);
    lemma_find_key(m, k);
    let m2 = insert_value(m, k2, v);
    match find_key(m, k2) {
        Some(i) => {
            assert(forall|j: int| 0 <= j < m.len() ==> m2[j].0 == m[j].0);
            match find_key(m, k) {
                Some(t) => {
                    lemma_find_key_is(m2, k, t);
                },
                None => {
                    lemma_find_key_none(m2, k);
                },
            }
        },
        None => {
            assert(forall|j: int| 0 <= j < m.len() ==> m2[j] == m[j]);
            assert(m2[m.len() as int] == (k2, seq![v]));
            if k == k2 {
                lemma_find_key_is(m2, k, m.len() as int);
            } else {
                match find_key(m, k) {
                    Some(t) => {
                        lemma_find_key_is(m2, k, t);
                    },
                    None => {
                        lemma_find_key_none(m2, k);
                    },
                }
            }
        },
    }
}

/// What folding a run of pieces does to one key: its values grow by exactly
/// the values of the pieces bearing that key, in order.
proof fn lemma_lookup_insert_pairs(
    m: Seq<(Seq<char>, Seq<Seq<char>>)>,
    subs: Seq<Seq<char>>,
    k: Seq<char>,
)
    ensures
        lookup(insert_pairs(m, subs), k) == (match lookup(m, k) {
            Some(old) => Some(old + values_for(subs, k)),
            None => if values_for(subs, k).len() == 0 {
                None::<Seq<Seq<char>>>
            } else {
                Some(values_for(subs, k))
            },
        }),
    decreases subs.len(),
{
    let pred = |sub: Seq<char>| pair_key(sub) == k;
    if subs.len() == 0 {
        reveal_with_fuel(Seq::<Seq<char>>::filter, 1);
        assert(values_for(subs, k) =~= Seq::<Seq<char>>::empty());
        match lookup(m, k) {
            Some(old) => {
                assert(old + values_for(subs, k) =~= old);
            },
            None => {},
        }
    } else {
        reveal_with_fuel(Seq::<Seq<char>>::filter, 2);
        let first = subs[0];
        let v0 = pair_val(first);
        let m1 = insert_value(m, pair_key(first), v0);
        lemma_lookup_insert_value(m, pair_key(first), v0, k);
        lemma_lookup_insert_pairs(m1, subs.skip(1), k);
        assert(subs =~= seq![first] + subs.skip(1));
        Seq::filter_distributes_over_add(seq![first], subs.skip(1), pred);
        assert(seq![first].drop_last() =~= Seq::<Seq<char>>::empty());
        if pred(first) {
            assert(seq![first].filter(pred) =~= seq![first]);
            assert(values_for(subs, k) =~= seq![v0] + values_for(subs.skip(1), k));
            match lookup(m, k) {
                Some(old) => {
                    assert(old.push(v0) + values_for(subs.skip(1), k) =~= old + (seq![v0]
                        + values_for(subs.skip(1), k)));
                },
                None => {
                    assert(seq![v0] + values_for(subs.skip(1), k) =~= values_for(subs, k));
                },
            }
        } else {
            assert(seq![first].filter(pred) =~= Seq::<Seq<char>>::empty());
            assert(values_for(subs, k) =~= values_for(subs.skip(1), k));
        }
    }
}

/// Each key of the parsed mapping holds exactly the values of the pieces
/// bearing that key, in order of appearance; a key borne by no piece is
/// absent.
pub proof fn lemma_qs_of_values(s: Seq<char>, k: Seq<char>)
    ensures
        lookup(qs_of(s), k) == (if values_for(split_char(s, '&'), k).len() == 0 {
            None::<Seq<Seq<char>>>
        } else {
            Some(values_for(split_char(s, '&'), k))
        }),
{
    lemma_lookup_insert_pairs(Seq::empty(), split_char(s, '&'), k);
}

/// `find_key` returns the first entry whose key is `k`.
pub proof fn lemma_find_key(m: Seq<(Seq<char>, Seq<Seq<char>>)>, k: Seq<char>)
    ensures
        match find_key(m, k) {
            Some(i) => 0 <= i < m.len() && m[i].0 == k && (forall|j: int|
                0 <= j < i ==> m[j].0 != k),
            None => forall|j: int| 0 <= j < m.len() ==> m[j].0 != k,
        },
    decreases m.len(),
{
    if m.len() > 0 && m[0].0 != k {
        lemma_find_key(m.skip(1), k);
        assert(forall|j: int| 0 <= j < m.skip(1).len() ==> m.skip(1)[j] == m[j + 1]);
        match find_key(m.skip(1), k) {
            Some(i) => {
                assert(m[i + 1] == m.skip(1)[i]);
                assert(forall|j: int| 1 <= j < i + 1 ==> #[trigger] m[j].0 != k) by {
                    assert(forall|j: int| 1 <= j < i + 1 ==> m[j] == m.skip(1)[j - 1]);
                }
            },
            None => {
                assert(forall|j: int| 1 <= j < m.len() ==> #[trigger] m[j].0 != k) by {
                    assert(forall|j: int| 1 <= j < m.len() ==> m[j] == m.skip(1)[j - 1]);
                }
            },
        }
    }
}

/// Converse direction: the first index holding `k` is what `find_key`
/// returns.
pub proof fn lemma_find_key_is(m: Seq<(Seq<char>, Seq<Seq<char>>)>, k: Seq<char>, i: int)
    requires
        0 <= i < m.len(),
        m[i].0 == k,
        forall|j: int| 0 <= j < i ==> m[j].0 != k,
    ensures
        find_key(m, k) == Some(i),
    decreases i,
{
    if i > 0 {
        assert(m[0].0 != k);
        assert(m.skip(1)[i - 1] == m[i]);
        assert(forall|j: int| 0 <= j < i - 1 ==> m.skip(1)[j] == m[j + 1]);
        lemma_find_key_is(m.skip(1), k, i - 1);
    }
}

/// Converse direction for the miss case.
pub proof fn lemma_find_key_none(m: Seq<(Seq<char>, Seq<Seq<char>>)>, k: Seq<char>)
    requires
        forall|j: int| 0 <= j < m.len() ==> m[j].0 != k,
    ensures
        find_key(m, k) is None,
    decreases m.len(),
{
    if m.len() > 0 {
        assert(forall|j: int| 0 <= j < m.skip(1).len() ==> m.skip(1)[j] == m[j + 1]);
        lemma_find_key_none(m.skip(1), k);
    }
}

/// Folding one more piece equals inserting that piece's pair into the fold
/// of the earlier pieces.
pub proof fn lemma_insert_pairs_push(
    m: Seq<(Seq<char>, Seq<Seq<char>>)>,
    subs: Seq<Seq<char>>,
    x: Seq<char>,
)
    ensures
        insert_pairs(m, subs.push(x)) == insert_value(
            insert_pairs(m, subs),
            pair_key(x),
            pair_val(x),
        ),
    decreases subs.len(),
{
    if subs.len() == 0 {
        let m2 = insert_value(m, pair_key(x), pair_val(x));
        assert(subs.push(x)[0] == x);
        assert(subs.push(x).skip(1) =~= Seq::<Seq<char>>::empty());
        assert(insert_pairs(m2, Seq::<Seq<char>>::empty()) == m2);
        assert(insert_pairs(m, subs) == m);
    } else {
        let m1 = insert_value(m, pair_key(subs[0]), pair_val(subs[0]));
        assert(subs.push(x)[0] == subs[0]);
        assert(subs.push(x).skip(1) =~= subs.skip(1).push(x));
        lemma_insert_pairs_push(m1, subs.skip(1), x);
        assert(insert_pairs(m, subs.push(x)) == insert_pairs(m1, subs.push(x).skip(1)));
        assert(insert_pairs(m1, subs.push(x).skip(1)) == insert_pairs(m1, subs.skip(1).push(x)));
        assert(insert_pairs(m, subs) == insert_pairs(m1, subs.skip(1)));
    }
}

/// The mapping that a sequence of entries denotes.
pub open spec fn entries_view<'buf>(data: Seq<(&'buf str, Value<'buf>)>) -> Seq<
    (Seq<char>, Seq<Seq<char>>),
> {
    data.map_values(|p: (&'buf str, Value<'buf>)| (p.0@, p.1@))
}

/// Keys are unique and every value keeps the `Single`/`Multiple`
/// discipline.
pub open spec fn entries_wf<'buf>(data: Seq<(&'buf str, Value<'buf>)>) -> bool {
    &&& forall|i: int, j: int| 0 <= i < j < data.len() ==> data[i].0@ != data[j].0@
    &&& forall|i: int| 0 <= i < data.len() ==> (#[trigger] data[i].1).wf()
}

/// A multi-valued mapping from borrowed keys to borrowed values, in
/// first-occurrence order, with unique keys.
#[derive(Debug)]
pub struct QueryString<'buf> {
    data: Vec<(&'buf str, Value<'buf>)>,
}

impl<'buf> View for QueryString<'buf> {
    type V = Seq<(Seq<char>, Seq<Seq<char>>)>;

    closed spec fn view(&self) -> Seq<(Seq<char>, Seq<Seq<char>>)> {
        entries_view(self.data@)
    }
}

/// Index of the first entry stored under `key`, if any.
fn find_entry<'buf>(data: &Vec<(&'buf str, Value<'buf>)>, key: &str) -> (r: Option<usize>)
    ensures
        match r {
            Some(i) => i < data@.len() && find_key(entries_view(data@), key@) == Some(i as int),
            None => find_key(entries_view(data@), key@) is None,
        },
{
    let n = data.len();
    let mut idx: usize = 0;
    while idx < n
        invariant
            n == data@.len(),
            0 <= idx <= n,
            forall|j: int| 0 <= j < idx ==> data@[j].0@ != key@,
        decreases n - idx,
    {
        if str_eq(data[idx].0, key) {
            proof {
                lemma_find_key_is(entries_view(data@), key@, idx as int);
            }
            return Some(idx);
        }
        idx = idx + 1;
    }
    proof {
        lemma_find_key_none(entries_view(data@), key@);
    }
    None
}

/// Binds one `&`-delimited piece into the entries: splits the piece at its
/// first `=` and accumulates the value under the piece's key.
fn insert_piece<'buf>(data: &mut Vec<(&'buf str, Value<'buf>)>, piece: &'buf str)
    requires
        entries_wf(old(data)@),
    ensures
        entries_view(final(data)@) == insert_value(
            entries_view(old(data)@),
            pair_key(piece@),
            pair_val(piece@),
        ),
        entries_wf(final(data)@),
{
    let plen = piece.unicode_len();
    proof {
        lemma_find_first(piece@, eq_pred('='));
    }
    let (key, val): (&'buf str, &'buf str) = match find_char(piece, '=') {
        Some(eq_i) => (piece.substring_char(0, eq_i), piece.substring_char(eq_i + 1, plen)),
        None => (piece, ""),
    };
    proof {
        reveal_strlit("");
        assert(""@ =~= Seq::<char>::empty());
        assert(key@ =~= pair_key(piece@));
        assert(val@ =~= pair_val(piece@));
    }
    let ghost old_data = data@;
    let ghost old_view = entries_view(data@);
    match find_entry(data, key) {
        Some(idx) => {
            proof {
                lemma_find_key(old_view, key@);
                assert(old_data[idx as int].1.wf());
            }
            let entry = data.remove(idx);
            let new_val = match entry.1 {
                Value::Single(prev) => {
                    let mut vs: Vec<&'buf str> = Vec::new();
                    vs.push(prev);
                    vs.push(val);
                    Value::Multiple(vs)
                },
                Value::Multiple(mut vs) => {
                    vs.push(val);
                    Value::Multiple(vs)
                },
            };
            proof {
                assert(new_val@ =~= old_view[idx as int].1.push(val@));
                assert(new_val.wf());
            }
            data.insert(idx, (entry.0, new_val));
            proof {
                assert(data@ =~= old_data.update(idx as int, (old_data[idx as int].0, new_val)));
                assert(entries_view(data@) =~= old_view.update(
                    idx as int,
                    (key@, old_view[idx as int].1.push(val@)),
                ));
                assert(forall|j: int|
                    0 <= j < data@.len() ==> (#[trigger] data@[j]).0@ == old_data[j].0@);
                assert(entries_wf(data@));
            }
        },
        None => {
            proof {
                lemma_find_key(old_view, key@);
            }
            data.push((key, Value::Single(val)));
            proof {
                assert(entries_view(data@) =~= old_view.push((key@, seq![val@])));
                assert(forall|j: int|
                    0 <= j < old_data.len() ==> (#[trigger] old_data[j]).0@ == old_view[j].0);
                assert(entries_wf(data@));
            }
        },
    }
}

impl<'buf> QueryString<'buf> {
    /// Keys are unique, and every value keeps the `Single`/`Multiple`
    /// discipline, so a value is `Single` exactly when its view holds one
    /// text.
    pub closed spec fn wf(&self) -> bool {
        entries_wf(self.data@)
    }

    /// Total conversion of a query-string fragment: split on `&`, split
    /// each piece at its first `=` (no `=` means an empty value), and
    /// accumulate duplicate keys in order of appearance. No input fails.
    pub fn parse(s: &'buf str) -> (r: QueryString<'buf>)
        ensures
            r@ == qs_of(s@),
            r.wf(),
    {
        let mut data: Vec<(&'buf str, Value<'buf>)> = Vec::new();
        let ghost mut done: Seq<Seq<char>> = Seq::empty();
        let n = s.unicode_len();
        let mut start: usize = 0;
        let mut i: usize = 0;
        proof {
            assert(s@.skip(0) =~= s@);
            assert(done + split_char(s@, '&') =~= split_char(s@, '&'));
            assert(entries_view(data@) =~= Seq::<(Seq<char>, Seq<Seq<char>>)>::empty());
        }
        while i < n
            invariant
                n == s@.len(),
                0 <= start <= i <= n,
                split_char(s@, '&') == done + split_char(s@.skip(start as int), '&'),
                forall|j: int| start <= j < i ==> s@[j] != '&',
                entries_view(data@) == insert_pairs(Seq::empty(), done),
                entries_wf(data@),
            decreases n - i,
        {
            if s.get_char(i) == '&' {
                let piece = s.substring_char(start, i);
                proof {
                    let tail = s@.skip(start as int);
                    assert(forall|j: int| 0 <= j < tail.len() ==> tail[j] == s@[start + j]);
                    lemma_split_char_first(tail, '&', i - start as int);
                    assert(tail.take(i - start as int) =~= piece@);
                    assert(tail.skip(i - start + 1) =~= s@.skip(i + 1));
                    lemma_insert_pairs_push(Seq::empty(), done, piece@);
                    assert(done + split_char(tail, '&') =~= done.push(piece@) + split_char(
                        s@.skip(i + 1),
                        '&',
                    ));
                }
                insert_piece(&mut data, piece);
                proof {
                    done = done.push(piece@);
                }
                start = i + 1;
            }
            i = i + 1;
        }
        let piece = s.substring_char(start, n);
        proof {
            let tail = s@.skip(start as int);
            assert(forall|j: int| 0 <= j < tail.len() ==> tail[j] == s@[start + j]);
            lemma_split_char_none(tail, '&');
            assert(piece@ =~= tail);
            lemma_insert_pairs_push(Seq::empty(), done, piece@);
            assert(done + split_char(tail, '&') =~= done.push(piece@));
        }
        insert_piece(&mut data, piece);
        proof {
            done = done.push(piece@);
            assert(done == split_char(s@, '&'));
        }
        QueryString { data }
    }

    /// Read-only lookup: the value stored under `key`, or `None` for an
    /// absent key. On a well-formed mapping the returned value keeps the
    /// `Single`/`Multiple` discipline.
    pub fn get(&self, key: &str) -> (r: Option<&Value<'buf>>)
        ensures
            match r {
                Some(v) => lookup(self@, key@) == Some(v@) && (self.wf() ==> v.wf()),
                None => lookup(self@, key@) is None,
            },
    {
        match find_entry(&self.data, key) {
            Some(idx) => Some(&self.data[idx].1),
            None => None,
        }
    }
}

} // verus!
