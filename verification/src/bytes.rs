//! Byte-string utilities the parsers and formatters build on.

use vstd::prelude::*;

verus! {

/// Whether `needle` occurs in `hay` starting exactly at position `i`.
pub open spec fn is_match_at(hay: Seq<u8>, needle: Seq<u8>, i: int) -> bool {
    &&& 0 <= i
    &&& i + needle.len() <= hay.len()
    &&& hay.subrange(i, i + needle.len()) == needle
}

/// The first position at or after `from` where `needle` occurs in `hay`,
/// if there is one.
pub open spec fn spec_find(hay: Seq<u8>, needle: Seq<u8>, from: int) -> Option<int>
    recommends
        0 <= from,
    decreases hay.len() + 1 - from
{
    if from < 0 || from + needle.len() > hay.len() {
        None
    } else if is_match_at(hay, needle, from) {
        Some(from)
    } else {
        spec_find(hay, needle, from + 1)
    }
}

/// A found position is a match, lies at or after `from`, and is the first:
/// no earlier position at or after `from` matches.
pub proof fn lemma_spec_find_is_first(hay: Seq<u8>, needle: Seq<u8>, from: int)
    requires
        0 <= from,
        spec_find(hay, needle, from) is Some,
    ensures
        ({
            let i = spec_find(hay, needle, from)->0;
            &&& from <= i
            &&& is_match_at(hay, needle, i)
            &&& forall|j: int| from <= j < i ==> !is_match_at(hay, needle, j)
        }),
    decreases hay.len() + 1 - from,
{
    if from + needle.len() <= hay.len() && !is_match_at(hay, needle, from) {
        lemma_spec_find_is_first(hay, needle, from + 1);
    }
}

/// When the search fails, no position at or after `from` matches.
pub proof fn lemma_spec_find_none(hay: Seq<u8>, needle: Seq<u8>, from: int)
    requires
        0 <= from,
        spec_find(hay, needle, from) is None,
    ensures
        forall|j: int| from <= j ==> !is_match_at(hay, needle, j),
    decreases hay.len() + 1 - from,
{
    if from + needle.len() <= hay.len() {
        lemma_spec_find_none(hay, needle, from + 1);
    }
}

/// Whether the two byte strings hold the same bytes.
pub fn bytes_eq(a: &[u8], b: &[u8]) -> (r: bool)
    ensures
        r == (a@ == b@),
{
    if a.len() != b.len() {
        assert(a@ != b@);
        return false;
    }
    let mut i: usize = 0;
    while i < a.len()
        invariant
            0 <= i <= a.len(),
            a.len() == b.len(),
            forall|j: int| 0 <= j < i ==> a@[j] == b@[j],
        decreases a.len() - i,
    {
        if a[i] != b[i] {
            assert(a@ != b@);
            return false;
        }
        i += 1;
    }
    assert(a@ =~= b@);
    true
}

/// The bytes of `s` from `a` (inclusive) to `b` (exclusive), as a fresh
/// vector.
pub fn bytes_range(s: &[u8], a: usize, b: usize) -> (r: Vec<u8>)
    requires
        a <= b <= s@.len(),
    ensures
        r@ == s@.subrange(a as int, b as int),
{
    let mut r: Vec<u8> = Vec::new();
    let mut i: usize = a;
    while i < b
        invariant
            a <= i <= b <= s@.len(),
            r@ =~= s@.subrange(a as int, i as int),
        decreases b - i,
    {
        r.push(s[i]);
        i += 1;
        assert(r@ =~= s@.subrange(a as int, i as int));
    }
    r
}

/// A fresh vector holding the same bytes as `s`.
pub fn copy_bytes(s: &[u8]) -> (r: Vec<u8>)
    ensures
        r@ == s@,
{
    let r = bytes_range(s, 0, s.len());
    proof {
        assert(s@.subrange(0, s@.len() as int) =~= s@);
    }
    r
}

/// The first position at or after `from` where `needle` occurs in `hay`.
#[verifier::loop_isolation(false)]
pub fn find_sub(hay: &[u8], needle: &[u8], from: usize) -> (r: Option<usize>)
    ensures
        r matches Some(i) ==> spec_find(hay@, needle@, from as int) == Some(i as int),
        r is None ==> spec_find(hay@, needle@, from as int) is None,
{
    let mut i: usize = from;
    if needle.len() > hay.len() {
        return None;
    }
    let last = hay.len() - needle.len();
    while i <= last
        invariant
            from <= i,
            needle@.len() <= hay@.len(),
            last == hay@.len() - needle@.len(),
            spec_find(hay@, needle@, from as int) == spec_find(hay@, needle@, i as int),
        decreases last + 1 - i,
    {
        let mut j: usize = 0;
        let mut matched = true;
        while j < needle.len() && matched
            invariant
                0 <= j <= needle@.len(),
                i + needle@.len() <= hay@.len(),
                matched == (hay@.subrange(i as int, i + j) =~= needle@.subrange(0, j as int)),
            decreases needle.len() - j,
        {
            if hay[i + j] != needle[j] {
                matched = false;
                assert(hay@.subrange(i as int, i + j + 1)[j as int] != needle@.subrange(
                    0,
                    j as int + 1,
                )[j as int]);
            } else {
                assert(hay@.subrange(i as int, i + j + 1) =~= hay@.subrange(i as int, i + j).push(
                    hay@[i + j],
                ));
                assert(needle@.subrange(0, j as int + 1) =~= needle@.subrange(0, j as int).push(
                    needle@[j as int],
                ));
            }
            j += 1;
        }
        if matched {
            assert(j == needle@.len());
            assert(hay@.subrange(i as int, i + needle@.len()) =~= needle@);
            assert(is_match_at(hay@, needle@, i as int));
            return Some(i);
        }
        proof {
            if needle@.len() == 0 {
                assert(hay@.subrange(i as int, i as int) =~= needle@.subrange(0, 0));
            }
            assert(needle@.len() > 0);
            assert(!is_match_at(hay@, needle@, i as int)) by {
                if is_match_at(hay@, needle@, i as int) {
                    assert(hay@.subrange(i as int, i + needle@.len()).subrange(0, j as int - 1)
                        =~= hay@.subrange(i as int, i + j - 1));
                    assert(needle@.subrange(0, j as int - 1) =~= hay@.subrange(
                        i as int,
                        i + needle@.len(),
                    ).subrange(0, j as int - 1));
                }
            }
            assert(spec_find(hay@, needle@, i as int) == spec_find(hay@, needle@, i as int + 1));
        }
        i += 1;
    }
    None
}

/// The ASCII-lowercase image of one byte.
pub open spec fn spec_lower_byte(c: u8) -> u8 {
    if 0x41 <= c <= 0x5a {
        (c + 0x20) as u8
    } else {
        c
    }
}

/// The ASCII-lowercase image of a byte string.
pub open spec fn spec_ascii_lower(s: Seq<u8>) -> Seq<u8> {
    Seq::new(s.len(), |i: int| spec_lower_byte(s[i]))
}

/// Lowercases the ASCII letters of `s`, leaving every other byte alone.
#[verifier::loop_isolation(false)]
pub fn ascii_lower(s: &[u8]) -> (r: Vec<u8>)
    ensures
        r@ == spec_ascii_lower(s@),
{
    let mut r: Vec<u8> = Vec::new();
    let mut i: usize = 0;
    while i < s.len()
        invariant
            0 <= i <= s@.len(),
            r@ =~= spec_ascii_lower(s@).take(i as int),
        decreases s@.len() - i,
    {
        let c = s[i];
        if 0x41 <= c && c <= 0x5a {
            r.push(c + 0x20);
        } else {
            r.push(c);
        }
        i += 1;
        assert(r@ =~= spec_ascii_lower(s@).take(i as int));
    }
    assert(spec_ascii_lower(s@).take(s@.len() as int) =~= spec_ascii_lower(s@));
    r
}

/// The views of a list of byte vectors.
pub open spec fn seg_views(v: Seq<Vec<u8>>) -> Seq<Seq<u8>> {
    Seq::new(v.len(), |k: int| v[k]@)
}

/// Lexicographic byte order, compared from position `i` on: a string
/// precedes another when its first differing byte is smaller, and a
/// proper prefix precedes every extension of itself.
pub open spec fn lex_le_from(a: Seq<u8>, b: Seq<u8>, i: int) -> bool
    recommends
        0 <= i,
    decreases a.len() - i,
{
    if i >= a.len() {
        true
    } else if i >= b.len() {
        false
    } else if a[i] < b[i] {
        true
    } else if a[i] > b[i] {
        false
    } else {
        lex_le_from(a, b, i + 1)
    }
}

/// Lexicographic byte order.
pub open spec fn lex_le(a: Seq<u8>, b: Seq<u8>) -> bool {
    lex_le_from(a, b, 0)
}

/// The order is total: of any two byte strings, one precedes the other.
pub proof fn lemma_lex_le_total(a: Seq<u8>, b: Seq<u8>, i: int)
    requires
        0 <= i,
    ensures
        lex_le_from(a, b, i) || lex_le_from(b, a, i),
    decreases a.len() - i,
{
    if i < a.len() && i < b.len() && a[i] == b[i] {
        lemma_lex_le_total(a, b, i + 1);
    }
}

/// The order is transitive.
pub proof fn lemma_lex_le_trans(a: Seq<u8>, b: Seq<u8>, c: Seq<u8>, i: int)
    requires
        0 <= i,
        lex_le_from(a, b, i),
        lex_le_from(b, c, i),
    ensures
        lex_le_from(a, c, i),
    decreases a.len() - i,
{
    if i < a.len() && i < b.len() && i < c.len() && a[i] == b[i] && b[i] == c[i] {
        lemma_lex_le_trans(a, b, c, i + 1);
    }
}

/// Whether `a` precedes `b` (or equals it) in lexicographic byte order.
pub fn lex_le_exec(a: &[u8], b: &[u8]) -> (r: bool)
    ensures
        r == lex_le(a@, b@),
{
    let mut i: usize = 0;
    loop
        invariant
            0 <= i <= a@.len(),
            i <= b@.len(),
            lex_le(a@, b@) == lex_le_from(a@, b@, i as int),
        decreases a@.len() - i,
    {
        if i == a.len() {
            return true;
        }
        if i == b.len() {
            return false;
        }
        if a[i] < b[i] {
            return true;
        }
        if a[i] > b[i] {
            return false;
        }
        i += 1;
    }
}

/// A list whose byte strings appear in lexicographic order.
pub open spec fn lex_sorted(v: Seq<Seq<u8>>) -> bool {
    forall|p: int, q: int| 0 <= p < q < v.len() ==> lex_le(#[trigger] v[p], #[trigger] v[q])
}

/// Inserting an element anywhere in a list adds exactly it to the list's
/// multiset of elements.
proof fn lemma_insert_to_multiset(s: Seq<Seq<u8>>, k: int, x: Seq<u8>)
    requires
        0 <= k <= s.len(),
    ensures
        s.insert(k, x).to_multiset() =~= s.to_multiset().insert(x),
{
    broadcast use vstd::seq_lib::group_to_multiset_ensures;

    let t = s.insert(k, x);
    t.to_multiset_ensures();
    s.to_multiset_ensures();
    assert(t.remove(k) =~= s);
    assert(t[k] == x);
    assert(s.to_multiset() =~= t.to_multiset().remove(x));
    assert(t.contains(x));
    assert(t.to_multiset().count(x) > 0);
    assert forall|y: Seq<u8>| t.to_multiset().count(y) == s.to_multiset().insert(x).count(
        y,
    ) by {
        if y == x {
            assert(s.to_multiset().count(x) == t.to_multiset().count(x) - 1);
        } else {
            assert(s.to_multiset().count(y) == t.to_multiset().count(y));
        }
    }
}

/// Sorts a list of byte strings into lexicographic order, keeping exactly
/// the same strings with the same multiplicities.
#[verifier::loop_isolation(false)]
pub fn sort_byte_strings(list: Vec<Vec<u8>>) -> (r: Vec<Vec<u8>>)
    ensures
        lex_sorted(seg_views(r@)),
        seg_views(r@).to_multiset() == seg_views(list@).to_multiset(),
{
    let mut r: Vec<Vec<u8>> = Vec::new();
    let mut i: usize = 0;
    proof {
        assert(seg_views(r@) =~= Seq::<Seq<u8>>::empty());
        assert(seg_views(list@.take(0)) =~= Seq::<Seq<u8>>::empty());
        assert(seg_views(r@).to_multiset() =~= seg_views(list@.take(0)).to_multiset());
    }
    while i < list.len()
        invariant
            0 <= i <= list@.len(),
            lex_sorted(seg_views(r@)),
            seg_views(r@).to_multiset() == seg_views(list@.take(i as int)).to_multiset(),
        decreases list@.len() - i,
    {
        let x = copy_bytes(list[i].as_slice());
        let mut k: usize = 0;
        while k < r.len() && lex_le_exec(r[k].as_slice(), x.as_slice())
            invariant
                0 <= k <= r@.len(),
                forall|j: int| 0 <= j < k ==> lex_le(#[trigger] seg_views(r@)[j], x@),
            decreases r@.len() - k,
        {
            k += 1;
        }
        let ghost prev = seg_views(r@);
        let ghost kk = k as int;
        r.insert(k, x);
        proof {
            broadcast use vstd::seq_lib::group_to_multiset_ensures;

            let now = seg_views(r@);
            assert(now =~= prev.insert(kk, list@[i as int]@));
            if kk < prev.len() {
                lemma_lex_le_total(prev[kk], list@[i as int]@, 0);
            }
            assert forall|p: int, q: int| 0 <= p < q < now.len() implies lex_le(
                #[trigger] now[p],
                #[trigger] now[q],
            ) by {
                if q < kk {
                } else if p < kk && q == kk {
                    assert(lex_le(prev[p], now[q]));
                } else if p < kk && q > kk {
                    assert(now[q] == prev[q - 1]);
                } else if p == kk {
                    assert(lex_le(now[p], prev[kk]));
                    assert(now[q] == prev[q - 1]);
                    if q - 1 > kk {
                        assert(lex_le(prev[kk], prev[q - 1]));
                        lemma_lex_le_trans(now[p], prev[kk], prev[q - 1], 0);
                    }
                } else {
                    assert(now[p] == prev[p - 1] && now[q] == prev[q - 1]);
                }
            }
            lemma_insert_to_multiset(prev, kk, list@[i as int]@);
            let t = list@.take(i as int + 1);
            assert(seg_views(t) =~= seg_views(list@.take(i as int)).push(list@[i as int]@));
            seg_views(list@.take(i as int)).to_multiset_ensures();
            assert(seg_views(t).to_multiset() =~= seg_views(list@.take(i as int)).to_multiset()
                .insert(list@[i as int]@));
            assert(seg_views(r@).to_multiset() =~= seg_views(t).to_multiset());
        }
        i += 1;
    }
    proof {
        assert(list@.take(list@.len() as int) =~= list@);
    }
    r
}

} // verus!
