//! Normalization of content identity paths.
//!
//! A content identity addresses one file inside a repository by a relative
//! path. Callers may hand in a path with a leading root, `.` or `..`
//! navigation; before any URL is built from it the path is reduced to a
//! pure relative form: empty and `.` segments vanish, and leading `..`
//! segments are stripped, while interior `..` segments are kept as the
//! service sees them.

use vstd::prelude::*;

use crate::bytes::{copy_bytes, seg_views};

verus! {

/// The path separator.
pub const SLASH: u8 = 0x2f;

/// The one-byte segment `.`.
pub open spec fn dot_seg() -> Seq<u8> {
    seq![0x2eu8]
}

/// The two-byte segment `..`.
pub open spec fn parent_seg() -> Seq<u8> {
    seq![0x2eu8, 0x2eu8]
}

/// A segment that names a real path component: not empty, not `.`.
/// (`..` counts as one: interior parent navigation is kept.)
pub open spec fn is_normal_seg(g: Seq<u8>) -> bool {
    g.len() > 0 && g != dot_seg()
}

/// `s` split at every separator. Splitting never yields an empty list:
/// the empty path splits into one empty segment.
pub open spec fn spec_segments(s: Seq<u8>) -> Seq<Seq<u8>>
    decreases s.len(),
{
    if s.len() == 0 {
        seq![Seq::<u8>::empty()]
    } else if s[0] == SLASH {
        seq![Seq::<u8>::empty()] + spec_segments(s.skip(1))
    } else {
        let rest = spec_segments(s.skip(1));
        seq![seq![s[0]] + rest[0]] + rest.skip(1)
    }
}

pub proof fn lemma_spec_segments_len(s: Seq<u8>)
    ensures
        spec_segments(s).len() >= 1,
    decreases s.len(),
{
    if s.len() > 0 {
        lemma_spec_segments_len(s.skip(1));
    }
}

/// No segment of a split contains the separator.
pub proof fn lemma_spec_segments_no_slash(s: Seq<u8>)
    ensures
        forall|k: int, j: int|
            0 <= k < spec_segments(s).len() && 0 <= j < spec_segments(s)[k].len()
                ==> spec_segments(s)[k][j] != SLASH,
    decreases s.len(),
{
    if s.len() > 0 {
        lemma_spec_segments_no_slash(s.skip(1));
        lemma_spec_segments_len(s.skip(1));
    }
}

/// The segments that survive normalization: empty and `.` segments are
/// dropped, everything else is kept in order.
pub open spec fn spec_keep_normal(segs: Seq<Seq<u8>>) -> Seq<Seq<u8>>
    decreases segs.len(),
{
    if segs.len() == 0 {
        Seq::empty()
    } else {
        let rest = spec_keep_normal(segs.skip(1));
        if is_normal_seg(segs[0]) {
            seq![segs[0]] + rest
        } else {
            rest
        }
    }
}

/// Everything kept is a normal segment drawn from the input.
pub proof fn lemma_spec_keep_normal_sound(segs: Seq<Seq<u8>>)
    ensures
        forall|k: int|
            0 <= k < spec_keep_normal(segs).len() ==> is_normal_seg(
                #[trigger] spec_keep_normal(segs)[k],
            ) && segs.contains(spec_keep_normal(segs)[k]),
    decreases segs.len(),
{
    if segs.len() > 0 {
        lemma_spec_keep_normal_sound(segs.skip(1));
        let rest = spec_keep_normal(segs.skip(1));
        let r = spec_keep_normal(segs);
        assert forall|k: int| 0 <= k < r.len() implies is_normal_seg(#[trigger] r[k])
            && segs.contains(r[k]) by {
            if is_normal_seg(segs[0]) && k == 0 {
                assert(r[k] == segs[0]);
                assert(segs[0] == segs[0]);
            } else {
                let kr = if is_normal_seg(segs[0]) { k - 1 } else { k };
                assert(r[k] == rest[kr]);
                assert(segs.skip(1).contains(rest[kr]));
                let w = choose|w: int|
                    0 <= w < segs.skip(1).len() && segs.skip(1)[w] == rest[kr];
                assert(segs[w + 1] == rest[kr]);
            }
        }
    }
}

/// The list with its leading `..` segments removed.
pub open spec fn spec_skip_parents(segs: Seq<Seq<u8>>) -> Seq<Seq<u8>>
    decreases segs.len(),
{
    if segs.len() > 0 && segs[0] == parent_seg() {
        spec_skip_parents(segs.skip(1))
    } else {
        segs
    }
}

/// Skipping leading `..` segments keeps a selection of the input's
/// segments and leaves no `..` in front.
pub proof fn lemma_spec_skip_parents_sound(segs: Seq<Seq<u8>>)
    ensures
        ({
            let r = spec_skip_parents(segs);
            &&& forall|k: int| 0 <= k < r.len() ==> segs.contains(#[trigger] r[k])
            &&& r.len() > 0 ==> r[0] != parent_seg()
        }),
    decreases segs.len(),
{
    if segs.len() > 0 && segs[0] == parent_seg() {
        lemma_spec_skip_parents_sound(segs.skip(1));
        let r = spec_skip_parents(segs);
        assert forall|k: int| 0 <= k < r.len() implies segs.contains(#[trigger] r[k]) by {
            assert(segs.skip(1).contains(r[k]));
            let w = choose|w: int| 0 <= w < segs.skip(1).len() && segs.skip(1)[w] == r[k];
            assert(segs[w + 1] == r[k]);
        }
    }
}

/// The segments joined with the separator.
pub open spec fn spec_join(segs: Seq<Seq<u8>>) -> Seq<u8>
    decreases segs.len(),
{
    if segs.len() == 0 {
        Seq::empty()
    } else if segs.len() == 1 {
        segs[0]
    } else {
        segs[0] + seq![SLASH] + spec_join(segs.skip(1))
    }
}

/// A normalized path: split, cleaned of empty and `.` segments, leading
/// `..` navigation stripped, rejoined.
pub open spec fn spec_clean_path(s: Seq<u8>) -> Seq<u8> {
    spec_join(spec_skip_parents(spec_keep_normal(spec_segments(s))))
}

fn copy_seg(g: &Vec<u8>) -> (r: Vec<u8>)
    ensures
        r@ == g@,
{
    copy_bytes(g.as_slice())
}

/// Whether `g` names a real path component (not empty, not `.`).
fn is_normal_seg_exec(g: &Vec<u8>) -> (r: bool)
    ensures
        r == is_normal_seg(g@),
{
    if g.len() == 0 {
        false
    } else if g.len() == 1 && g[0] == 0x2e {
        assert(g@ =~= dot_seg());
        false
    } else {
        assert(g@ != dot_seg());
        true
    }
}

fn is_parent_seg_exec(g: &Vec<u8>) -> (r: bool)
    ensures
        r == (g@ == parent_seg()),
{
    if g.len() == 2 && g[0] == 0x2e && g[1] == 0x2e {
        assert(g@ =~= parent_seg());
        true
    } else {
        assert(g@ != parent_seg());
        false
    }
}

fn split_exec(s: &[u8], i: usize) -> (r: Vec<Vec<u8>>)
    requires
        i <= s@.len(),
    ensures
        seg_views(r@) == spec_segments(s@.skip(i as int)),
        r@.len() >= 1,
    decreases s@.len() - i,
{
    if i == s.len() {
        let mut r: Vec<Vec<u8>> = Vec::new();
        r.push(Vec::new());
        proof {
            assert(s@.skip(i as int) =~= Seq::<u8>::empty());
            assert(seg_views(r@) =~= spec_segments(s@.skip(i as int)));
        }
        r
    } else if s[i] == SLASH {
        let mut r = split_exec(s, i + 1);
        let ghost rv = seg_views(r@);
        r.insert(0, Vec::new());
        proof {
            assert(s@.skip(i as int).skip(1) =~= s@.skip(i as int + 1));
            assert(s@.skip(i as int)[0] == s@[i as int]);
            assert(seg_views(r@) =~= seq![Seq::<u8>::empty()] + rv);
            assert(seg_views(r@) =~= spec_segments(s@.skip(i as int)));
        }
        r
    } else {
        let mut r = split_exec(s, i + 1);
        let ghost rv = seg_views(r@);
        let mut head = r.remove(0);
        let ghost h0 = head@;
        head.insert(0, s[i]);
        r.insert(0, head);
        proof {
            assert(s@.skip(i as int).skip(1) =~= s@.skip(i as int + 1));
            assert(s@.skip(i as int)[0] == s@[i as int]);
            let rest = spec_segments(s@.skip(i as int + 1));
            assert(h0 == rest[0]);
            assert(head@ =~= seq![s@[i as int]] + rest[0]);
            assert forall|k: int| 0 <= k < seg_views(r@).len() implies #[trigger] seg_views(r@)[k]
                == (seq![seq![s@[i as int]] + rest[0]] + rest.skip(1))[k] by {
                if k > 0 {
                    assert(r@[k] == r@.subrange(1, r@.len() as int)[k - 1]);
                    assert(rv[k] == rest[k]);
                }
            }
            assert(seg_views(r@) =~= seq![seq![s@[i as int]] + rest[0]] + rest.skip(1));
            assert(seg_views(r@) =~= spec_segments(s@.skip(i as int)));
        }
        r
    }
}

fn keep_normal_exec(segs: &Vec<Vec<u8>>, i: usize) -> (r: Vec<Vec<u8>>)
    requires
        i <= segs@.len(),
    ensures
        seg_views(r@) == spec_keep_normal(seg_views(segs@).skip(i as int)),
    decreases segs@.len() - i,
{
    if i == segs.len() {
        let r: Vec<Vec<u8>> = Vec::new();
        proof {
            assert(seg_views(segs@).skip(i as int) =~= Seq::<Seq<u8>>::empty());
            assert(seg_views(r@) =~= spec_keep_normal(seg_views(segs@).skip(i as int)));
        }
        r
    } else {
        let mut r = keep_normal_exec(segs, i + 1);
        let ghost rv = seg_views(r@);
        proof {
            assert(seg_views(segs@).skip(i as int).skip(1) =~= seg_views(segs@).skip(i as int + 1));
            assert(seg_views(segs@).skip(i as int)[0] == segs@[i as int]@);
        }
        if is_normal_seg_exec(&segs[i]) {
            r.insert(0, copy_seg(&segs[i]));
            proof {
                assert(seg_views(r@) =~= seq![segs@[i as int]@] + rv);
                assert(seg_views(r@) =~= spec_keep_normal(seg_views(segs@).skip(i as int)));
            }
        } else {
            proof {
                assert(seg_views(r@) =~= spec_keep_normal(seg_views(segs@).skip(i as int)));
            }
        }
        r
    }
}

fn skip_parents_exec(segs: Vec<Vec<u8>>) -> (r: Vec<Vec<u8>>)
    ensures
        seg_views(r@) == spec_skip_parents(seg_views(segs@)),
{
    let ghost orig = seg_views(segs@);
    let mut v = segs;
    loop
        invariant
            spec_skip_parents(seg_views(v@)) == spec_skip_parents(orig),
        ensures
            spec_skip_parents(seg_views(v@)) == spec_skip_parents(orig),
            seg_views(v@).len() > 0 ==> seg_views(v@)[0] != parent_seg(),
        decreases v.len(),
    {
        if v.len() == 0 || !is_parent_seg_exec(&v[0]) {
            proof {
                if v.len() > 0 {
                    assert(seg_views(v@)[0] == v@[0]@);
                }
            }
            break;
        }
        proof {
            assert(seg_views(v@)[0] == v@[0]@);
        }
        let ghost prev = seg_views(v@);
        v.remove(0);
        proof {
            assert(seg_views(v@) =~= prev.skip(1));
            assert(spec_skip_parents(prev) == spec_skip_parents(prev.skip(1)));
        }
    }
    proof {
        if v.len() > 0 {
            assert(seg_views(v@)[0] == v@[0]@);
        }
        assert(spec_skip_parents(seg_views(v@)) == seg_views(v@));
    }
    v
}

fn join_exec(segs: &Vec<Vec<u8>>, i: usize) -> (r: Vec<u8>)
    requires
        i <= segs@.len(),
    ensures
        r@ == spec_join(seg_views(segs@).skip(i as int)),
    decreases segs@.len() - i,
{
    if i == segs.len() {
        let r: Vec<u8> = Vec::new();
        proof {
            assert(seg_views(segs@).skip(i as int) =~= Seq::<Seq<u8>>::empty());
            assert(r@ =~= spec_join(seg_views(segs@).skip(i as int)));
        }
        r
    } else if i + 1 == segs.len() {
        let r = copy_seg(&segs[i]);
        proof {
            assert(seg_views(segs@).skip(i as int).len() == 1);
            assert(seg_views(segs@).skip(i as int)[0] == segs@[i as int]@);
        }
        r
    } else {
        let mut r = copy_seg(&segs[i]);
        r.push(SLASH);
        let mut rest = join_exec(segs, i + 1);
        r.append(&mut rest);
        proof {
            assert(seg_views(segs@).skip(i as int).skip(1) =~= seg_views(segs@).skip(i as int + 1));
            assert(seg_views(segs@).skip(i as int)[0] == segs@[i as int]@);
            assert(r@ =~= spec_join(seg_views(segs@).skip(i as int)));
        }
        r
    }
}

/// Reduces a caller-supplied path to the pure relative form every URL is
/// built from: empty and `.` segments are dropped, leading root and `..`
/// navigation is stripped, interior `..` segments stay.
pub fn clean_path(path: &[u8]) -> (r: Vec<u8>)
    ensures
        r@ == spec_clean_path(path@),
{
    let raw = split_exec(path, 0);
    proof {
        assert(path@.skip(0) =~= path@);
    }
    let kept = keep_normal_exec(&raw, 0);
    proof {
        assert(seg_views(raw@).skip(0) =~= seg_views(raw@));
    }
    let skipped = skip_parents_exec(kept);
    let r = join_exec(&skipped, 0);
    proof {
        assert(seg_views(skipped@).skip(0) =~= seg_views(skipped@));
    }
    r
}

/// Law: a normalized path is purely relative. Its remaining segments all
/// name real components — the first is neither empty, `.` nor `..` — and
/// the path neither is absolute nor begins with parent navigation.
pub proof fn lemma_clean_path_relative(s: Seq<u8>)
    ensures
        ({
            let segs = spec_skip_parents(spec_keep_normal(spec_segments(s)));
            &&& segs.len() > 0 ==> is_normal_seg(segs[0]) && segs[0] != parent_seg()
            &&& spec_clean_path(s).len() > 0 ==> spec_clean_path(s)[0] != SLASH
        }),
{
    let raw = spec_segments(s);
    let kept = spec_keep_normal(raw);
    let segs = spec_skip_parents(kept);
    lemma_spec_segments_no_slash(s);
    lemma_spec_keep_normal_sound(raw);
    lemma_spec_skip_parents_sound(kept);
    if segs.len() > 0 {
        assert(kept.contains(segs[0]));
        let k = choose|k: int| 0 <= k < kept.len() && kept[k] == segs[0];
        assert(is_normal_seg(kept[k]));
        assert(raw.contains(kept[k]));
        let w = choose|w: int| 0 <= w < raw.len() && raw[w] == kept[k];
        assert(raw[w][0] != SLASH);
        assert(segs[0][0] != SLASH);
        if segs.len() == 1 {
            assert(spec_clean_path(s) == segs[0]);
        } else {
            assert(spec_clean_path(s) == segs[0] + seq![SLASH] + spec_join(segs.skip(1)));
            assert(spec_clean_path(s)[0] == segs[0][0]);
        }
    }
}

/// The first `depth` components of a path, rejoined — the subtree the
/// RPM metadata root is anchored at. A depth beyond the number of
/// components keeps the whole path.
pub open spec fn spec_take_components(s: Seq<u8>, depth: int) -> Seq<u8> {
    if depth <= spec_segments(s).len() {
        spec_join(spec_segments(s).take(depth))
    } else {
        spec_join(spec_segments(s))
    }
}

/// Truncates a path to its first `depth` components.
pub fn take_components(path: &[u8], depth: usize) -> (r: Vec<u8>)
    ensures
        r@ == spec_take_components(path@, depth as int),
{
    let mut segs = split_exec(path, 0);
    proof {
        assert(path@.skip(0) =~= path@);
    }
    let ghost full = seg_views(segs@);
    if depth < segs.len() {
        segs.truncate(depth);
        proof {
            assert(seg_views(segs@) =~= full.take(depth as int));
        }
    }
    let r = join_exec(&segs, 0);
    proof {
        assert(seg_views(segs@).skip(0) =~= seg_views(segs@));
        if depth >= full.len() {
            assert(full.take(full.len() as int) =~= full);
        }
    }
    r
}

/// The base name of a path: its last component. The empty path's base
/// name is empty.
pub fn base_name(path: &[u8]) -> (r: Vec<u8>)
    ensures
        r@ == spec_segments(path@).last(),
{
    let segs = split_exec(path, 0);
    proof {
        assert(path@.skip(0) =~= path@);
        assert(seg_views(segs@)[segs@.len() - 1] == segs@[segs@.len() - 1]@);
    }
    crate::bytes::copy_bytes(segs[segs.len() - 1].as_slice())
}

} // verus!
