//! The Debian indexation oracle.
//!
//! A Debian repository is converged for an upload once the
//! architecture-specific package index file for the requested
//! (distribution, component, architecture) triple carries a line equal to
//! `SHA256: ` followed by the upload's lowercase-hex SHA-256 digest. Each
//! probe fetches that index and scans it line by line; a missing index
//! (not yet regenerated) or a missing line only means "try again".

use vstd::prelude::*;

use crate::bytes::{bytes_eq, is_match_at, lemma_spec_find_is_first, lemma_spec_find_none,
    find_sub, spec_find};
use crate::checksum::{hex_bytes, hex_of, ContentChecksum};
use crate::errors::BintrayError;
use crate::poll::{spec_not_yet_status, spec_success_status, is_not_yet_status, is_success_status,
    CheckOutcome};

verus! {

/// Line feed.
pub const LF: u8 = 0x0a;

/// Carriage return.
pub const CR: u8 = 0x0d;

/// A line with its trailing carriage return removed, as the line-based
/// scan sees it.
pub open spec fn strip_cr(l: Seq<u8>) -> Seq<u8> {
    if l.len() > 0 && l.last() == CR {
        l.drop_last()
    } else {
        l
    }
}

/// The lines of a text body: terminated by a line feed or by the end of
/// the body, with a carriage return before a line feed not counted. The
/// empty body has no lines, and a trailing line feed adds none.
pub open spec fn spec_lines(s: Seq<u8>) -> Seq<Seq<u8>>
    decreases s.len(),
{
    if s.len() == 0 {
        Seq::empty()
    } else if s[0] == LF {
        seq![Seq::<u8>::empty()] + spec_lines(s.skip(1))
    } else if s.len() >= 2 && s[0] == CR && s[1] == LF {
        seq![Seq::<u8>::empty()] + spec_lines(s.skip(2))
    } else {
        let rest = spec_lines(s.skip(1));
        if rest.len() == 0 {
            seq![seq![s[0]]]
        } else {
            seq![seq![s[0]] + rest[0]] + rest.skip(1)
        }
    }
}

/// Splitting at the first line feed: the text up to it (with a trailing
/// carriage return dropped) is the first line, and the rest of the lines
/// are the lines of what follows.
pub proof fn lemma_lines_first_newline(s: Seq<u8>, k: int)
    requires
        0 <= k < s.len(),
        s[k] == LF,
        forall|j: int| 0 <= j < k ==> s[j] != LF,
    ensures
        spec_lines(s) == seq![strip_cr(s.take(k))] + spec_lines(s.skip(k + 1)),
    decreases s.len(),
{
    if k == 0 {
        assert(strip_cr(s.take(0)) =~= Seq::<u8>::empty());
        assert(spec_lines(s) =~= seq![strip_cr(s.take(0))] + spec_lines(s.skip(1)));
    } else if k == 1 && s[0] == CR {
        assert(s.take(1) =~= seq![CR]);
        assert(strip_cr(s.take(1)) =~= Seq::<u8>::empty());
        assert(spec_lines(s) =~= seq![strip_cr(s.take(1))] + spec_lines(s.skip(2)));
    } else {
        let t = s.skip(1);
        assert(t[k - 1] == LF);
        assert(forall|j: int| 0 <= j < k - 1 ==> t[j] != LF);
        lemma_lines_first_newline(t, k - 1);
        let rest = spec_lines(t);
        assert(rest == seq![strip_cr(t.take(k - 1))] + spec_lines(t.skip(k)));
        assert(rest.len() > 0);
        assert(t.skip(k) =~= s.skip(k + 1));
        // the first line of s is s[0] prepended to the first line of t
        assert(t.take(k - 1) =~= s.take(k).skip(1));
        if k >= 2 && s[k - 1] == CR {
            assert(seq![s[0]] + strip_cr(s.take(k).skip(1)) =~= strip_cr(s.take(k)));
        } else {
            assert(strip_cr(s.take(k).skip(1)) == s.take(k).skip(1));
            assert(seq![s[0]] + s.take(k).skip(1) =~= strip_cr(s.take(k)));
        }
        assert(spec_lines(s) =~= seq![strip_cr(s.take(k))] + spec_lines(s.skip(k + 1)));
    }
}

/// A body with no line feed is one line, kept whole — a carriage return
/// is stripped only when a line feed follows it — or no line at all when
/// the body is empty.
pub proof fn lemma_lines_no_newline(s: Seq<u8>)
    requires
        forall|j: int| 0 <= j < s.len() ==> s[j] != LF,
    ensures
        s.len() == 0 ==> spec_lines(s) == Seq::<Seq<u8>>::empty(),
        s.len() > 0 ==> spec_lines(s) == seq![s],
    decreases s.len(),
{
    if s.len() > 0 {
        let t = s.skip(1);
        lemma_lines_no_newline(t);
        if t.len() == 0 {
            assert(s =~= seq![s[0]]);
        } else {
            assert(spec_lines(s) == seq![seq![s[0]] + t]);
            assert(seq![s[0]] + t =~= s);
        }
    }
}

/// Whether some line of `body` is exactly `line`.
pub fn body_has_line(body: &[u8], line: &[u8]) -> (r: bool)
    ensures
        r == spec_lines(body@).contains(line@),
{
    let newline: Vec<u8> = vec![LF];
    let mut p: usize = 0;
    proof {
        assert(body@.skip(0) =~= body@);
    }
    loop
        invariant
            0 <= p <= body@.len(),
            newline@ == seq![LF],
            spec_lines(body@).contains(line@) == spec_lines(body@.skip(p as int)).contains(line@),
        ensures
            spec_lines(body@).contains(line@) == spec_lines(body@.skip(p as int)).contains(line@),
            spec_find(body@, seq![LF], p as int) is None,
        decreases body@.len() - p,
    {
        match find_sub(body, newline.as_slice(), p) {
            Some(k) => {
                proof {
                    lemma_spec_find_is_first(body@, seq![LF], p as int);
                    assert(body@.subrange(k as int, k as int + 1) == seq![LF]);
                    assert(body@.subrange(k as int, k as int + 1)[0] == body@[k as int]);
                    assert(body@[k as int] == LF);
                    assert forall|j: int| p <= j < k implies body@[j] != LF by {
                        assert(!is_match_at(body@, seq![LF], j));
                        assert(body@.subrange(j, j + 1) =~= seq![body@[j]]);
                        if body@[j] == LF {
                            assert(body@.subrange(j, j + 1) =~= seq![LF]);
                        }
                    }
                }
                let end = if k > p && body[k - 1] == CR {
                    k - 1
                } else {
                    k
                };
                let matched = bytes_eq(&body[p..end], line);
                proof {
                    let t = body@.skip(p as int);
                    assert(t[k - p] == LF);
                    assert(forall|j: int| 0 <= j < k - p ==> t[j] != LF);
                    lemma_lines_first_newline(t, k - p);
                    assert(t.take(k - p) =~= body@.subrange(p as int, k as int));
                    assert(strip_cr(t.take(k - p)) =~= body@.subrange(p as int, end as int));
                    assert(t.skip(k - p + 1) =~= body@.skip(k as int + 1));
                }
                if matched {
                    proof {
                        let t = body@.skip(p as int);
                        assert(spec_lines(t)[0] == line@);
                    }
                    return true;
                }
                proof {
                    let t = body@.skip(p as int);
                    let u = body@.skip(k as int + 1);
                    assert(spec_lines(t) == seq![body@.subrange(p as int, end as int)]
                        + spec_lines(u));
                    assert forall|w: int|
                        0 <= w < spec_lines(t).len() && spec_lines(t)[w] == line@ implies
                        spec_lines(u).contains(line@) by {
                        assert(w != 0);
                        assert(spec_lines(u)[w - 1] == line@);
                    }
                    assert forall|w: int|
                        0 <= w < spec_lines(u).len() && spec_lines(u)[w] == line@ implies
                        spec_lines(t).contains(line@) by {
                        assert(spec_lines(t)[w + 1] == line@);
                    }
                    assert(spec_lines(t).contains(line@) == spec_lines(u).contains(line@));
                }
                p = k + 1;
            },
            None => {
                break;
            },
        }
    }
    proof {
        lemma_spec_find_none(body@, seq![LF], p as int);
        let t = body@.skip(p as int);
        assert forall|j: int| 0 <= j < t.len() implies t[j] != LF by {
            assert(!is_match_at(body@, seq![LF], p + j));
            if t[j] == LF {
                assert(body@.subrange(p + j, p + j + 1) =~= seq![LF]);
            }
        }
        lemma_lines_no_newline(t);
    }
    if p == body.len() {
        proof {
            assert(body@.skip(p as int) =~= Seq::<u8>::empty());
            assert(!spec_lines(body@).contains(line@));
        }
        return false;
    }
    let matched = bytes_eq(&body[p..body.len()], line);
    proof {
        let t = body@.skip(p as int);
        assert(t.len() > 0);
        assert(spec_lines(t) == seq![t]);
        assert(t =~= body@.subrange(p as int, body@.len() as int));
        if matched {
            assert(spec_lines(t)[0] == line@);
        } else {
            assert(!spec_lines(t).contains(line@)) by {
                if spec_lines(t).contains(line@) {
                    let w = choose|w: int|
                        0 <= w < spec_lines(t).len() && spec_lines(t)[w] == line@;
                    assert(w == 0);
                }
            }
        }
    }
    matched
}

/// The exact index line that proves the upload is indexed: `SHA256: `
/// followed by the digest in lowercase hex.
pub open spec fn spec_checksum_line(digest: Seq<u8>) -> Seq<u8> {
    seq![0x53u8, 0x48u8, 0x41u8, 0x32u8, 0x35u8, 0x36u8, 0x3au8, 0x20u8] + hex_of(digest)
}

/// Builds the index line to look for from the content's SHA-256 digest,
/// or reports the missing-checksum configuration error. Requiring the
/// digest up front keeps a misconfigured wait from polling at all.
pub fn debian_target_line(checksum: &ContentChecksum) -> (r: Result<Vec<u8>, BintrayError>)
    ensures
        checksum.sha256 is None ==> (r matches Err(e) && e is ContentChecksumRequired),
        checksum.sha256 matches Some(d) ==> (r matches Ok(l) && l@ == spec_checksum_line(d@)),
{
    match &checksum.sha256 {
        None => Err(BintrayError::ContentChecksumRequired),
        Some(digest) => {
            let mut line: Vec<u8> = Vec::new();
            line.push(0x53);
            line.push(0x48);
            line.push(0x41);
            line.push(0x32);
            line.push(0x35);
            line.push(0x36);
            line.push(0x3a);
            line.push(0x20);
            let mut hex = hex_bytes(digest.as_slice());
            line.append(&mut hex);
            proof {
                assert(line@ =~= spec_checksum_line(digest@));
            }
            Ok(line)
        },
    }
}

/// One probe of the Debian oracle: scans the fetched package index for
/// the target line. Present: the poll settles successfully. Absent, or
/// the index not served yet: try again. Any other status: fatal.
pub fn debian_check(target_line: &[u8], status: u16, body: &[u8]) -> (r: CheckOutcome<()>)
    ensures
        spec_success_status(status) && spec_lines(body@).contains(target_line@) ==> (r matches
            CheckOutcome::Settled(res) && res is Ok),
        spec_success_status(status) && !spec_lines(body@).contains(target_line@) ==> r is Retry,
        !spec_success_status(status) && spec_not_yet_status(status) ==> r is Retry,
        !spec_success_status(status) && !spec_not_yet_status(status) ==> (r matches
            CheckOutcome::Settled(res) && (res matches Err(e) && (e matches
            BintrayError::UnexpectedStatus { status: st, body: b } && st == status && b@
            == body@))),
{
    if is_success_status(status) {
        if body_has_line(body, target_line) {
            CheckOutcome::Settled(Ok(()))
        } else {
            CheckOutcome::Retry
        }
    } else if is_not_yet_status(status) {
        CheckOutcome::Retry
    } else {
        let copy = crate::bytes::bytes_range(body, 0, body.len());
        proof {
            assert(body@.subrange(0, body@.len() as int) =~= body@);
        }
        CheckOutcome::Settled(Err(BintrayError::UnexpectedStatus { status, body: copy }))
    }
}

} // verus!
