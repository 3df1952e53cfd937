//! Content checksums: the optional SHA-1/SHA-256 digest pair attached to
//! one piece of content, lowercase-hex presentation, and hex parsing of
//! checksum-bearing response headers.

use sha1::Digest;
use vstd::prelude::*;

verus! {

/// The SHA-1 digest of a byte string. The digest function itself is not
/// restated here; the result only gets a name, and everything proved about
/// it holds whatever the 20 bytes are.
pub uninterp spec fn sha1_of(data: Seq<u8>) -> Seq<u8>;

/// The SHA-256 digest of a byte string, named the same way.
pub uninterp spec fn sha256_of(data: Seq<u8>) -> Seq<u8>;

/// The digests known for one piece of content. Either digest may be
/// absent; both, when present, are raw digest bytes — hex encoding is a
/// presentation-layer concern.
#[derive(Clone, Debug)]
pub struct ContentChecksum {
    pub sha1: Option<Vec<u8>>,
    pub sha256: Option<Vec<u8>>,
}

/// The ASCII code of the lowercase hex digit for the nibble `n`.
pub open spec fn hex_digit(n: u8) -> u8
    recommends
        n < 16,
{
    if n < 10 {
        (0x30 + n) as u8
    } else {
        (0x57 + n) as u8
    }
}

/// The lowercase hex encoding of `b`, two ASCII bytes per input byte.
pub open spec fn hex_of(b: Seq<u8>) -> Seq<u8>
    decreases b.len(),
{
    if b.len() == 0 {
        Seq::empty()
    } else {
        hex_of(b.drop_last()) + seq![hex_digit(b.last() / 16), hex_digit(b.last() % 16)]
    }
}

pub proof fn lemma_hex_of_len(b: Seq<u8>)
    ensures
        hex_of(b).len() == 2 * b.len(),
    decreases b.len(),
{
    if b.len() > 0 {
        lemma_hex_of_len(b.drop_last());
    }
}

/// The lowercase hex encoding of `b` as bytes.
#[verifier::loop_isolation(false)]
pub fn hex_bytes(b: &[u8]) -> (r: Vec<u8>)
    ensures
        r@ == hex_of(b@),
{
    let mut r: Vec<u8> = Vec::new();
    let mut i: usize = 0;
    while i < b.len()
        invariant
            0 <= i <= b@.len(),
            r@ == hex_of(b@.take(i as int)),
        decreases b@.len() - i,
    {
        let hi = b[i] / 16;
        let lo = b[i] % 16;
        r.push(if hi < 10 { 0x30 + hi } else { 0x57 + hi });
        r.push(if lo < 10 { 0x30 + lo } else { 0x57 + lo });
        i += 1;
        proof {
            let t = b@.take(i as int);
            assert(t.drop_last() =~= b@.take(i as int - 1));
            assert(r@ =~= hex_of(t.drop_last()) + seq![
                hex_digit(t.last() / 16),
                hex_digit(t.last() % 16),
            ]);
        }
    }
    assert(b@.take(b@.len() as int) =~= b@);
    r
}

/// The lowercase hex digit character for the nibble `n`.
pub open spec fn hex_char(n: u8) -> char
    recommends
        n < 16,
{
    if n == 0 { '0' }
    else if n == 1 { '1' }
    else if n == 2 { '2' }
    else if n == 3 { '3' }
    else if n == 4 { '4' }
    else if n == 5 { '5' }
    else if n == 6 { '6' }
    else if n == 7 { '7' }
    else if n == 8 { '8' }
    else if n == 9 { '9' }
    else if n == 10 { 'a' }
    else if n == 11 { 'b' }
    else if n == 12 { 'c' }
    else if n == 13 { 'd' }
    else if n == 14 { 'e' }
    else { 'f' }
}

/// The lowercase hex encoding of `b` as text.
pub open spec fn hex_chars_of(b: Seq<u8>) -> Seq<char>
    decreases b.len(),
{
    if b.len() == 0 {
        Seq::empty()
    } else {
        hex_chars_of(b.drop_last()) + seq![hex_char(b.last() / 16), hex_char(b.last() % 16)]
    }
}

fn append_hex_char(s: &mut String, n: u8)
    requires
        n < 16,
    ensures
        final(s)@ == old(s)@ + seq![hex_char(n)],
{
    match n {
        0 => { proof { reveal_strlit("0"); } s.append("0"); },
        1 => { proof { reveal_strlit("1"); } s.append("1"); },
        2 => { proof { reveal_strlit("2"); } s.append("2"); },
        3 => { proof { reveal_strlit("3"); } s.append("3"); },
        4 => { proof { reveal_strlit("4"); } s.append("4"); },
        5 => { proof { reveal_strlit("5"); } s.append("5"); },
        6 => { proof { reveal_strlit("6"); } s.append("6"); },
        7 => { proof { reveal_strlit("7"); } s.append("7"); },
        8 => { proof { reveal_strlit("8"); } s.append("8"); },
        9 => { proof { reveal_strlit("9"); } s.append("9"); },
        10 => { proof { reveal_strlit("a"); } s.append("a"); },
        11 => { proof { reveal_strlit("b"); } s.append("b"); },
        12 => { proof { reveal_strlit("c"); } s.append("c"); },
        13 => { proof { reveal_strlit("d"); } s.append("d"); },
        14 => { proof { reveal_strlit("e"); } s.append("e"); },
        _ => { proof { reveal_strlit("f"); } s.append("f"); },
    }
    assert(s@ =~= old(s)@ + seq![hex_char(n)]);
}

/// Renders a raw digest as the lowercase hex string the service's text
/// formats and headers carry.
#[verifier::loop_isolation(false)]
pub fn checksum_to_string(checksum: &Vec<u8>) -> (r: String)
    ensures
        r@ == hex_chars_of(checksum@),
{
    let mut s = String::new();
    let mut i: usize = 0;
    while i < checksum.len()
        invariant
            0 <= i <= checksum@.len(),
            s@ == hex_chars_of(checksum@.take(i as int)),
        decreases checksum@.len() - i,
    {
        append_hex_char(&mut s, checksum[i] / 16);
        append_hex_char(&mut s, checksum[i] % 16);
        i += 1;
        proof {
            let t = checksum@.take(i as int);
            assert(t.drop_last() =~= checksum@.take(i as int - 1));
            assert(s@ =~= hex_chars_of(t.drop_last()) + seq![
                hex_char(t.last() / 16),
                hex_char(t.last() % 16),
            ]);
        }
    }
    assert(checksum@.take(checksum@.len() as int) =~= checksum@);
    s
}

/// Relies on sha1::Sha1: the 20-byte SHA-1 digest of the input, a function
/// of the input bytes alone.
#[verifier::external_body]
fn sha1_digest(data: &[u8]) -> (r: Vec<u8>)
    ensures
        r@ == sha1_of(data@),
        r@.len() == 20,
{
    let mut hasher = sha1::Sha1::new();
    hasher.update(data);
    hasher.finalize().to_vec()
}

/// Relies on sha2::Sha256: the 32-byte SHA-256 digest of the input, a
/// function of the input bytes alone.
#[verifier::external_body]
fn sha256_digest(data: &[u8]) -> (r: Vec<u8>)
    ensures
        r@ == sha256_of(data@),
        r@.len() == 32,
{
    let mut hasher = sha2::Sha256::new();
    hasher.update(data);
    hasher.finalize().to_vec()
}

/// Both digests of one piece of content, as the upload path populates them
/// before a poll begins.
pub fn checksum_of_bytes(data: &[u8]) -> (c: ContentChecksum)
    ensures
        c.sha1 matches Some(v) && v@ == sha1_of(data@),
        c.sha256 matches Some(v) && v@ == sha256_of(data@),
{
    ContentChecksum { sha1: Some(sha1_digest(data)), sha256: Some(sha256_digest(data)) }
}

/// The nibble value of the ASCII hex digit `c`, upper or lower case.
pub open spec fn hex_val(c: u8) -> Option<u8> {
    if 0x30 <= c <= 0x39 {
        Some((c - 0x30) as u8)
    } else if 0x61 <= c <= 0x66 {
        Some((c - 0x61 + 10) as u8)
    } else if 0x41 <= c <= 0x46 {
        Some((c - 0x41 + 10) as u8)
    } else {
        None
    }
}

/// The bytes read from the first `n` hex-digit pairs of `s`, or `None` if
/// any of those digits is not a hex digit.
pub open spec fn hex_decode_n(s: Seq<u8>, n: int) -> Option<Seq<u8>>
    recommends
        2 * n <= s.len(),
    decreases n,
{
    if n <= 0 {
        Some(Seq::empty())
    } else {
        match hex_decode_n(s, n - 1) {
            None => None,
            Some(p) => match (hex_val(s[2 * (n - 1)]), hex_val(s[2 * (n - 1) + 1])) {
                (Some(hi), Some(lo)) => Some(p.push((hi * 16 + lo) as u8)),
                _ => None,
            },
        }
    }
}

/// The bytes read from the hex digit pairs of `s`. A trailing unpaired
/// digit is ignored; a non-digit within the pairs yields `None`.
pub open spec fn spec_hex_decode(s: Seq<u8>) -> Option<Seq<u8>> {
    hex_decode_n(s, s.len() as int / 2)
}

proof fn lemma_hex_decode_none_propagates(s: Seq<u8>, k: int, m: int)
    requires
        0 <= k <= m,
        hex_decode_n(s, k) is None,
    ensures
        hex_decode_n(s, m) is None,
    decreases m - k,
{
    if k < m {
        lemma_hex_decode_none_propagates(s, k + 1, m);
    }
}

/// Reads an even run of hex digits back into raw bytes: the inverse of
/// the lowercase hex presentation, also accepting uppercase digits. This
/// is how a checksum reported in a response header is taken apart.
#[verifier::loop_isolation(false)]
pub fn hex_decode(s: &[u8]) -> (r: Option<Vec<u8>>)
    ensures
        r matches Some(v) ==> spec_hex_decode(s@) == Some(v@),
        r is None ==> spec_hex_decode(s@) is None,
{
    let mut out: Vec<u8> = Vec::new();
    let pairs = s.len() / 2;
    let mut k: usize = 0;
    while k < pairs
        invariant
            0 <= k <= pairs,
            pairs == s@.len() / 2,
            hex_decode_n(s@, k as int) == Some(out@),
        decreases pairs - k,
    {
        let hi = match hex_val_exec(s[2 * k]) {
            Some(v) => v,
            None => {
                proof {
                    lemma_hex_decode_none_propagates(s@, k as int + 1, pairs as int);
                }
                return None;
            },
        };
        let lo = match hex_val_exec(s[2 * k + 1]) {
            Some(v) => v,
            None => {
                proof {
                    lemma_hex_decode_none_propagates(s@, k as int + 1, pairs as int);
                }
                return None;
            },
        };
        out.push(hi * 16 + lo);
        k += 1;
    }
    Some(out)
}

/// The nibble value of one ASCII hex digit.
pub fn hex_val_exec(c: u8) -> (r: Option<u8>)
    ensures
        r == hex_val(c),
{
    if 0x30 <= c && c <= 0x39 {
        Some(c - 0x30)
    } else if 0x61 <= c && c <= 0x66 {
        Some(c - 0x61 + 10)
    } else if 0x41 <= c && c <= 0x46 {
        Some(c - 0x41 + 10)
    } else {
        None
    }
}

proof fn lemma_hex_digit_val(n: u8)
    requires
        n < 16,
    ensures
        hex_val(hex_digit(n)) == Some(n),
{
}

proof fn lemma_hex_decode_n_agree(s1: Seq<u8>, s2: Seq<u8>, k: int)
    requires
        0 <= k,
        2 * k <= s1.len(),
        2 * k <= s2.len(),
        forall|i: int| 0 <= i < 2 * k ==> s1[i] == s2[i],
    ensures
        hex_decode_n(s1, k) == hex_decode_n(s2, k),
    decreases k,
{
    if k > 0 {
        lemma_hex_decode_n_agree(s1, s2, k - 1);
    }
}

/// Law: reading the lowercase hex presentation of a digest back yields
/// exactly the digest — decoding inverts encoding on every byte string.
pub proof fn lemma_hex_round_trip(b: Seq<u8>)
    ensures
        spec_hex_decode(hex_of(b)) == Some(b),
    decreases b.len(),
{
    lemma_hex_of_len(b);
    if b.len() == 0 {
        assert(b =~= Seq::<u8>::empty());
    } else {
        let s = hex_of(b);
        let p = hex_of(b.drop_last());
        lemma_hex_of_len(b.drop_last());
        lemma_hex_round_trip(b.drop_last());
        assert(forall|i: int| 0 <= i < p.len() ==> s[i] == p[i]);
        lemma_hex_decode_n_agree(s, p, b.len() - 1);
        assert(s[2 * (b.len() - 1)] == hex_digit(b.last() / 16));
        assert(s[2 * (b.len() - 1) + 1] == hex_digit(b.last() % 16));
        lemma_hex_digit_val(b.last() / 16);
        lemma_hex_digit_val(b.last() % 16);
        assert((b.last() / 16) * 16 + b.last() % 16 == b.last());
        assert(b.drop_last().push(b.last()) =~= b);
    }
}

} // verus!
