//! DER primitives: identifier/length octets of a tag-length-value element.
//!
//! Only definite, minimally encoded lengths below 65536 are handled, which
//! covers every certificate this profile admits. Parsing and encoding are
//! stated against the same specification functions, so that the encoder is
//! provably the exact inverse of the parser at the element level.

use vstd::prelude::*;

verus! {

/// The minimal DER length octets for a content length `l` (`l < 0x10000`).
pub open spec fn sp_len_bytes(l: int) -> Seq<u8> {
    if l < 0x80 {
        seq![l as u8]
    } else if l < 0x100 {
        seq![0x81u8, l as u8]
    } else {
        seq![0x82u8, (l / 0x100) as u8, (l % 0x100) as u8]
    }
}

/// The DER encoding of one element: identifier octet, length octets, content.
pub open spec fn sp_elem(tag: u8, content: Seq<u8>) -> Seq<u8> {
    seq![tag] + sp_len_bytes(content.len() as int) + content
}

/// Parses the identifier and length octets found at position `i` of `s`.
/// Returns the tag, the content length and the number of header octets.
/// Rejects indefinite lengths, non-minimal lengths and lengths of 65536
/// or more.
pub open spec fn sp_header(s: Seq<u8>, i: int) -> Option<(u8, int, int)> {
    if 0 <= i && i + 2 <= s.len() {
        let tag = s[i];
        let b = s[i + 1];
        if b < 0x80 {
            Some((tag, b as int, 2))
        } else if b == 0x81 {
            if i + 3 <= s.len() && s[i + 2] >= 0x80 {
                Some((tag, s[i + 2] as int, 3))
            } else {
                None
            }
        } else if b == 0x82 {
            if i + 4 <= s.len() && (s[i + 2] as int) * 0x100 + s[i + 3] as int >= 0x100 {
                Some((tag, (s[i + 2] as int) * 0x100 + s[i + 3] as int, 4))
            } else {
                None
            }
        } else {
            None
        }
    } else {
        None
    }
}

/// Parses the whole element found at position `i` of `s`, whose content must
/// end at or before `limit`. Returns the tag, the position where the content
/// starts and the position just past the content.
pub open spec fn sp_element(s: Seq<u8>, i: int, limit: int) -> Option<(u8, int, int)> {
    match sp_header(s, i) {
        Some((tag, l, h)) => if i + h + l <= limit {
            Some((tag, i + h, i + h + l))
        } else {
            None
        },
        None => None,
    }
}

/// A parsed header occupies exactly the octets that `sp_len_bytes` would
/// produce for its length: parsing accepts only the minimal encoding.
pub proof fn lemma_header_exact(s: Seq<u8>, i: int)
    requires
        sp_header(s, i) is Some,
    ensures
        ({
            let (tag, l, h) = sp_header(s, i)->Some_0;
            &&& 0 <= l < 0x10000
            &&& h == 1 + sp_len_bytes(l).len()
            &&& s.subrange(i, i + h) == seq![tag] + sp_len_bytes(l)
        }),
{
    let (tag, l, h) = sp_header(s, i)->Some_0;
    let b = s[i + 1];
    if b < 0x80 {
        assert(s.subrange(i, i + h) =~= seq![tag] + sp_len_bytes(l));
    } else if b == 0x81 {
        assert(s.subrange(i, i + h) =~= seq![tag] + sp_len_bytes(l));
    } else {
        let hi = s[i + 2] as int;
        let lo = s[i + 3] as int;
        assert(l == hi * 0x100 + lo);
        assert(l / 0x100 == hi && l % 0x100 == lo) by (nonlinear_arith)
            requires
                l == hi * 0x100 + lo,
                0 <= hi < 0x100,
                0 <= lo < 0x100,
        ;
        assert(l < 0x10000) by (nonlinear_arith)
            requires
                l == hi * 0x100 + lo,
                0 <= hi < 0x100,
                0 <= lo < 0x100,
        ;
        assert(s.subrange(i, i + h) =~= seq![tag] + sp_len_bytes(l));
    }
}

/// Parsing a header at a position whose octets are an encoded header
/// recovers the tag and length.
pub proof fn lemma_header_at(s: Seq<u8>, i: int, tag: u8, l: int)
    requires
        0 <= i,
        0 <= l < 0x10000,
        i + 1 + sp_len_bytes(l).len() <= s.len(),
        s.subrange(i, i + 1 + sp_len_bytes(l).len()) == seq![tag] + sp_len_bytes(l),
    ensures
        sp_header(s, i) == Some((tag, l, 1 + sp_len_bytes(l).len() as int)),
{
    let lb = sp_len_bytes(l);
    let sub = s.subrange(i, i + 1 + lb.len());
    assert(s[i] == sub[0] && sub[0] == tag);
    if l < 0x80 {
        assert(s[i + 1] == sub[1] && sub[1] == l as u8);
    } else if l < 0x100 {
        assert(s[i + 1] == sub[1] && sub[1] == 0x81);
        assert(s[i + 2] == sub[2] && sub[2] == l as u8);
        assert(s[i + 2] >= 0x80);
    } else {
        let hi = l / 0x100;
        let lo = l % 0x100;
        assert(0 <= hi < 0x100 && 0 <= lo < 0x100 && hi * 0x100 + lo == l) by (nonlinear_arith)
            requires
                0x100 <= l < 0x10000,
                hi == l / 0x100,
                lo == l % 0x100,
        ;
        assert(s[i + 1] == sub[1] && sub[1] == 0x82);
        assert(s[i + 2] == sub[2] && sub[2] == hi as u8);
        assert(s[i + 3] == sub[3] && sub[3] == lo as u8);
        assert((s[i + 2] as int) * 0x100 + s[i + 3] as int == l);
    }
}

/// Parsing an element at a position whose octets are an encoded element
/// recovers the tag, the content and the end position.
pub proof fn lemma_element_at(s: Seq<u8>, i: int, limit: int, tag: u8, content: Seq<u8>)
    requires
        0 <= i,
        content.len() < 0x10000,
        i + sp_elem(tag, content).len() <= limit <= s.len(),
        s.subrange(i, i + sp_elem(tag, content).len()) == sp_elem(tag, content),
    ensures
        ({
            let h = 1 + sp_len_bytes(content.len() as int).len() as int;
            let end = i + sp_elem(tag, content).len();
            &&& sp_element(s, i, limit) == Some((tag, i + h, end))
            &&& i + h + content.len() == end
            &&& s.subrange(i + h, end) == content
        }),
{
    let e = sp_elem(tag, content);
    let lb = sp_len_bytes(content.len() as int);
    let h = 1 + lb.len() as int;
    assert(s.subrange(i, i + h) =~= seq![tag] + lb) by {
        assert(forall|j: int|
            0 <= j < h ==> s.subrange(i, i + h)[j] == #[trigger] s.subrange(
                i,
                i + e.len(),
            )[j]);
    }
    lemma_header_at(s, i, tag, content.len() as int);
    assert forall|j: int| 0 <= j < content.len() implies s[i + h + j] == content[j] by {
        assert(s[i + h + j] == s.subrange(i, i + e.len())[h + j]);
        assert(s.subrange(i, i + e.len())[h + j] == e[h + j]);
        assert(e[h + j] == content[j]);
    }
    assert(s.subrange(i + h, i + e.len()) =~= content);
}

/// A window into known octets: when `[a, b)` of `s` is known to be `t`,
/// any window `[c, d)` inside it is the matching window of `t`.
pub proof fn lemma_subrange_of_subrange(s: Seq<u8>, a: int, b: int, c: int, d: int, t: Seq<u8>)
    requires
        0 <= a <= c <= d <= b <= s.len(),
        s.subrange(a, b) == t,
    ensures
        s.subrange(c, d) == t.subrange(c - a, d - a),
{
    assert forall|j: int| 0 <= j < d - c implies #[trigger] s[c + j] == t[c - a + j] by {
        assert(s[c + j] == s.subrange(a, b)[c - a + j]);
    }
    assert(s.subrange(c, d) =~= t.subrange(c - a, d - a));
}

/// Bounds on the size of an encoded element.
pub proof fn lemma_elem_len(tag: u8, content: Seq<u8>)
    requires
        content.len() < 0x10000,
    ensures
        2 + content.len() <= sp_elem(tag, content).len() <= 4 + content.len(),
{
}

/// Reads the identifier and length octets of the element starting at `i`.
pub fn read_header(s: &[u8], i: usize) -> (r: Option<(u8, usize, usize)>)
    ensures
        match r {
            Some((tag, l, h)) => sp_header(s@, i as int) == Some((tag, l as int, h as int)),
            None => sp_header(s@, i as int) is None,
        },
{
    if s.len() < 2 || i > s.len() - 2 {
        return None;
    }
    let tag = s[i];
    let b = s[i + 1];
    if b < 0x80 {
        Some((tag, b as usize, 2))
    } else if b == 0x81 {
        if s.len() >= 3 && i <= s.len() - 3 && s[i + 2] >= 0x80 {
            Some((tag, s[i + 2] as usize, 3))
        } else {
            None
        }
    } else if b == 0x82 {
        if s.len() >= 4 && i <= s.len() - 4 {
            let l = (s[i + 2] as usize) * 0x100 + s[i + 3] as usize;
            if l >= 0x100 {
                Some((tag, l, 4))
            } else {
                None
            }
        } else {
            None
        }
    } else {
        None
    }
}

/// Reads the whole element starting at `i`, with content ending at or
/// before `limit`. Returns tag, content start and element end.
pub fn read_element(s: &[u8], i: usize, limit: usize) -> (r: Option<(u8, usize, usize)>)
    requires
        limit <= s@.len(),
    ensures
        match r {
            Some((tag, cs, ce)) => sp_element(s@, i as int, limit as int) == Some(
                (tag, cs as int, ce as int),
            ) && i < cs <= ce <= limit,
            None => sp_element(s@, i as int, limit as int) is None,
        },
{
    match read_header(s, i) {
        Some((tag, l, h)) => {
            if l <= limit && h <= limit - l && i <= limit - l - h {
                Some((tag, i + h, i + h + l))
            } else {
                None
            }
        },
        None => None,
    }
}

/// Appends the identifier octet and minimal length octets to `out`.
pub fn write_header(out: Vec<u8>, tag: u8, len: usize) -> (r: Vec<u8>)
    requires
        len < 0x10000,
    ensures
        r@ == out@ + seq![tag] + sp_len_bytes(len as int),
{
    let mut v = out;
    v.push(tag);
    if len < 0x80 {
        v.push(len as u8);
        assert(v@ =~= old_out_plus(out@, tag, len as int));
    } else if len < 0x100 {
        v.push(0x81);
        v.push(len as u8);
        assert(v@ =~= old_out_plus(out@, tag, len as int));
    } else {
        v.push(0x82);
        v.push((len / 0x100) as u8);
        v.push((len % 0x100) as u8);
        assert(v@ =~= old_out_plus(out@, tag, len as int));
    }
    v
}

/// The shape `write_header` must produce; named so the proof reads clearly.
pub open spec fn old_out_plus(out: Seq<u8>, tag: u8, len: int) -> Seq<u8> {
    out + seq![tag] + sp_len_bytes(len)
}

/// Appends octets to `out`.
pub fn append_bytes(out: Vec<u8>, s: &[u8]) -> (r: Vec<u8>)
    ensures
        r@ == out@ + s@,
{
    let mut v = out;
    let mut rest = vstd::slice::slice_to_vec(s);
    v.append(&mut rest);
    v
}

/// Whether two byte strings hold the same octets.
pub fn bytes_equal(a: &[u8], b: &[u8]) -> (r: bool)
    ensures
        r == (a@ == b@),
{
    if a.len() != b.len() {
        return false;
    }
    let n = a.len();
    let mut k: usize = 0;
    while k < n
        invariant
            0 <= k <= n,
            n == a@.len() == b@.len(),
            forall|j: int| 0 <= j < k ==> a@[j] == b@[j],
        decreases n - k,
    {
        if a[k] != b[k] {
            proof {
                if a@ == b@ {
                    assert(a@[k as int] == b@[k as int]);
                }
            }
            return false;
        }
        k = k + 1;
    }
    proof {
        assert(a@ =~= b@);
    }
    true
}

/// Appends a whole element with tag `tag` and the given content to `out`.
pub fn write_elem(out: Vec<u8>, tag: u8, content: &[u8]) -> (r: Vec<u8>)
    requires
        content@.len() < 0x10000,
    ensures
        r@ == out@ + sp_elem(tag, content@),
{
    let mut v = write_header(out, tag, content.len());
    let mut rest = vstd::slice::slice_to_vec(content);
    v.append(&mut rest);
    assert(v@ =~= out@ + sp_elem(tag, content@));
    v
}

} // verus!
