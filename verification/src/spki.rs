//! Subject public key information: the key algorithm and the key bits, kept
//! with the raw octets of the whole structure, and the derived key
//! identifier (the SHA-1 digest of the key bits).

use vstd::prelude::*;
use crate::crypto;
use crate::der;

verus! {

/// Mathematical model of a subject-public-key-info structure.
pub struct SpkiSpec {
    /// The raw octets of the whole structure, header included.
    pub raw: Seq<u8>,
    /// The content octets of the subject-public-key bit string, with no
    /// unused bits.
    pub key_bits: Seq<u8>,
}

/// The subject's public key information.
#[derive(Clone, Debug, PartialEq, Eq)]
pub struct SubjectPublicKeyInfo {
    pub raw: Vec<u8>,
    pub key_bits: Vec<u8>,
}

impl View for SubjectPublicKeyInfo {
    type V = SpkiSpec;

    open spec fn view(&self) -> SpkiSpec {
        SpkiSpec { raw: self.raw@, key_bits: self.key_bits@ }
    }
}

/// The key-algorithm identifiers this profile accepts inside the structure:
/// rsaEncryption, its parameters NULL or absent.
pub open spec fn sp_rsa_alg_elem_null() -> Seq<u8> {
    seq![
        0x30u8,
        0x0du8,
        0x06u8,
        0x09u8,
        0x2au8,
        0x86u8,
        0x48u8,
        0x86u8,
        0xf7u8,
        0x0du8,
        0x01u8,
        0x01u8,
        0x01u8,
        0x05u8,
        0x00u8,
    ]
}

pub open spec fn sp_rsa_alg_elem_bare() -> Seq<u8> {
    seq![
        0x30u8,
        0x0bu8,
        0x06u8,
        0x09u8,
        0x2au8,
        0x86u8,
        0x48u8,
        0x86u8,
        0xf7u8,
        0x0du8,
        0x01u8,
        0x01u8,
        0x01u8,
    ]
}

/// Parses the subject-public-key-info element at `i`: a sequence holding
/// the rsaEncryption algorithm identifier and the subject public key as a
/// bit string with no unused bits. Returns its model and the position just
/// past the element.
#[verifier::opaque]
pub open spec fn sp_parse_spki(s: Seq<u8>, i: int, limit: int) -> Option<(SpkiSpec, int)> {
    match der::sp_element(s, i, limit) {
        Some((tag, cs, ce)) => {
            if tag != 0x30 {
                None
            } else {
                match der::sp_element(s, cs, ce) {
                    Some((atag, acs, ace)) => {
                        let alg = s.subrange(cs, ace);
                        if atag != 0x30 || !(alg == sp_rsa_alg_elem_null() || alg
                            == sp_rsa_alg_elem_bare()) {
                            None
                        } else {
                            match der::sp_element(s, ace, ce) {
                                Some((btag, bcs, bce)) => {
                                    if btag == 0x03 && bce == ce && bcs < bce && s[bcs] == 0x00 {
                                        Some(
                                            (
                                                SpkiSpec {
                                                    raw: s.subrange(i, ce),
                                                    key_bits: s.subrange(bcs + 1, bce),
                                                },
                                                ce,
                                            ),
                                        )
                                    } else {
                                        None
                                    }
                                },
                                None => None,
                            }
                        }
                    },
                    None => None,
                }
            }
        },
        None => None,
    }
}

/// Whether the octets `[cs, ce)` of `s` equal `expect`.
pub fn bytes_eq(s: &[u8], cs: usize, ce: usize, expect: &[u8]) -> (r: bool)
    requires
        cs <= ce <= s@.len(),
    ensures
        r == (s@.subrange(cs as int, ce as int) == expect@),
{
    let n = ce - cs;
    if n != expect.len() {
        proof {
            assert(s@.subrange(cs as int, ce as int).len() == n);
        }
        return false;
    }
    let mut k: usize = 0;
    while k < n
        invariant
            0 <= k <= n,
            n == ce - cs,
            cs <= ce <= s@.len(),
            n == expect@.len(),
            forall|j: int| 0 <= j < k ==> s@[cs + j] == expect@[j],
        decreases n - k,
    {
        if s[cs + k] != expect[k] {
            proof {
                let sub = s@.subrange(cs as int, ce as int);
                if sub == expect@ {
                    assert(sub[k as int] == expect@[k as int]);
                    assert(sub[k as int] == s@[cs + k]);
                }
            }
            return false;
        }
        k = k + 1;
    }
    proof {
        assert(s@.subrange(cs as int, ce as int) =~= expect@);
    }
    true
}

impl SubjectPublicKeyInfo {
    /// Reads the subject-public-key-info element starting at `i`.
    pub fn take_from(s: &[u8], i: usize, limit: usize) -> (r: Option<(SubjectPublicKeyInfo, usize)>)
        requires
            limit <= s@.len(),
        ensures
            match r {
                Some((k, end)) => sp_parse_spki(s@, i as int, limit as int) == Some(
                    (k@, end as int),
                ) && i < end <= limit,
                None => sp_parse_spki(s@, i as int, limit as int) is None,
            },
    {
        proof {
            reveal(sp_parse_spki);
        }
        let (cs, ce) = match der::read_element(s, i, limit) {
            Some((tag, cs, ce)) => {
                if tag != 0x30 {
                    return None;
                }
                (cs, ce)
            },
            None => {
                return None;
            },
        };
        let (acs, ace) = match der::read_element(s, cs, ce) {
            Some((atag, acs, ace)) => {
                if atag != 0x30 {
                    return None;
                }
                (acs, ace)
            },
            None => {
                return None;
            },
        };
        let alg_null: Vec<u8> = vec![
            0x30u8,
            0x0du8,
            0x06u8,
            0x09u8,
            0x2au8,
            0x86u8,
            0x48u8,
            0x86u8,
            0xf7u8,
            0x0du8,
            0x01u8,
            0x01u8,
            0x01u8,
            0x05u8,
            0x00u8,
        ];
        let alg_bare: Vec<u8> = vec![
            0x30u8,
            0x0bu8,
            0x06u8,
            0x09u8,
            0x2au8,
            0x86u8,
            0x48u8,
            0x86u8,
            0xf7u8,
            0x0du8,
            0x01u8,
            0x01u8,
            0x01u8,
        ];
        proof {
            assert(alg_null@ =~= sp_rsa_alg_elem_null());
            assert(alg_bare@ =~= sp_rsa_alg_elem_bare());
        }
        if !(bytes_eq(s, cs, ace, alg_null.as_slice()) || bytes_eq(s, cs, ace, alg_bare.as_slice())) {
            return None;
        }
        match der::read_element(s, ace, ce) {
            Some((btag, bcs, bce)) => {
                if btag == 0x03 && bce == ce && bcs < bce && s[bcs] == 0x00 {
                    let raw = vstd::slice::slice_to_vec(vstd::slice::slice_subrange(s, i, ce));
                    let key_bits = vstd::slice::slice_to_vec(
                        vstd::slice::slice_subrange(s, bcs + 1, bce),
                    );
                    Some((SubjectPublicKeyInfo { raw, key_bits }, ce))
                } else {
                    None
                }
            },
            None => None,
        }
    }

    /// The key identifier derived from this key: the SHA-1 digest of the
    /// subject public key's bit content.
    pub fn key_identifier(&self) -> (r: Vec<u8>)
        ensures
            r@ == crypto::sha1_of(self@.key_bits),
            r@.len() == 20,
    {
        crypto::sha1_digest(self.key_bits.as_slice())
    }

    /// The content octets of the subject-public-key bit string.
    pub fn subject_public_key(&self) -> (r: &[u8])
        ensures
            r@ == self@.key_bits,
    {
        self.key_bits.as_slice()
    }
}

} // verus!
