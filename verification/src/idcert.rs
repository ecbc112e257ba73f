//! Identity certificates: decoding, lossless re-encoding, and validation
//! as a trust anchor or as an end-entity certificate.
//!
//! Decoding reads the outer signed envelope — the to-be-signed content, the
//! signature algorithm and the signature bits — and re-parses the content
//! into the certificate's fields. The raw octets of the three envelope parts
//! are kept, and encoding re-emits them unchanged, so a decoded certificate
//! re-encodes to exactly the octets it was decoded from and its signature
//! stays verifiable.

use vstd::prelude::*;
use crate::crypto;
use crate::der;
use crate::ext;
use crate::ext::IdExtensions;
use crate::spki;
use crate::spki::SubjectPublicKeyInfo;
use crate::time;
use crate::time::{Time, Validity};

verus! {

/// A failure to decode: the input is not a certificate of this profile.
#[derive(Clone, Copy, Debug, PartialEq, Eq, Structural)]
pub struct DecodeError;

/// A failure to validate; the reason is deliberately not distinguished.
#[derive(Clone, Copy, Debug, PartialEq, Eq, Structural)]
pub struct ValidationError;

/// Mathematical model of a decoded certificate.
pub struct CertSpec {
    /// The whole to-be-signed element, header included.
    pub tbs_raw: Seq<u8>,
    /// The envelope's signature-algorithm element, raw.
    pub alg_raw: Seq<u8>,
    /// The envelope's signature bit-string element, raw.
    pub sig_raw: Seq<u8>,
    /// The signature octets: the bit-string content, no unused bits.
    pub sig_bits: Seq<u8>,
    /// The serial number: the content octets of a non-negative integer.
    pub serial: Seq<u8>,
    /// The signature-algorithm element repeated inside the content, raw.
    pub tbs_alg: Seq<u8>,
    /// The issuer name element, raw and uninterpreted.
    pub issuer: Seq<u8>,
    pub validity: Validity,
    /// The subject name element, raw and uninterpreted.
    pub subject: Seq<u8>,
    pub spki: spki::SpkiSpec,
    pub exts: ext::ExtsSpec,
}

/// The outer signed envelope: to-be-signed octets, algorithm, signature.
#[derive(Clone, Debug, PartialEq, Eq)]
pub struct SignedData {
    pub tbs: Vec<u8>,
    pub alg: Vec<u8>,
    pub sig: Vec<u8>,
    pub sig_bits: Vec<u8>,
}

/// A decoded identity certificate.
#[derive(Clone, Debug, PartialEq, Eq)]
pub struct IdCert {
    /// The outer structure of the certificate.
    pub signed_data: SignedData,
    /// The serial number's content octets.
    pub serial_number: Vec<u8>,
    /// The algorithm named inside the to-be-signed content, raw.
    pub signature: Vec<u8>,
    /// The name of the issuer; kept only to round-trip.
    pub issuer: Vec<u8>,
    /// The validity of the certificate.
    pub validity: Validity,
    /// The name of the subject; kept only to round-trip.
    pub subject: Vec<u8>,
    /// Information about the public key of this certificate.
    pub subject_public_key_info: SubjectPublicKeyInfo,
    /// The certificate extensions.
    pub extensions: IdExtensions,
}

impl View for IdCert {
    type V = CertSpec;

    open spec fn view(&self) -> CertSpec {
        CertSpec {
            tbs_raw: self.signed_data.tbs@,
            alg_raw: self.signed_data.alg@,
            sig_raw: self.signed_data.sig@,
            sig_bits: self.signed_data.sig_bits@,
            serial: self.serial_number@,
            tbs_alg: self.signature@,
            issuer: self.issuer@,
            validity: self.validity,
            subject: self.subject@,
            spki: self.subject_public_key_info@,
            exts: self.extensions@,
        }
    }
}

/// The signature algorithm this profile accepts, parameters NULL.
pub open spec fn sp_sig_alg_elem_null() -> Seq<u8> {
    seq![
        0x30u8,
        0x0du8,
        0x06u8,
        0x09u8,
        0x2au8,
        0x86u8,
        0x48u8,
        0x86u8,
        0xf7u8,
        0x0du8,
        0x01u8,
        0x01u8,
        0x0bu8,
        0x05u8,
        0x00u8,
    ]
}

/// The same algorithm with the parameters left out.
pub open spec fn sp_sig_alg_elem_bare() -> Seq<u8> {
    seq![
        0x30u8,
        0x0bu8,
        0x06u8,
        0x09u8,
        0x2au8,
        0x86u8,
        0x48u8,
        0x86u8,
        0xf7u8,
        0x0du8,
        0x01u8,
        0x01u8,
        0x0bu8,
    ]
}

/// Parses a signature-algorithm element at `i`: one of the two accepted
/// spellings, returned raw with the position just past it.
pub open spec fn sp_parse_alg(s: Seq<u8>, i: int, limit: int) -> Option<(Seq<u8>, int)> {
    match der::sp_element(s, i, limit) {
        Some((tag, acs, ace)) => {
            let raw = s.subrange(i, ace);
            if tag == 0x30 && (raw == sp_sig_alg_elem_null() || raw == sp_sig_alg_elem_bare()) {
                Some((raw, ace))
            } else {
                None
            }
        },
        None => None,
    }
}

/// Parses a name at `i`: a sequence element, kept raw and uninterpreted.
pub open spec fn sp_parse_name(s: Seq<u8>, i: int, limit: int) -> Option<(Seq<u8>, int)> {
    match der::sp_element(s, i, limit) {
        Some((tag, cs, ce)) => if tag == 0x30 {
            Some((s.subrange(i, ce), ce))
        } else {
            None
        },
        None => None,
    }
}

/// Parses the serial number at `i`: an integer element whose content is
/// non-negative and minimally encoded. Returns the content octets.
pub open spec fn sp_parse_serial(s: Seq<u8>, i: int, limit: int) -> Option<(Seq<u8>, int)> {
    match der::sp_element(s, i, limit) {
        Some((tag, cs, ce)) => {
            if tag == 0x02 && cs < ce && s[cs] < 0x80 && !(ce - cs > 1 && s[cs] == 0x00 && s[cs + 1]
                < 0x80) {
                Some((s.subrange(cs, ce), ce))
            } else {
                None
            }
        },
        None => None,
    }
}

/// Skips the optional explicitly tagged version field at `i`. When present
/// it must hold exactly the integer two — the profile's only version — and
/// parsing resumes past it; when absent parsing resumes at `i`.
pub open spec fn sp_parse_version(s: Seq<u8>, i: int, limit: int) -> Option<int> {
    match der::sp_element(s, i, limit) {
        Some((tag, cs, ce)) => if tag == 0xa0 {
            if ce - cs == 3 && s[cs] == 0x02 && s[cs + 1] == 0x01 && s[cs + 2] == 0x02 {
                Some(ce)
            } else {
                None
            }
        } else {
            Some(i)
        },
        None => Some(i),
    }
}

/// The fields read out of the to-be-signed content.
pub struct TbsSpec {
    pub serial: Seq<u8>,
    pub alg: Seq<u8>,
    pub issuer: Seq<u8>,
    pub validity: Validity,
    pub subject: Seq<u8>,
    pub spki: spki::SpkiSpec,
    pub exts: ext::ExtsSpec,
}

/// Parses the fields of the to-be-signed content `[tcs, tce)`: the optional
/// version, the serial number, the algorithm, the issuer, the validity, the
/// subject, the key information and the mandatory extension block, which
/// must end the content exactly.
#[verifier::opaque]
pub open spec fn sp_parse_tbs_fields(s: Seq<u8>, tcs: int, tce: int) -> Option<TbsSpec> {
    match sp_parse_version(s, tcs, tce) {
        Some(i1) => match sp_parse_serial(s, i1, tce) {
            Some((serial, i2)) => match sp_parse_alg(s, i2, tce) {
                Some((alg, i3)) => match sp_parse_name(s, i3, tce) {
                    Some((issuer, i4)) => match time::sp_parse_validity(s, i4, tce) {
                        Some((validity, i5)) => match sp_parse_name(s, i5, tce) {
                            Some((subject, i6)) => match spki::sp_parse_spki(s, i6, tce) {
                                Some((sk, i7)) => match ext::sp_parse_ext_block(s, i7, tce) {
                                    Some((exts, xend)) => if xend == tce {
                                        Some(
                                            TbsSpec {
                                                serial,
                                                alg,
                                                issuer,
                                                validity,
                                                subject,
                                                spki: sk,
                                                exts,
                                            },
                                        )
                                    } else {
                                        None
                                    },
                                    None => None,
                                },
                                None => None,
                            },
                            None => None,
                        },
                        None => None,
                    },
                    None => None,
                },
                None => None,
            },
            None => None,
        },
        None => None,
    }
}

/// Parses the content `[cs, ce)` of the envelope sequence: the to-be-signed
/// element, the signature algorithm and the signature bit string with no
/// unused bits, the three filling the content exactly.
pub open spec fn sp_parse_cert_content(s: Seq<u8>, cs: int, ce: int) -> Option<CertSpec> {
    match der::sp_element(s, cs, ce) {
        Some((ttag, tcs, tce)) => {
            if ttag != 0x30 {
                None
            } else {
                match sp_parse_tbs_fields(s, tcs, tce) {
                    Some(tf) => match sp_parse_alg(s, tce, ce) {
                        Some((alg_raw, aend)) => match der::sp_element(s, aend, ce) {
                            Some((btag, bcs, bce)) => {
                                if btag == 0x03 && bce == ce && bcs < bce && s[bcs] == 0x00 {
                                    Some(
                                        CertSpec {
                                            tbs_raw: s.subrange(cs, tce),
                                            alg_raw,
                                            sig_raw: s.subrange(aend, ce),
                                            sig_bits: s.subrange(bcs + 1, bce),
                                            serial: tf.serial,
                                            tbs_alg: tf.alg,
                                            issuer: tf.issuer,
                                            validity: tf.validity,
                                            subject: tf.subject,
                                            spki: tf.spki,
                                            exts: tf.exts,
                                        },
                                    )
                                } else {
                                    None
                                }
                            },
                            None => None,
                        },
                        None => None,
                    },
                    None => None,
                }
            }
        },
        None => None,
    }
}

/// Parses a whole certificate element at `i`. Returns its model and the
/// position just past the element.
pub open spec fn sp_parse_cert_at(s: Seq<u8>, i: int, limit: int) -> Option<(CertSpec, int)> {
    match der::sp_element(s, i, limit) {
        Some((otag, cs, ce)) => {
            if otag != 0x30 {
                None
            } else {
                match sp_parse_cert_content(s, cs, ce) {
                    Some(c) => Some((c, ce)),
                    None => None,
                }
            }
        },
        None => None,
    }
}

/// Parses a byte buffer as one certificate filling it exactly.
pub open spec fn sp_parse_cert(s: Seq<u8>) -> Option<CertSpec> {
    match sp_parse_cert_at(s, 0, s.len() as int) {
        Some((c, end)) => if end == s.len() {
            Some(c)
        } else {
            None
        },
        None => None,
    }
}

/// The encoding of a certificate: the envelope sequence around the raw
/// to-be-signed, algorithm and signature octets, re-emitted unchanged.
pub open spec fn sp_enc_cert(c: CertSpec) -> Seq<u8> {
    der::sp_elem(0x30, c.tbs_raw + c.alg_raw + c.sig_raw)
}

/// Whether the three envelope parts fit the encoder's length octets.
pub open spec fn sp_cert_fits(c: CertSpec) -> bool {
    c.tbs_raw.len() + c.alg_raw.len() + c.sig_raw.len() < 0x10000
}

/// What any certificate that was decoded, or that re-decodes, satisfies:
/// its parts fit the encoder and parsing its own encoding gives it back.
pub open spec fn sp_cert_wf(c: CertSpec) -> bool {
    sp_cert_fits(c) && sp_parse_cert(sp_enc_cert(c)) == Some(c)
}

/// Round trip, first direction: a certificate parsed from `s` encodes back
/// to exactly `s`; hence re-parsing its encoding gives the certificate
/// again, and it is well formed.
#[verifier::spinoff_prover]
#[verifier::rlimit(100)]
pub proof fn lemma_round_trip(s: Seq<u8>, c: CertSpec)
    requires
        sp_parse_cert(s) == Some(c),
    ensures
        sp_enc_cert(c) == s,
        sp_parse_cert(sp_enc_cert(c)) == Some(c),
        sp_cert_wf(c),
{
    let (otag, cs, ce) = der::sp_element(s, 0, s.len() as int)->Some_0;
    let (_t, l, h) = der::sp_header(s, 0)->Some_0;
    der::lemma_header_exact(s, 0);
    assert(cs == h && ce == h + l && ce == s.len());
    let (ttag, tcs, tce) = der::sp_element(s, cs, ce)->Some_0;
    let (alg_raw, aend) = sp_parse_alg(s, tce, ce)->Some_0;
    assert(c.tbs_raw == s.subrange(cs, tce));
    assert(c.alg_raw == s.subrange(tce, aend));
    assert(c.sig_raw == s.subrange(aend, ce));
    assert(cs <= tce <= aend <= ce);
    assert(c.tbs_raw + c.alg_raw + c.sig_raw =~= s.subrange(cs, ce));
    assert(s.subrange(cs, ce).len() == l);
    assert(sp_enc_cert(c) =~= s.subrange(0, h as int) + s.subrange(cs, ce));
    assert(sp_enc_cert(c) =~= s);
}

/// Reads a signature-algorithm element at `i`, returning its raw octets.
fn parse_alg(s: &[u8], i: usize, limit: usize) -> (r: Option<(Vec<u8>, usize)>)
    requires
        limit <= s@.len(),
    ensures
        match r {
            Some((raw, end)) => sp_parse_alg(s@, i as int, limit as int) == Some(
                (raw@, end as int),
            ) && i < end <= limit,
            None => sp_parse_alg(s@, i as int, limit as int) is None,
        },
{
    match der::read_element(s, i, limit) {
        Some((tag, acs, ace)) => {
            if tag != 0x30 {
                return None;
            }
            let alg_null: Vec<u8> = vec![
                0x30u8,
                0x0du8,
                0x06u8,
                0x09u8,
                0x2au8,
                0x86u8,
                0x48u8,
                0x86u8,
                0xf7u8,
                0x0du8,
                0x01u8,
                0x01u8,
                0x0bu8,
                0x05u8,
                0x00u8,
            ];
            let alg_bare: Vec<u8> = vec![
                0x30u8,
                0x0bu8,
                0x06u8,
                0x09u8,
                0x2au8,
                0x86u8,
                0x48u8,
                0x86u8,
                0xf7u8,
                0x0du8,
                0x01u8,
                0x01u8,
                0x0bu8,
            ];
            proof {
                assert(alg_null@ =~= sp_sig_alg_elem_null());
                assert(alg_bare@ =~= sp_sig_alg_elem_bare());
            }
            if spki::bytes_eq(s, i, ace, alg_null.as_slice()) || spki::bytes_eq(
                s,
                i,
                ace,
                alg_bare.as_slice(),
            ) {
                let raw = vstd::slice::slice_to_vec(vstd::slice::slice_subrange(s, i, ace));
                Some((raw, ace))
            } else {
                None
            }
        },
        None => None,
    }
}

/// Reads a name element at `i`, returning its raw octets.
fn parse_name(s: &[u8], i: usize, limit: usize) -> (r: Option<(Vec<u8>, usize)>)
    requires
        limit <= s@.len(),
    ensures
        match r {
            Some((raw, end)) => sp_parse_name(s@, i as int, limit as int) == Some(
                (raw@, end as int),
            ) && i < end <= limit,
            None => sp_parse_name(s@, i as int, limit as int) is None,
        },
{
    match der::read_element(s, i, limit) {
        Some((tag, cs, ce)) => if tag == 0x30 {
            let raw = vstd::slice::slice_to_vec(vstd::slice::slice_subrange(s, i, ce));
            Some((raw, ce))
        } else {
            None
        },
        None => None,
    }
}

/// Reads the serial-number element at `i`, returning its content octets.
fn parse_serial(s: &[u8], i: usize, limit: usize) -> (r: Option<(Vec<u8>, usize)>)
    requires
        limit <= s@.len(),
    ensures
        match r {
            Some((content, end)) => sp_parse_serial(s@, i as int, limit as int) == Some(
                (content@, end as int),
            ) && i < end <= limit,
            None => sp_parse_serial(s@, i as int, limit as int) is None,
        },
{
    match der::read_element(s, i, limit) {
        Some((tag, cs, ce)) => {
            if tag == 0x02 && cs < ce && s[cs] < 0x80 && !(ce - cs > 1 && s[cs] == 0x00 && s[cs + 1]
                < 0x80) {
                let content = vstd::slice::slice_to_vec(vstd::slice::slice_subrange(s, cs, ce));
                Some((content, ce))
            } else {
                None
            }
        },
        None => None,
    }
}

/// Skips the optional version field at `i`, checking its value when present.
fn parse_version(s: &[u8], i: usize, limit: usize) -> (r: Option<usize>)
    requires
        i <= limit <= s@.len(),
    ensures
        match r {
            Some(end) => sp_parse_version(s@, i as int, limit as int) == Some(end as int) && i
                <= end <= limit,
            None => sp_parse_version(s@, i as int, limit as int) is None,
        },
{
    match der::read_element(s, i, limit) {
        Some((tag, cs, ce)) => if tag == 0xa0 {
            if ce - cs == 3 && s[cs] == 0x02 && s[cs + 1] == 0x01 && s[cs + 2] == 0x02 {
                Some(ce)
            } else {
                None
            }
        } else {
            Some(i)
        },
        None => Some(i),
    }
}

/// The fields read out of the to-be-signed content.
struct TbsParts {
    serial: Vec<u8>,
    alg: Vec<u8>,
    issuer: Vec<u8>,
    validity: Validity,
    subject: Vec<u8>,
    spki: SubjectPublicKeyInfo,
    exts: IdExtensions,
}

impl View for TbsParts {
    type V = TbsSpec;

    closed spec fn view(&self) -> TbsSpec {
        TbsSpec {
            serial: self.serial@,
            alg: self.alg@,
            issuer: self.issuer@,
            validity: self.validity,
            subject: self.subject@,
            spki: self.spki@,
            exts: self.exts@,
        }
    }
}

/// Reads the fields of the to-be-signed content `[tcs, tce)`.
#[verifier::spinoff_prover]
#[verifier::rlimit(100)]
fn parse_tbs_fields(s: &[u8], tcs: usize, tce: usize) -> (r: Option<TbsParts>)
    requires
        tcs <= tce <= s@.len(),
    ensures
        match r {
            Some(p) => sp_parse_tbs_fields(s@, tcs as int, tce as int) == Some(p@),
            None => sp_parse_tbs_fields(s@, tcs as int, tce as int) is None,
        },
{
    proof {
        reveal(sp_parse_tbs_fields);
    }
    let i1 = match parse_version(s, tcs, tce) {
        Some(i1) => i1,
        None => {
            return None;
        },
    };
    let (serial, i2) = match parse_serial(s, i1, tce) {
        Some(t) => t,
        None => {
            return None;
        },
    };
    let (alg, i3) = match parse_alg(s, i2, tce) {
        Some(t) => t,
        None => {
            return None;
        },
    };
    let (issuer, i4) = match parse_name(s, i3, tce) {
        Some(t) => t,
        None => {
            return None;
        },
    };
    let (validity, i5) = match time::parse_validity(s, i4, tce) {
        Some(t) => t,
        None => {
            return None;
        },
    };
    let (subject, i6) = match parse_name(s, i5, tce) {
        Some(t) => t,
        None => {
            return None;
        },
    };
    let (sk, i7) = match SubjectPublicKeyInfo::take_from(s, i6, tce) {
        Some(t) => t,
        None => {
            return None;
        },
    };
    let (xcs, xce) = match der::read_element(s, i7, tce) {
        Some((xtag, xcs, xce)) => {
            if xtag != 0xa3 || xce != tce {
                return None;
            }
            (xcs, xce)
        },
        None => {
            return None;
        },
    };
    match IdExtensions::take_from(s, xcs, xce) {
        Some((exts, xend)) => {
            if xend != xce {
                return None;
            }
            Some(TbsParts { serial, alg, issuer, validity, subject, spki: sk, exts })
        },
        None => None,
    }
}

impl IdCert {
    /// Whether this certificate is well formed: every decoded certificate
    /// is, and encoding is only promised to invert decoding for such values.
    pub open spec fn wf(self) -> bool {
        sp_cert_wf(self@)
    }

    /// Decodes a byte buffer as a certificate; the buffer must hold exactly
    /// one certificate, which re-encodes to exactly these bytes.
    pub fn decode(data: &[u8]) -> (r: Result<IdCert, DecodeError>)
        ensures
            match r {
                Ok(c) => sp_parse_cert(data@) == Some(c@) && c.wf() && sp_enc_cert(c@) == data@,
                Err(_) => sp_parse_cert(data@) is None,
            },
    {
        match Self::take_from(data, 0, data.len()) {
            Some((c, end)) => if end == data.len() {
                proof {
                    lemma_round_trip(data@, c@);
                }
                Ok(c)
            } else {
                Err(DecodeError)
            },
            None => Err(DecodeError),
        }
    }

    /// Takes an encoded certificate from position `i` of a value. Returns
    /// the certificate and the position just past it.
    pub fn take_from(s: &[u8], i: usize, limit: usize) -> (r: Option<(IdCert, usize)>)
        requires
            limit <= s@.len(),
        ensures
            match r {
                Some((c, end)) => sp_parse_cert_at(s@, i as int, limit as int) == Some(
                    (c@, end as int),
                ) && i < end <= limit,
                None => sp_parse_cert_at(s@, i as int, limit as int) is None,
            },
    {
        match der::read_element(s, i, limit) {
            Some((otag, cs, ce)) => {
                if otag != 0x30 {
                    return None;
                }
                match Self::from_constructed(s, cs, ce) {
                    Some(c) => Some((c, ce)),
                    None => None,
                }
            },
            None => None,
        }
    }

    /// Parses the content of a certificate's envelope sequence.
    pub fn from_constructed(s: &[u8], cs: usize, ce: usize) -> (r: Option<IdCert>)
        requires
            cs <= ce <= s@.len(),
        ensures
            match r {
                Some(c) => sp_parse_cert_content(s@, cs as int, ce as int) == Some(c@),
                None => sp_parse_cert_content(s@, cs as int, ce as int) is None,
            },
    {
        let (tcs, tce) = match der::read_element(s, cs, ce) {
            Some((ttag, tcs, tce)) => {
                if ttag != 0x30 {
                    return None;
                }
                (tcs, tce)
            },
            None => {
                return None;
            },
        };
        let tf = match parse_tbs_fields(s, tcs, tce) {
            Some(tf) => tf,
            None => {
                return None;
            },
        };
        let (alg, aend) = match parse_alg(s, tce, ce) {
            Some(t) => t,
            None => {
                return None;
            },
        };
        match der::read_element(s, aend, ce) {
            Some((btag, bcs, bce)) => {
                if btag == 0x03 && bce == ce && bcs < bce && s[bcs] == 0x00 {
                    let tbs = vstd::slice::slice_to_vec(vstd::slice::slice_subrange(s, cs, tce));
                    let sig = vstd::slice::slice_to_vec(vstd::slice::slice_subrange(s, aend, ce));
                    let sig_bits = vstd::slice::slice_to_vec(
                        vstd::slice::slice_subrange(s, bcs + 1, bce),
                    );
                    Some(
                        IdCert {
                            signed_data: SignedData { tbs, alg: alg.clone(), sig, sig_bits },
                            serial_number: tf.serial,
                            signature: tf.alg,
                            issuer: tf.issuer,
                            validity: tf.validity,
                            subject: tf.subject,
                            subject_public_key_info: tf.spki,
                            extensions: tf.exts,
                        },
                    )
                } else {
                    None
                }
            },
            None => None,
        }
    }

    /// Encodes the certificate: the envelope around the original
    /// to-be-signed, algorithm and signature octets, re-emitted unchanged.
    pub fn encode(&self) -> (r: Vec<u8>)
        requires
            self.wf(),
        ensures
            r@ == sp_enc_cert(self@),
    {
        let total = self.signed_data.tbs.len() + self.signed_data.alg.len()
            + self.signed_data.sig.len();
        let out = der::write_header(Vec::new(), 0x30, total);
        let out = der::append_bytes(out, self.signed_data.tbs.as_slice());
        let out = der::append_bytes(out, self.signed_data.alg.as_slice());
        let out = der::append_bytes(out, self.signed_data.sig.as_slice());
        proof {
            assert(out@ =~= sp_enc_cert(self@));
        }
        out
    }

    /// Serializes the certificate to a byte buffer.
    pub fn to_bytes(&self) -> (r: Vec<u8>)
        requires
            self.wf(),
        ensures
            r@ == sp_enc_cert(self@),
    {
        self.encode()
    }
}

/// The shared basic checks: the validity interval holds `now`, and the
/// subject key identifier equals the SHA-1 digest of the subject public
/// key's bit content.
pub open spec fn sp_basics_ok(c: CertSpec, now: Time) -> bool {
    &&& c.validity.sp_current(now)
    &&& c.exts.subject_key_id.1 == crypto::sha1_of(c.spki.key_bits)
}

/// The CA check: basic constraints present with the CA flag set.
pub open spec fn sp_ca_basics_ok(c: CertSpec) -> bool {
    match c.exts.basic_ca {
        Some((critical, ca)) => ca,
        None => false,
    }
}

/// The trust-anchor self-reference check: when the authority key identifier
/// is present it must equal the subject key identifier; absence is accepted.
pub open spec fn sp_ta_aki_ok(c: CertSpec) -> bool {
    match c.exts.authority_key_id {
        Some((critical, id)) => id == c.exts.subject_key_id.1,
        None => true,
    }
}

/// The issuance check: the authority key identifier must be present and
/// equal the issuer's subject key identifier.
pub open spec fn sp_issued_ok(c: CertSpec, issuer: CertSpec) -> bool {
    match c.exts.authority_key_id {
        Some((critical, id)) => id == issuer.exts.subject_key_id.1,
        None => false,
    }
}

/// The signature check: the envelope's signature bits verify over the
/// to-be-signed octets with the given key.
pub open spec fn sp_sig_ok(c: CertSpec, key_bits: Seq<u8>) -> bool {
    crypto::rsa_sha256_sig_ok(crypto::sha256_of(c.tbs_raw), c.sig_bits, key_bits)
}

/// Validity as a trust anchor: the basic checks, the CA check, the
/// self-reference check, and the self-signature.
pub open spec fn sp_ta_valid(c: CertSpec, now: Time) -> bool {
    &&& sp_basics_ok(c, now)
    &&& sp_ca_basics_ok(c)
    &&& sp_ta_aki_ok(c)
    &&& sp_sig_ok(c, c.spki.key_bits)
}

/// Validity as an end-entity certificate: the basic checks, issuance by the
/// given issuer, no basic constraints, and the issuer's signature.
pub open spec fn sp_ee_valid(c: CertSpec, issuer: CertSpec, now: Time) -> bool {
    &&& sp_basics_ok(c, now)
    &&& sp_issued_ok(c, issuer)
    &&& c.exts.basic_ca is None
    &&& sp_sig_ok(c, issuer.spki.key_bits)
}

/// Whatever path validated a certificate, the basic checks made its subject
/// key identifier equal the SHA-1 digest of its public key's bit content.
pub proof fn lemma_validated_key_id(c: CertSpec, now: Time)
    requires
        sp_basics_ok(c, now),
    ensures
        c.exts.subject_key_id.1 == crypto::sha1_of(c.spki.key_bits),
{
}

/// An end-entity certificate without an authority key identifier never
/// validates, whoever the issuer and whatever the time.
pub proof fn lemma_ee_missing_aki_fails(c: CertSpec, issuer: CertSpec, now: Time)
    requires
        c.exts.authority_key_id is None,
    ensures
        !sp_ee_valid(c, issuer, now),
{
}

impl IdCert {
    /// Validates basic compliance shared by both validation paths.
    fn validate_basics(&self, now: &Time) -> (r: Result<(), ValidationError>)
        ensures
            r is Ok <==> sp_basics_ok(self@, *now),
    {
        if !self.validity.validate(now) {
            return Err(ValidationError);
        }
        let ki = self.subject_public_key_info.key_identifier();
        if !der::bytes_equal(self.extensions.subject_key_id().as_slice(), ki.as_slice()) {
            return Err(ValidationError);
        }
        Ok(())
    }

    /// Validates that the certificate is a valid CA certificate: basic
    /// constraints present with the CA flag set.
    fn validate_ca_basics(&self) -> (r: Result<(), ValidationError>)
        ensures
            r is Ok <==> sp_ca_basics_ok(self@),
    {
        match &self.extensions.basic_ca {
            Some(ca) => if ca.ca() {
                Ok(())
            } else {
                Err(ValidationError)
            },
            None => Err(ValidationError),
        }
    }

    /// Validates that the certificate was issued by `issuer`: the authority
    /// key identifier present and equal to the issuer's subject key
    /// identifier.
    fn validate_issued(&self, issuer: &IdCert) -> (r: Result<(), ValidationError>)
        ensures
            r is Ok <==> sp_issued_ok(self@, issuer@),
    {
        match self.extensions.authority_key_id() {
            Some(aki) => {
                if der::bytes_equal(
                    aki.as_slice(),
                    issuer.extensions.subject_key_id().as_slice(),
                ) {
                    Ok(())
                } else {
                    Err(ValidationError)
                }
            },
            None => Err(ValidationError),
        }
    }

    /// Validates the certificate's signature against the issuer's key.
    fn validate_signature(&self, issuer: &IdCert) -> (r: Result<(), ValidationError>)
        ensures
            r is Ok <==> sp_sig_ok(self@, issuer@.spki.key_bits),
    {
        let digest = crypto::sha256_digest(self.signed_data.tbs.as_slice());
        if crypto::rsa_sha256_verify(
            digest.as_slice(),
            self.signed_data.sig_bits.as_slice(),
            issuer.public_key(),
        ) {
            Ok(())
        } else {
            Err(ValidationError)
        }
    }

    /// Validates the certificate as a trust anchor: a current, self-signed
    /// CA certificate whose authority key identifier, when present, refers
    /// to its own subject key. Consumes the certificate and returns it
    /// unchanged on success.
    pub fn validate_ta(self, now: &Time) -> (r: Result<IdCert, ValidationError>)
        ensures
            r is Ok <==> sp_ta_valid(self@, *now),
            r matches Ok(c) ==> c == self,
    {
        if let Err(e) = self.validate_basics(now) {
            return Err(e);
        }
        if let Err(e) = self.validate_ca_basics() {
            return Err(e);
        }
        match self.extensions.authority_key_id() {
            Some(aki) => {
                if !der::bytes_equal(
                    aki.as_slice(),
                    self.extensions.subject_key_id().as_slice(),
                ) {
                    return Err(ValidationError);
                }
            },
            None => {},
        }
        if let Err(e) = self.validate_signature(&self) {
            return Err(e);
        }
        Ok(self)
    }

    /// Validates the certificate as an end-entity certificate signed by the
    /// given issuer: current, issued by that issuer, carrying no basic
    /// constraints. Consumes the certificate and returns it unchanged on
    /// success.
    pub fn validate_ee(self, issuer: &IdCert, now: &Time) -> (r: Result<IdCert, ValidationError>)
        ensures
            r is Ok <==> sp_ee_valid(self@, issuer@, *now),
            r matches Ok(c) ==> c == self,
    {
        if let Err(e) = self.validate_basics(now) {
            return Err(e);
        }
        if let Err(e) = self.validate_issued(issuer) {
            return Err(e);
        }
        if self.extensions.basic_ca.is_some() {
            return Err(ValidationError);
        }
        if let Err(e) = self.validate_signature(issuer) {
            return Err(e);
        }
        Ok(self)
    }
}

impl IdCert {
    /// Returns a reference to the certificate's public key: the content
    /// octets of the subject-public-key bit string.
    pub fn public_key(&self) -> (r: &[u8])
        ensures
            r@ == self@.spki.key_bits,
    {
        self.subject_public_key_info.subject_public_key()
    }

    /// Returns a reference to the subject key identifier.
    pub fn subject_key_identifier(&self) -> (r: &Vec<u8>)
        ensures
            r@ == self@.exts.subject_key_id.1,
    {
        self.extensions.subject_key_id()
    }

    /// Returns a reference to the entire public key information structure.
    pub fn subject_public_key_info(&self) -> (r: &SubjectPublicKeyInfo)
        ensures
            r@ == self@.spki,
    {
        &self.subject_public_key_info
    }

    /// Returns a reference to the certificate's serial number: the content
    /// octets of a non-negative integer of arbitrary precision.
    pub fn serial_number(&self) -> (r: &Vec<u8>)
        ensures
            r@ == self@.serial,
    {
        &self.serial_number
    }
}

} // verus!
