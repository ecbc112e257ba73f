//! Certificate extensions: the extension block is an ordered sequence of
//! (object identifier, criticality flag, opaque payload) entries. Three
//! identifiers are understood — basic constraints, subject key identifier
//! and authority key identifier; a duplicate of a known extension or an
//! unknown extension marked critical is fatal, an unknown non-critical
//! extension is skipped.

use vstd::prelude::*;
use crate::der;
use crate::crypto;
use crate::spki::SubjectPublicKeyInfo;

verus! {

/// Basic constraints: present or absent, and when present carrying the CA
/// flag. Present-with-false is distinct from absent.
#[derive(Clone, Debug, PartialEq, Eq)]
pub struct BasicCa {
    pub critical: bool,
    pub ca: bool,
}

/// Subject key identifier: the mandatory key identifier octets.
#[derive(Clone, Debug, PartialEq, Eq)]
pub struct SubjectKeyIdentifier {
    pub critical: bool,
    pub id: Vec<u8>,
}

/// Authority key identifier: the optional issuer key identifier octets.
#[derive(Clone, Debug, PartialEq, Eq)]
pub struct AuthorityKeyIdentifier {
    pub critical: bool,
    pub id: Vec<u8>,
}

/// The parsed extension block.
#[derive(Clone, Debug, PartialEq, Eq)]
pub struct IdExtensions {
    pub basic_ca: Option<BasicCa>,
    pub subject_key_id: SubjectKeyIdentifier,
    pub authority_key_id: Option<AuthorityKeyIdentifier>,
}

/// Mathematical model of an extension block: each known extension as its
/// criticality flag and its value.
#[verifier::ext_equal]
pub struct ExtsSpec {
    pub basic_ca: Option<(bool, bool)>,
    pub subject_key_id: (bool, Seq<u8>),
    pub authority_key_id: Option<(bool, Seq<u8>)>,
}

impl View for IdExtensions {
    type V = ExtsSpec;

    open spec fn view(&self) -> ExtsSpec {
        ExtsSpec {
            basic_ca: match self.basic_ca {
                Some(b) => Some((b.critical, b.ca)),
                None => None,
            },
            subject_key_id: (self.subject_key_id.critical, self.subject_key_id.id@),
            authority_key_id: match self.authority_key_id {
                Some(a) => Some((a.critical, a.id@)),
                None => None,
            },
        }
    }
}

pub open spec fn sp_oid_basic_ca() -> Seq<u8> {
    seq![0x55u8, 0x1du8, 0x13u8]
}

pub open spec fn sp_oid_subject_key_id() -> Seq<u8> {
    seq![0x55u8, 0x1du8, 0x0eu8]
}

pub open spec fn sp_oid_authority_key_id() -> Seq<u8> {
    seq![0x55u8, 0x1du8, 0x23u8]
}

/// Whether the object identifier belongs to an extension this profile
/// understands.
pub open spec fn sp_known_oid(oid: Seq<u8>) -> bool {
    oid == sp_oid_basic_ca() || oid == sp_oid_subject_key_id() || oid == sp_oid_authority_key_id()
}

/// The value of boolean content octets: one octet, all bits clear or all set.
pub open spec fn sp_parse_bool_content(s: Seq<u8>, cs: int, ce: int) -> Option<bool> {
    if ce - cs == 1 && 0 <= cs && ce <= s.len() {
        if s[cs] == 0x00 {
            Some(false)
        } else if s[cs] == 0xff {
            Some(true)
        } else {
            None
        }
    } else {
        None
    }
}

/// A basic-constraints payload: a sequence holding an optional CA flag that
/// defaults to false.
pub open spec fn sp_parse_basic_ca_payload(s: Seq<u8>, cs: int, ce: int) -> Option<bool> {
    match der::sp_element(s, cs, ce) {
        Some((tag, bcs, bce)) => {
            if tag != 0x30 || bce != ce {
                None
            } else if bcs == bce {
                Some(false)
            } else {
                match der::sp_element(s, bcs, bce) {
                    Some((btag, ccs, cce)) => if btag == 0x01 && cce == bce {
                        sp_parse_bool_content(s, ccs, cce)
                    } else {
                        None
                    },
                    None => None,
                }
            }
        },
        None => None,
    }
}

/// A subject-key-identifier payload: a single octet string holding the
/// identifier.
pub open spec fn sp_parse_ski_payload(s: Seq<u8>, cs: int, ce: int) -> Option<Seq<u8>> {
    match der::sp_element(s, cs, ce) {
        Some((tag, ocs, oce)) => if tag == 0x04 && oce == ce {
            Some(s.subrange(ocs, oce))
        } else {
            None
        },
        None => None,
    }
}

/// An authority-key-identifier payload: a sequence holding exactly the
/// implicitly tagged key identifier octets.
pub open spec fn sp_parse_aki_payload(s: Seq<u8>, cs: int, ce: int) -> Option<Seq<u8>> {
    match der::sp_element(s, cs, ce) {
        Some((tag, acs, ace)) => {
            if tag != 0x30 || ace != ce {
                None
            } else {
                match der::sp_element(s, acs, ace) {
                    Some((ktag, kcs, kce)) => if ktag == 0x80 && kce == ace {
                        Some(s.subrange(kcs, kce))
                    } else {
                        None
                    },
                    None => None,
                }
            }
        },
        None => None,
    }
}

/// One entry of the extension sequence before dispatch: its identifier, its
/// criticality flag and the range of its payload octets.
pub struct ExtEntry {
    pub oid: Seq<u8>,
    pub critical: bool,
    pub vcs: int,
    pub vce: int,
}

/// Parses one extension entry at `i`: a sequence holding an object
/// identifier, an optional criticality flag that defaults to false, and an
/// octet string wrapping the payload. Returns the entry and the position
/// just past it.
#[verifier::opaque]
pub open spec fn sp_parse_ext_entry(s: Seq<u8>, i: int, limit: int) -> Option<(ExtEntry, int)> {
    match der::sp_element(s, i, limit) {
        Some((tag, cs, ce)) => {
            if tag != 0x30 {
                None
            } else {
                match der::sp_element(s, cs, ce) {
                    Some((otag, ocs, oce)) => {
                        if otag != 0x06 {
                            None
                        } else {
                            let oid = s.subrange(ocs, oce);
                            match sp_parse_opt_critical(s, oce, ce) {
                                Some((critical, vi)) => match der::sp_element(s, vi, ce) {
                                    Some((vtag, vcs, vce)) => if vtag == 0x04 && vce == ce {
                                        Some((ExtEntry { oid, critical, vcs, vce }, ce))
                                    } else {
                                        None
                                    },
                                    None => None,
                                },
                                None => None,
                            }
                        }
                    },
                    None => None,
                }
            }
        },
        None => None,
    }
}

/// Parses the optional criticality flag at `i`: absent when no boolean
/// element starts there, otherwise its value. Returns the flag and the
/// position where the payload must start.
pub open spec fn sp_parse_opt_critical(s: Seq<u8>, i: int, limit: int) -> Option<(bool, int)> {
    match der::sp_element(s, i, limit) {
        Some((tag, ccs, cce)) => if tag == 0x01 {
            match sp_parse_bool_content(s, ccs, cce) {
                Some(b) => Some((b, cce)),
                None => None,
            }
        } else {
            Some((false, i))
        },
        None => Some((false, i)),
    }
}

/// The dispatch state: which known extensions have been seen so far.
pub struct ExtState {
    pub basic_ca: Option<(bool, bool)>,
    pub ski: Option<(bool, Seq<u8>)>,
    pub aki: Option<(bool, Seq<u8>)>,
}

pub open spec fn sp_empty_state() -> ExtState {
    ExtState { basic_ca: None, ski: None, aki: None }
}

/// Dispatches one entry: decodes a known extension's payload and records it,
/// rejecting duplicates; rejects an unknown extension marked critical and
/// skips an unknown one that is not.
#[verifier::opaque]
pub open spec fn sp_apply(s: Seq<u8>, st: ExtState, e: ExtEntry) -> Option<ExtState> {
    if e.oid == sp_oid_basic_ca() {
        if st.basic_ca is Some {
            None
        } else {
            match sp_parse_basic_ca_payload(s, e.vcs, e.vce) {
                Some(ca) => Some(ExtState { basic_ca: Some((e.critical, ca)), ..st }),
                None => None,
            }
        }
    } else if e.oid == sp_oid_subject_key_id() {
        if st.ski is Some {
            None
        } else {
            match sp_parse_ski_payload(s, e.vcs, e.vce) {
                Some(id) => Some(ExtState { ski: Some((e.critical, id)), ..st }),
                None => None,
            }
        }
    } else if e.oid == sp_oid_authority_key_id() {
        if st.aki is Some {
            None
        } else {
            match sp_parse_aki_payload(s, e.vcs, e.vce) {
                Some(id) => Some(ExtState { aki: Some((e.critical, id)), ..st }),
                None => None,
            }
        }
    } else if e.critical {
        None
    } else {
        Some(st)
    }
}

/// Folds the entries of `[i, end)` into the dispatch state.
pub open spec fn sp_parse_exts_loop(s: Seq<u8>, i: int, end: int, st: ExtState) -> Option<ExtState>
    decreases end - i,
{
    if i == end {
        Some(st)
    } else {
        match sp_parse_ext_entry(s, i, end) {
            Some((e, j)) => if i < j <= end {
                match sp_apply(s, st, e) {
                    Some(st2) => sp_parse_exts_loop(s, j, end, st2),
                    None => None,
                }
            } else {
                None
            },
            None => None,
        }
    }
}

/// Parses the extension sequence element at `i`: every entry dispatched, and
/// the subject key identifier present at the end. Returns the block and the
/// position just past the sequence.
#[verifier::opaque]
pub open spec fn sp_parse_exts_seq(s: Seq<u8>, i: int, limit: int) -> Option<(ExtsSpec, int)> {
    match der::sp_element(s, i, limit) {
        Some((tag, cs, ce)) => {
            if tag != 0x30 {
                None
            } else {
                match sp_parse_exts_loop(s, cs, ce, sp_empty_state()) {
                    Some(st) => match st.ski {
                        Some(ski) => Some(
                            (
                                ExtsSpec {
                                    basic_ca: st.basic_ca,
                                    subject_key_id: ski,
                                    authority_key_id: st.aki,
                                },
                                ce,
                            ),
                        ),
                        None => None,
                    },
                    None => None,
                }
            }
        },
        None => None,
    }
}

/// Reads boolean content octets.
pub fn parse_bool_content(s: &[u8], cs: usize, ce: usize) -> (r: Option<bool>)
    requires
        cs <= ce <= s@.len(),
    ensures
        r == sp_parse_bool_content(s@, cs as int, ce as int),
{
    if ce - cs == 1 {
        if s[cs] == 0x00 {
            Some(false)
        } else if s[cs] == 0xff {
            Some(true)
        } else {
            None
        }
    } else {
        None
    }
}

/// Whether the octets `[cs, ce)` are exactly the three octets `a b c`.
pub fn oid_is(s: &[u8], cs: usize, ce: usize, a: u8, b: u8, c: u8) -> (r: bool)
    requires
        cs <= ce <= s@.len(),
    ensures
        r == (s@.subrange(cs as int, ce as int) == seq![a, b, c]),
{
    let sub = Ghost(s@.subrange(cs as int, ce as int));
    if ce - cs == 3 && s[cs] == a && s[cs + 1] == b && s[cs + 2] == c {
        proof {
            assert(sub@ =~= seq![a, b, c]);
        }
        true
    } else {
        proof {
            if sub@ == seq![a, b, c] {
                assert(sub@.len() == 3);
                assert(sub@[0] == a && sub@[1] == b && sub@[2] == c);
                assert(s@[cs as int] == a && s@[cs as int + 1] == b && s@[cs as int + 2] == c);
            }
        }
        false
    }
}

/// Reads a basic-constraints payload.
pub fn parse_basic_ca_payload(s: &[u8], cs: usize, ce: usize) -> (r: Option<bool>)
    requires
        cs <= ce <= s@.len(),
    ensures
        r == sp_parse_basic_ca_payload(s@, cs as int, ce as int),
{
    match der::read_element(s, cs, ce) {
        Some((tag, bcs, bce)) => {
            if tag != 0x30 || bce != ce {
                None
            } else if bcs == bce {
                Some(false)
            } else {
                match der::read_element(s, bcs, bce) {
                    Some((btag, ccs, cce)) => if btag == 0x01 && cce == bce {
                        parse_bool_content(s, ccs, cce)
                    } else {
                        None
                    },
                    None => None,
                }
            }
        },
        None => None,
    }
}

/// Reads a subject-key-identifier payload.
pub fn parse_ski_payload(s: &[u8], cs: usize, ce: usize) -> (r: Option<Vec<u8>>)
    requires
        cs <= ce <= s@.len(),
    ensures
        match r {
            Some(id) => sp_parse_ski_payload(s@, cs as int, ce as int) == Some(id@),
            None => sp_parse_ski_payload(s@, cs as int, ce as int) is None,
        },
{
    match der::read_element(s, cs, ce) {
        Some((tag, ocs, oce)) => if tag == 0x04 && oce == ce {
            let sub = vstd::slice::slice_subrange(s, ocs, oce);
            Some(vstd::slice::slice_to_vec(sub))
        } else {
            None
        },
        None => None,
    }
}

/// Reads an authority-key-identifier payload.
pub fn parse_aki_payload(s: &[u8], cs: usize, ce: usize) -> (r: Option<Vec<u8>>)
    requires
        cs <= ce <= s@.len(),
    ensures
        match r {
            Some(id) => sp_parse_aki_payload(s@, cs as int, ce as int) == Some(id@),
            None => sp_parse_aki_payload(s@, cs as int, ce as int) is None,
        },
{
    match der::read_element(s, cs, ce) {
        Some((tag, acs, ace)) => {
            if tag != 0x30 || ace != ce {
                None
            } else {
                match der::read_element(s, acs, ace) {
                    Some((ktag, kcs, kce)) => if ktag == 0x80 && kce == ace {
                        let sub = vstd::slice::slice_subrange(s, kcs, kce);
                        Some(vstd::slice::slice_to_vec(sub))
                    } else {
                        None
                    },
                    None => None,
                }
            }
        },
        None => None,
    }
}

/// Reads the optional criticality flag at `i`.
pub fn parse_opt_critical(s: &[u8], i: usize, limit: usize) -> (r: Option<(bool, usize)>)
    requires
        limit <= s@.len(),
    ensures
        match r {
            Some((b, vi)) => sp_parse_opt_critical(s@, i as int, limit as int) == Some(
                (b, vi as int),
            ) && (vi == i || i < vi <= limit),
            None => sp_parse_opt_critical(s@, i as int, limit as int) is None,
        },
{
    match der::read_element(s, i, limit) {
        Some((tag, ccs, cce)) => if tag == 0x01 {
            match parse_bool_content(s, ccs, cce) {
                Some(b) => Some((b, cce)),
                None => None,
            }
        } else {
            Some((false, i))
        },
        None => Some((false, i)),
    }
}

/// Reads one extension entry at `i`. Returns the range of the identifier
/// octets, the criticality flag, the range of the payload octets, and the
/// position just past the entry.
pub fn parse_ext_entry(s: &[u8], i: usize, limit: usize) -> (r: Option<
    (usize, usize, bool, usize, usize, usize),
>)
    requires
        limit <= s@.len(),
    ensures
        match r {
            Some((ocs, oce, critical, vcs, vce, end)) => {
                &&& sp_parse_ext_entry(s@, i as int, limit as int) == Some(
                    (
                        ExtEntry {
                            oid: s@.subrange(ocs as int, oce as int),
                            critical,
                            vcs: vcs as int,
                            vce: vce as int,
                        },
                        end as int,
                    ),
                )
                &&& i < end <= limit
                &&& ocs <= oce <= s@.len()
                &&& vcs <= vce <= s@.len()
            },
            None => sp_parse_ext_entry(s@, i as int, limit as int) is None,
        },
{
    proof {
        reveal(sp_parse_ext_entry);
    }
    match der::read_element(s, i, limit) {
        Some((tag, cs, ce)) => {
            if tag != 0x30 {
                return None;
            }
            match der::read_element(s, cs, ce) {
                Some((otag, ocs, oce)) => {
                    if otag != 0x06 {
                        return None;
                    }
                    match parse_opt_critical(s, oce, ce) {
                        Some((critical, vi)) => match der::read_element(s, vi, ce) {
                            Some((vtag, vcs, vce)) => if vtag == 0x04 && vce == ce {
                                Some((ocs, oce, critical, vcs, vce, ce))
                            } else {
                                None
                            },
                            None => None,
                        },
                        None => None,
                    }
                },
                None => None,
            }
        },
        None => None,
    }
}

/// The dispatch state held by the decoding loop.
struct ExtAcc {
    basic_ca: Option<BasicCa>,
    ski: Option<SubjectKeyIdentifier>,
    aki: Option<AuthorityKeyIdentifier>,
}

impl View for ExtAcc {
    type V = ExtState;

    closed spec fn view(&self) -> ExtState {
        ExtState {
            basic_ca: match self.basic_ca {
                Some(b) => Some((b.critical, b.ca)),
                None => None,
            },
            ski: match self.ski {
                Some(k) => Some((k.critical, k.id@)),
                None => None,
            },
            aki: match self.aki {
                Some(a) => Some((a.critical, a.id@)),
                None => None,
            },
        }
    }
}

/// Dispatches one parsed entry into the state: the executable counterpart
/// of `sp_apply`.
fn apply_entry(
    s: &[u8],
    acc: ExtAcc,
    ocs: usize,
    oce: usize,
    critical: bool,
    vcs: usize,
    vce: usize,
) -> (r: Option<ExtAcc>)
    requires
        ocs <= oce <= s@.len(),
        vcs <= vce <= s@.len(),
    ensures
        ({
            let entry = ExtEntry {
                oid: s@.subrange(ocs as int, oce as int),
                critical,
                vcs: vcs as int,
                vce: vce as int,
            };
            match r {
                Some(acc2) => sp_apply(s@, acc@, entry) == Some(acc2@),
                None => sp_apply(s@, acc@, entry) is None,
            }
        }),
{
    proof {
        reveal(sp_apply);
    }
    let mut acc = acc;
    if oid_is(s, ocs, oce, 0x55, 0x1d, 0x13) {
        if acc.basic_ca.is_some() {
            return None;
        }
        match parse_basic_ca_payload(s, vcs, vce) {
            Some(ca) => {
                acc.basic_ca = Some(BasicCa { critical, ca });
                Some(acc)
            },
            None => None,
        }
    } else if oid_is(s, ocs, oce, 0x55, 0x1d, 0x0e) {
        if acc.ski.is_some() {
            return None;
        }
        match parse_ski_payload(s, vcs, vce) {
            Some(id) => {
                acc.ski = Some(SubjectKeyIdentifier { critical, id });
                Some(acc)
            },
            None => None,
        }
    } else if oid_is(s, ocs, oce, 0x55, 0x1d, 0x23) {
        if acc.aki.is_some() {
            return None;
        }
        match parse_aki_payload(s, vcs, vce) {
            Some(id) => {
                acc.aki = Some(AuthorityKeyIdentifier { critical, id });
                Some(acc)
            },
            None => None,
        }
    } else if critical {
        None
    } else {
        Some(acc)
    }
}

impl IdExtensions {
    /// Takes the encoded extension sequence from position `i` of `s`:
    /// dispatches every entry and requires the subject key identifier to
    /// have been seen. Returns the block and the position just past it.
    #[verifier::spinoff_prover]
    #[verifier::loop_isolation(false)]
    #[verifier::rlimit(100)]
    pub fn take_from(s: &[u8], i: usize, limit: usize) -> (r: Option<(IdExtensions, usize)>)
        requires
            limit <= s@.len(),
        ensures
            match r {
                Some((e, end)) => sp_parse_exts_seq(s@, i as int, limit as int) == Some(
                    (e@, end as int),
                ) && i < end <= limit,
                None => sp_parse_exts_seq(s@, i as int, limit as int) is None,
            },
    {
        proof {
            reveal(sp_parse_exts_seq);
        }
        let (cs, ce) = match der::read_element(s, i, limit) {
            Some((tag, cs, ce)) => {
                if tag != 0x30 {
                    return None;
                }
                (cs, ce)
            },
            None => {
                return None;
            },
        };
        let mut cur = cs;
        let mut acc = ExtAcc { basic_ca: None, ski: None, aki: None };
        while cur < ce
            invariant
                cs <= cur <= ce <= s@.len(),
                sp_parse_exts_loop(s@, cs as int, ce as int, sp_empty_state())
                    == sp_parse_exts_loop(s@, cur as int, ce as int, acc@),
            decreases ce - cur,
        {
            let ghost st = acc@;
            let (ocs, oce, critical, vcs, vce, end) = match parse_ext_entry(s, cur, ce) {
                Some(t) => t,
                None => {
                    proof {
                        assert(sp_parse_exts_loop(s@, cur as int, ce as int, st) is None);
                    }
                    return None;
                },
            };
            acc = match apply_entry(s, acc, ocs, oce, critical, vcs, vce) {
                Some(a) => a,
                None => {
                    proof {
                        assert(sp_parse_exts_loop(s@, cur as int, ce as int, st) is None);
                    }
                    return None;
                },
            };
            proof {
                assert(sp_parse_exts_loop(s@, cur as int, ce as int, st) == sp_parse_exts_loop(
                    s@,
                    end as int,
                    ce as int,
                    acc@,
                ));
            }
            cur = end;
        }
        let st_final = match acc.ski {
            Some(k) => {
                let exts = IdExtensions {
                    basic_ca: acc.basic_ca,
                    subject_key_id: k,
                    authority_key_id: acc.aki,
                };
                Some((exts, ce))
            },
            None => None,
        };
        st_final
    }
}

/// An unknown extension whose criticality flag is set is fatal: no dispatch
/// state survives it.
pub proof fn lemma_unknown_critical_fatal(s: Seq<u8>, st: ExtState, e: ExtEntry)
    requires
        !sp_known_oid(e.oid),
        e.critical,
    ensures
        sp_apply(s, st, e) is None,
{
    reveal(sp_apply);
}

/// An unknown extension whose criticality flag is clear is skipped: the
/// dispatch state is unchanged, so the entry leaves no trace in the block.
pub proof fn lemma_unknown_noncritical_skipped(s: Seq<u8>, st: ExtState, e: ExtEntry)
    requires
        !sp_known_oid(e.oid),
        !e.critical,
    ensures
        sp_apply(s, st, e) == Some(st),
{
    reveal(sp_apply);
}

/// The boolean element encoding a criticality or CA flag that is set.
pub open spec fn sp_enc_bool_elem(b: bool) -> Seq<u8> {
    seq![0x01u8, 0x01u8, if b { 0xffu8 } else { 0x00u8 }]
}

/// A basic-constraints payload: the CA flag is omitted when false, its
/// default.
pub open spec fn sp_enc_basic_ca_payload(ca: bool) -> Seq<u8> {
    der::sp_elem(
        0x30,
        if ca {
            sp_enc_bool_elem(true)
        } else {
            Seq::empty()
        },
    )
}

/// The criticality flag of an extension entry: omitted when false, its
/// default.
pub open spec fn sp_enc_critical(critical: bool) -> Seq<u8> {
    if critical {
        sp_enc_bool_elem(true)
    } else {
        Seq::empty()
    }
}

/// A whole basic-constraints extension entry.
pub open spec fn sp_enc_basic_ca_ext(critical: bool, ca: bool) -> Seq<u8> {
    der::sp_elem(
        0x30,
        der::sp_elem(0x06, sp_oid_basic_ca()) + sp_enc_critical(critical) + der::sp_elem(
            0x04,
            sp_enc_basic_ca_payload(ca),
        ),
    )
}

/// A whole subject-key-identifier extension entry.
pub open spec fn sp_enc_ski_ext(critical: bool, id: Seq<u8>) -> Seq<u8> {
    der::sp_elem(
        0x30,
        der::sp_elem(0x06, sp_oid_subject_key_id()) + sp_enc_critical(critical) + der::sp_elem(
            0x04,
            der::sp_elem(0x04, id),
        ),
    )
}

/// A whole authority-key-identifier extension entry.
pub open spec fn sp_enc_aki_ext(critical: bool, id: Seq<u8>) -> Seq<u8> {
    der::sp_elem(
        0x30,
        der::sp_elem(0x06, sp_oid_authority_key_id()) + sp_enc_critical(critical) + der::sp_elem(
            0x04,
            der::sp_elem(0x30, der::sp_elem(0x80, id)),
        ),
    )
}

/// The encoding of a whole extension block: the context-tagged wrapper
/// around the sequence of present extensions, in the fixed order basic
/// constraints, subject key identifier, authority key identifier.
pub open spec fn sp_enc_exts(e: ExtsSpec) -> Seq<u8> {
    der::sp_elem(
        0xa3,
        der::sp_elem(
            0x30,
            (match e.basic_ca {
                Some((c, ca)) => sp_enc_basic_ca_ext(c, ca),
                None => Seq::empty(),
            }) + sp_enc_ski_ext(e.subject_key_id.0, e.subject_key_id.1) + (
            match e.authority_key_id {
                Some((c, id)) => sp_enc_aki_ext(c, id),
                None => Seq::empty(),
            }),
        ),
    )
}

/// A key identifier short enough for the encoder's length octets.
pub open spec fn sp_id_fits(id: Seq<u8>) -> bool {
    id.len() <= 0x1000
}

/// Whether every key identifier of the block is short enough to encode.
pub open spec fn sp_exts_fit(e: ExtsSpec) -> bool {
    &&& sp_id_fits(e.subject_key_id.1)
    &&& match e.authority_key_id {
        Some((c, id)) => sp_id_fits(id),
        None => true,
    }
}

/// Bounds on the size of each encoded extension entry.
pub proof fn lemma_enc_ext_lens(critical: bool, ca: bool, id: Seq<u8>)
    requires
        sp_id_fits(id),
    ensures
        sp_enc_basic_ca_ext(critical, ca).len() <= 32,
        sp_enc_ski_ext(critical, id).len() <= id.len() + 32,
        sp_enc_aki_ext(critical, id).len() <= id.len() + 32,
{
    let crit = sp_enc_critical(critical);
    assert(crit.len() <= 3);
    let bc_payload = sp_enc_basic_ca_payload(ca);
    der::lemma_elem_len(
        0x30,
        if ca {
            sp_enc_bool_elem(true)
        } else {
            Seq::<u8>::empty()
        },
    );
    assert(bc_payload.len() <= 7);
    der::lemma_elem_len(0x06, sp_oid_basic_ca());
    der::lemma_elem_len(0x04, bc_payload);
    der::lemma_elem_len(
        0x30,
        der::sp_elem(0x06, sp_oid_basic_ca()) + crit + der::sp_elem(0x04, bc_payload),
    );
    der::lemma_elem_len(0x04, id);
    der::lemma_elem_len(0x06, sp_oid_subject_key_id());
    der::lemma_elem_len(0x04, der::sp_elem(0x04, id));
    der::lemma_elem_len(
        0x30,
        der::sp_elem(0x06, sp_oid_subject_key_id()) + crit + der::sp_elem(
            0x04,
            der::sp_elem(0x04, id),
        ),
    );
    der::lemma_elem_len(0x80, id);
    der::lemma_elem_len(0x30, der::sp_elem(0x80, id));
    der::lemma_elem_len(0x06, sp_oid_authority_key_id());
    der::lemma_elem_len(0x04, der::sp_elem(0x30, der::sp_elem(0x80, id)));
    der::lemma_elem_len(
        0x30,
        der::sp_elem(0x06, sp_oid_authority_key_id()) + crit + der::sp_elem(
            0x04,
            der::sp_elem(0x30, der::sp_elem(0x80, id)),
        ),
    );
}

/// Appends a boolean element.
fn push_bool_elem(out: Vec<u8>, b: bool) -> (r: Vec<u8>)
    ensures
        r@ == out@ + sp_enc_bool_elem(b),
{
    let mut v = out;
    v.push(0x01);
    v.push(0x01);
    v.push(if b { 0xff } else { 0x00 });
    proof {
        assert(v@ =~= out@ + sp_enc_bool_elem(b));
    }
    v
}

impl BasicCa {
    /// Assembles a basic-constraints extension value.
    pub fn new(critical: bool, ca: bool) -> (r: BasicCa)
        ensures
            r.critical == critical,
            r.ca == ca,
    {
        BasicCa { critical, ca }
    }

    /// Whether the CA flag is set.
    pub fn ca(&self) -> (r: bool)
        ensures
            r == self.ca,
    {
        self.ca
    }

    /// Encodes the extension entry, omitting default values.
    pub fn encode(&self) -> (r: Vec<u8>)
        ensures
            r@ == sp_enc_basic_ca_ext(self.critical, self.ca),
    {
        let mut inner: Vec<u8> = Vec::new();
        if self.ca {
            inner = push_bool_elem(inner, true);
        }
        proof {
            assert(inner@ =~= (if self.ca {
                sp_enc_bool_elem(true)
            } else {
                Seq::<u8>::empty()
            }));
        }
        let payload = der::write_elem(Vec::new(), 0x30, inner.as_slice());
        let oid: Vec<u8> = vec![0x55u8, 0x1du8, 0x13u8];
        proof {
            assert(oid@ =~= sp_oid_basic_ca());
        }
        let mut content = der::write_elem(Vec::new(), 0x06, oid.as_slice());
        if self.critical {
            content = push_bool_elem(content, true);
        }
        let content = der::write_elem(content, 0x04, payload.as_slice());
        let r = der::write_elem(Vec::new(), 0x30, content.as_slice());
        proof {
            assert(r@ =~= sp_enc_basic_ca_ext(self.critical, self.ca));
        }
        r
    }
}

impl SubjectKeyIdentifier {
    /// Derives the subject-key-identifier extension value for a key: the
    /// SHA-1 digest of the key bits, never critical.
    pub fn new(key: &SubjectPublicKeyInfo) -> (r: SubjectKeyIdentifier)
        ensures
            r.critical == false,
            r.id@ == crypto::sha1_of(key@.key_bits),
            r.id@.len() == 20,
    {
        SubjectKeyIdentifier { critical: false, id: key.key_identifier() }
    }

    /// The key identifier octets.
    pub fn subject_key_id(&self) -> (r: &Vec<u8>)
        ensures
            r@ == self.id@,
    {
        &self.id
    }

    /// Encodes the extension entry, omitting default values.
    pub fn encode(&self) -> (r: Vec<u8>)
        requires
            sp_id_fits(self.id@),
        ensures
            r@ == sp_enc_ski_ext(self.critical, self.id@),
    {
        let payload = der::write_elem(Vec::new(), 0x04, self.id.as_slice());
        let oid: Vec<u8> = vec![0x55u8, 0x1du8, 0x0eu8];
        proof {
            assert(oid@ =~= sp_oid_subject_key_id());
        }
        let mut content = der::write_elem(Vec::new(), 0x06, oid.as_slice());
        if self.critical {
            content = push_bool_elem(content, true);
        }
        let content = der::write_elem(content, 0x04, payload.as_slice());
        let r = der::write_elem(Vec::new(), 0x30, content.as_slice());
        proof {
            assert(r@ =~= sp_enc_ski_ext(self.critical, self.id@));
        }
        r
    }
}

impl AuthorityKeyIdentifier {
    /// Derives the authority-key-identifier extension value for an issuer
    /// key: the SHA-1 digest of that key's bits, never critical.
    pub fn new(key: &SubjectPublicKeyInfo) -> (r: AuthorityKeyIdentifier)
        ensures
            r.critical == false,
            r.id@ == crypto::sha1_of(key@.key_bits),
            r.id@.len() == 20,
    {
        AuthorityKeyIdentifier { critical: false, id: key.key_identifier() }
    }

    /// The key identifier octets.
    pub fn authority_key_id(&self) -> (r: &Vec<u8>)
        ensures
            r@ == self.id@,
    {
        &self.id
    }

    /// Encodes the extension entry, omitting default values.
    pub fn encode(&self) -> (r: Vec<u8>)
        requires
            sp_id_fits(self.id@),
        ensures
            r@ == sp_enc_aki_ext(self.critical, self.id@),
    {
        let inner = der::write_elem(Vec::new(), 0x80, self.id.as_slice());
        let payload = der::write_elem(Vec::new(), 0x30, inner.as_slice());
        let oid: Vec<u8> = vec![0x55u8, 0x1du8, 0x23u8];
        proof {
            assert(oid@ =~= sp_oid_authority_key_id());
        }
        let mut content = der::write_elem(Vec::new(), 0x06, oid.as_slice());
        if self.critical {
            content = push_bool_elem(content, true);
        }
        let content = der::write_elem(content, 0x04, payload.as_slice());
        let r = der::write_elem(Vec::new(), 0x30, content.as_slice());
        proof {
            assert(r@ =~= sp_enc_aki_ext(self.critical, self.id@));
        }
        r
    }
}

impl IdExtensions {
    /// Assembles the extension block of a self-signed trust-anchor
    /// certificate: basic constraints present with the CA flag set, and
    /// both key identifiers derived from the certificate's own key.
    pub fn for_id_ta_cert(key: &SubjectPublicKeyInfo) -> (r: IdExtensions)
        ensures
            r@.basic_ca == Some((true, true)),
            r@.subject_key_id == (false, crypto::sha1_of(key@.key_bits)),
            r@.authority_key_id == Some((false, crypto::sha1_of(key@.key_bits))),
            sp_exts_fit(r@),
    {
        IdExtensions {
            basic_ca: Some(BasicCa::new(true, true)),
            subject_key_id: SubjectKeyIdentifier::new(key),
            authority_key_id: Some(AuthorityKeyIdentifier::new(key)),
        }
    }

    /// Assembles the extension block of an end-entity certificate: no basic
    /// constraints, the subject key identifier derived from the subject's
    /// key and the authority key identifier from the issuer's key.
    pub fn for_id_ee_cert(subject_key: &SubjectPublicKeyInfo, authority_key: &SubjectPublicKeyInfo) -> (r:
        IdExtensions)
        ensures
            r@.basic_ca is None,
            r@.subject_key_id == (false, crypto::sha1_of(subject_key@.key_bits)),
            r@.authority_key_id == Some((false, crypto::sha1_of(authority_key@.key_bits))),
            sp_exts_fit(r@),
    {
        IdExtensions {
            basic_ca: None,
            subject_key_id: SubjectKeyIdentifier::new(subject_key),
            authority_key_id: Some(AuthorityKeyIdentifier::new(authority_key)),
        }
    }

    /// The subject key identifier octets.
    pub fn subject_key_id(&self) -> (r: &Vec<u8>)
        ensures
            r@ == self@.subject_key_id.1,
    {
        &self.subject_key_id.id
    }

    /// The authority key identifier octets, when that extension is present.
    pub fn authority_key_id(&self) -> (r: Option<&Vec<u8>>)
        ensures
            match r {
                Some(id) => self@.authority_key_id matches Some(a) && a.1 == id@,
                None => self@.authority_key_id is None,
            },
    {
        match &self.authority_key_id {
            Some(a) => Some(a.authority_key_id()),
            None => None,
        }
    }

    /// Encodes the extension block inside its context tag, present
    /// extensions only, in the fixed order.
    #[verifier::spinoff_prover]
    #[verifier::rlimit(60)]
    pub fn encode(&self) -> (r: Vec<u8>)
        requires
            sp_exts_fit(self@),
        ensures
            r@ == sp_enc_exts(self@),
    {
        proof {
            lemma_enc_ext_lens(
                self@.subject_key_id.0,
                true,
                self@.subject_key_id.1,
            );
            if self@.basic_ca is Some {
                let (c, ca) = self@.basic_ca->Some_0;
                lemma_enc_ext_lens(c, ca, self@.subject_key_id.1);
            }
            if self@.authority_key_id is Some {
                let (c, id) = self@.authority_key_id->Some_0;
                lemma_enc_ext_lens(c, true, id);
            }
        }
        let mut content: Vec<u8> = Vec::new();
        match &self.basic_ca {
            Some(b) => {
                let mut e = b.encode();
                content.append(&mut e);
            },
            None => {},
        }
        let mut e = self.subject_key_id.encode();
        content.append(&mut e);
        match &self.authority_key_id {
            Some(a) => {
                let mut e = a.encode();
                content.append(&mut e);
            },
            None => {},
        }
        proof {
            assert(content@ =~= (match self@.basic_ca {
                Some((c, ca)) => sp_enc_basic_ca_ext(c, ca),
                None => Seq::<u8>::empty(),
            }) + sp_enc_ski_ext(self@.subject_key_id.0, self@.subject_key_id.1) + (
            match self@.authority_key_id {
                Some((c, id)) => sp_enc_aki_ext(c, id),
                None => Seq::<u8>::empty(),
            }));
        }
        let ghost whole = (match self@.basic_ca {
            Some((c, ca)) => sp_enc_basic_ca_ext(c, ca),
            None => Seq::<u8>::empty(),
        }) + sp_enc_ski_ext(self@.subject_key_id.0, self@.subject_key_id.1) + (
        match self@.authority_key_id {
            Some((c, id)) => sp_enc_aki_ext(c, id),
            None => Seq::<u8>::empty(),
        });
        let seq_elem = der::write_elem(Vec::new(), 0x30, content.as_slice());
        proof {
            assert(seq_elem@ =~= der::sp_elem(0x30, whole));
            der::lemma_elem_len(0x30, whole);
        }
        let r = der::write_elem(Vec::new(), 0xa3, seq_elem.as_slice());
        proof {
            assert(r@ =~= der::sp_elem(0xa3, der::sp_elem(0x30, whole)));
        }
        r
    }
}

/// Parses a whole extension block at `i`: the context-tagged wrapper holding
/// exactly the extension sequence. Returns the block and the position just
/// past the wrapper.
pub open spec fn sp_parse_ext_block(s: Seq<u8>, i: int, limit: int) -> Option<(ExtsSpec, int)> {
    match der::sp_element(s, i, limit) {
        Some((tag, cs, ce)) => if tag == 0xa3 {
            match sp_parse_exts_seq(s, cs, ce) {
                Some((e, end)) => if end == ce {
                    Some((e, ce))
                } else {
                    None
                },
                None => None,
            }
        } else {
            None
        },
        None => None,
    }
}

/// The shared shape of an encoded extension entry: the identifier, the
/// criticality flag when set, and the octet string around the payload.
pub open spec fn sp_enc_entry(oid: Seq<u8>, critical: bool, payload: Seq<u8>) -> Seq<u8> {
    der::sp_elem(
        0x30,
        der::sp_elem(0x06, oid) + sp_enc_critical(critical) + der::sp_elem(0x04, payload),
    )
}

/// Decoding an encoded basic-constraints payload recovers the CA flag.
proof fn lemma_basic_ca_payload_rt(s: Seq<u8>, cs: int, ce: int, ca: bool)
    requires
        0 <= cs,
        ce <= s.len(),
        ce - cs == sp_enc_basic_ca_payload(ca).len(),
        s.subrange(cs, ce) == sp_enc_basic_ca_payload(ca),
    ensures
        sp_parse_basic_ca_payload(s, cs, ce) == Some(ca),
{
    let inner = if ca {
        sp_enc_bool_elem(true)
    } else {
        Seq::<u8>::empty()
    };
    assert(sp_enc_basic_ca_payload(ca) == der::sp_elem(0x30, inner));
    der::lemma_element_at(s, cs, ce, 0x30, inner);
    if ca {
        assert(inner =~= der::sp_elem(0x01, seq![0xffu8]));
        der::lemma_element_at(s, cs + 2, ce, 0x01, seq![0xffu8]);
        assert(s.subrange(cs + 4, cs + 5)[0] == 0xff);
        assert(s[cs + 4] == 0xff);
    }
}

/// Decoding an encoded subject-key-identifier payload recovers the octets.
proof fn lemma_ski_payload_rt(s: Seq<u8>, cs: int, ce: int, id: Seq<u8>)
    requires
        0 <= cs,
        ce <= s.len(),
        sp_id_fits(id),
        ce - cs == der::sp_elem(0x04, id).len(),
        s.subrange(cs, ce) == der::sp_elem(0x04, id),
    ensures
        sp_parse_ski_payload(s, cs, ce) == Some(id),
{
    der::lemma_element_at(s, cs, ce, 0x04, id);
}

/// Decoding an encoded authority-key-identifier payload recovers the octets.
proof fn lemma_aki_payload_rt(s: Seq<u8>, cs: int, ce: int, id: Seq<u8>)
    requires
        0 <= cs,
        ce <= s.len(),
        sp_id_fits(id),
        ce - cs == der::sp_elem(0x30, der::sp_elem(0x80, id)).len(),
        s.subrange(cs, ce) == der::sp_elem(0x30, der::sp_elem(0x80, id)),
    ensures
        sp_parse_aki_payload(s, cs, ce) == Some(id),
{
    let inner = der::sp_elem(0x80, id);
    der::lemma_elem_len(0x80, id);
    der::lemma_element_at(s, cs, ce, 0x30, inner);
    let h = 1 + der::sp_len_bytes(inner.len() as int).len() as int;
    der::lemma_element_at(s, cs + h, ce, 0x80, id);
}

/// Parsing an encoded extension entry recovers its identifier, its flag and
/// its payload octets.
#[verifier::spinoff_prover]
#[verifier::rlimit(100)]
proof fn lemma_entry_parse(
    s: Seq<u8>,
    i: int,
    limit: int,
    oid: Seq<u8>,
    critical: bool,
    payload: Seq<u8>,
)
    requires
        0 <= i,
        oid.len() == 3,
        payload.len() <= 0x2000,
        i + sp_enc_entry(oid, critical, payload).len() <= limit <= s.len(),
        s.subrange(i, i + sp_enc_entry(oid, critical, payload).len()) == sp_enc_entry(
            oid,
            critical,
            payload,
        ),
    ensures
        ({
            let r = sp_parse_ext_entry(s, i, limit);
            let end = i + sp_enc_entry(oid, critical, payload).len();
            &&& r is Some
            &&& r->Some_0.1 == end
            &&& r->Some_0.0.oid == oid
            &&& r->Some_0.0.critical == critical
            &&& 0 <= r->Some_0.0.vcs <= r->Some_0.0.vce <= s.len()
            &&& r->Some_0.0.vce - r->Some_0.0.vcs == payload.len()
            &&& s.subrange(r->Some_0.0.vcs, r->Some_0.0.vce) == payload
        }),
{
    reveal(sp_parse_ext_entry);
    let oid_e = der::sp_elem(0x06, oid);
    let crit = sp_enc_critical(critical);
    let pay_e = der::sp_elem(0x04, payload);
    let inner = oid_e + crit + pay_e;
    let entry = sp_enc_entry(oid, critical, payload);
    der::lemma_elem_len(0x04, payload);
    der::lemma_elem_len(0x30, inner);
    der::lemma_element_at(s, i, limit, 0x30, inner);
    let h0 = 1 + der::sp_len_bytes(inner.len() as int).len() as int;
    let cs = i + h0;
    let ce = i + entry.len();
    assert(s.subrange(cs, ce) == inner);
    der::lemma_subrange_of_subrange(s, cs, ce, cs, cs + 5, inner);
    assert(inner.subrange(0, 5) =~= oid_e);
    der::lemma_element_at(s, cs, ce, 0x06, oid);
    assert(der::sp_element(s, cs, ce) == Some((0x06u8, cs + 2, cs + 5)));
    let vi: int = if critical {
        cs + 8
    } else {
        cs + 5
    };
    if critical {
        der::lemma_subrange_of_subrange(s, cs, ce, cs + 5, cs + 8, inner);
        assert(inner.subrange(5, 8) =~= der::sp_elem(0x01, seq![0xffu8]));
        der::lemma_element_at(s, cs + 5, ce, 0x01, seq![0xffu8]);
        assert(s.subrange(cs + 7, cs + 8)[0] == 0xff);
        assert(s[cs + 7] == 0xff);
        assert(sp_parse_opt_critical(s, cs + 5, ce) == Some((true, cs + 8)));
    } else {
        der::lemma_subrange_of_subrange(s, cs, ce, cs + 5, cs + 5 + pay_e.len(), inner);
        assert(inner.subrange(5, 5 + pay_e.len() as int) =~= pay_e);
        der::lemma_element_at(s, cs + 5, ce, 0x04, payload);
        assert(sp_parse_opt_critical(s, cs + 5, ce) == Some((false, cs + 5)));
    }
    der::lemma_subrange_of_subrange(s, cs, ce, vi, vi + pay_e.len(), inner);
    assert(inner.subrange(vi - cs, vi - cs + pay_e.len() as int) =~= pay_e);
    der::lemma_element_at(s, vi, ce, 0x04, payload);
    let hp = 1 + der::sp_len_bytes(payload.len() as int).len() as int;
    assert(vi + pay_e.len() == ce);
    assert(der::sp_element(s, vi, ce) == Some((0x04u8, vi + hp, ce)));
    assert(s.subrange(cs + 2, cs + 5) == oid);
}

/// The basic-constraints extension with the criticality and CA flags both
/// set encodes to the profile's fixed seventeen octets: a sequence of
/// content length fifteen holding the identifier, the boolean true and an
/// octet string wrapping a one-flag sequence.
pub proof fn lemma_basic_ca_exact_bytes()
    ensures
        sp_enc_basic_ca_ext(true, true) == seq![
            48u8,
            15u8,
            6u8,
            3u8,
            85u8,
            29u8,
            19u8,
            1u8,
            1u8,
            255u8,
            4u8,
            5u8,
            48u8,
            3u8,
            1u8,
            1u8,
            255u8,
        ],
{
    assert(sp_enc_basic_ca_ext(true, true) =~= seq![
        48u8,
        15u8,
        6u8,
        3u8,
        85u8,
        29u8,
        19u8,
        1u8,
        1u8,
        255u8,
        4u8,
        5u8,
        48u8,
        3u8,
        1u8,
        1u8,
        255u8,
    ]);
}

/// One dispatch step: a basic-constraints entry found in the octets.
proof fn lemma_step_basic_ca(b: Seq<u8>, p: int, len: int, st: ExtState, c: bool, ca: bool)
    requires
        0 <= p,
        p + sp_enc_basic_ca_ext(c, ca).len() <= len <= b.len(),
        b.subrange(p, p + sp_enc_basic_ca_ext(c, ca).len()) == sp_enc_basic_ca_ext(c, ca),
        st.basic_ca is None,
    ensures
        ({
            let r = sp_parse_ext_entry(b, p, len);
            &&& r is Some
            &&& r->Some_0.1 == p + sp_enc_basic_ca_ext(c, ca).len()
            &&& sp_apply(b, st, r->Some_0.0) == Some(ExtState { basic_ca: Some((c, ca)), ..st })
        }),
{
    reveal(sp_apply);
    assert(sp_enc_basic_ca_ext(c, ca) == sp_enc_entry(
        sp_oid_basic_ca(),
        c,
        sp_enc_basic_ca_payload(ca),
    ));
    lemma_entry_parse(b, p, len, sp_oid_basic_ca(), c, sp_enc_basic_ca_payload(ca));
    let entry = sp_parse_ext_entry(b, p, len)->Some_0.0;
    lemma_basic_ca_payload_rt(b, entry.vcs, entry.vce, ca);
}

/// One dispatch step: a subject-key-identifier entry found in the octets.
proof fn lemma_step_ski(b: Seq<u8>, p: int, len: int, st: ExtState, c: bool, id: Seq<u8>)
    requires
        0 <= p,
        sp_id_fits(id),
        p + sp_enc_ski_ext(c, id).len() <= len <= b.len(),
        b.subrange(p, p + sp_enc_ski_ext(c, id).len()) == sp_enc_ski_ext(c, id),
        st.ski is None,
    ensures
        ({
            let r = sp_parse_ext_entry(b, p, len);
            &&& r is Some
            &&& r->Some_0.1 == p + sp_enc_ski_ext(c, id).len()
            &&& sp_apply(b, st, r->Some_0.0) == Some(ExtState { ski: Some((c, id)), ..st })
        }),
{
    reveal(sp_apply);
    der::lemma_elem_len(0x04, id);
    assert(sp_enc_ski_ext(c, id) == sp_enc_entry(
        sp_oid_subject_key_id(),
        c,
        der::sp_elem(0x04, id),
    ));
    lemma_entry_parse(b, p, len, sp_oid_subject_key_id(), c, der::sp_elem(0x04, id));
    let entry = sp_parse_ext_entry(b, p, len)->Some_0.0;
    lemma_ski_payload_rt(b, entry.vcs, entry.vce, id);
    assert(entry.oid != sp_oid_basic_ca());
}

/// One dispatch step: an authority-key-identifier entry found in the octets.
proof fn lemma_step_aki(b: Seq<u8>, p: int, len: int, st: ExtState, c: bool, id: Seq<u8>)
    requires
        0 <= p,
        sp_id_fits(id),
        p + sp_enc_aki_ext(c, id).len() <= len <= b.len(),
        b.subrange(p, p + sp_enc_aki_ext(c, id).len()) == sp_enc_aki_ext(c, id),
        st.aki is None,
    ensures
        ({
            let r = sp_parse_ext_entry(b, p, len);
            &&& r is Some
            &&& r->Some_0.1 == p + sp_enc_aki_ext(c, id).len()
            &&& sp_apply(b, st, r->Some_0.0) == Some(ExtState { aki: Some((c, id)), ..st })
        }),
{
    reveal(sp_apply);
    der::lemma_elem_len(0x80, id);
    der::lemma_elem_len(0x30, der::sp_elem(0x80, id));
    assert(sp_enc_aki_ext(c, id) == sp_enc_entry(
        sp_oid_authority_key_id(),
        c,
        der::sp_elem(0x30, der::sp_elem(0x80, id)),
    ));
    lemma_entry_parse(
        b,
        p,
        len,
        sp_oid_authority_key_id(),
        c,
        der::sp_elem(0x30, der::sp_elem(0x80, id)),
    );
    let entry = sp_parse_ext_entry(b, p, len)->Some_0.0;
    lemma_aki_payload_rt(b, entry.vcs, entry.vce, id);
    assert(entry.oid != sp_oid_basic_ca() && entry.oid != sp_oid_subject_key_id());
}

/// An encoded extension block decodes back to exactly the block it encodes:
/// together with the constructors this shows that a block built for a key
/// still carries that key's identifiers after a round trip through bytes.
#[verifier::spinoff_prover]
#[verifier::rlimit(100)]
pub proof fn lemma_exts_round_trip(e: ExtsSpec)
    requires
        sp_exts_fit(e),
    ensures
        ({
            let b = sp_enc_exts(e);
            sp_parse_ext_block(b, 0, b.len() as int) == Some((e, b.len() as int))
        }),
{
    reveal(sp_parse_exts_seq);
    let bc_enc = match e.basic_ca {
        Some((c, ca)) => sp_enc_basic_ca_ext(c, ca),
        None => Seq::<u8>::empty(),
    };
    let ski_enc = sp_enc_ski_ext(e.subject_key_id.0, e.subject_key_id.1);
    let aki_enc = match e.authority_key_id {
        Some((c, id)) => sp_enc_aki_ext(c, id),
        None => Seq::<u8>::empty(),
    };
    let seq_inner = bc_enc + ski_enc + aki_enc;
    let inner = der::sp_elem(0x30, seq_inner);
    let b = sp_enc_exts(e);
    lemma_enc_ext_lens(e.subject_key_id.0, true, e.subject_key_id.1);
    if e.basic_ca is Some {
        let (c, ca) = e.basic_ca->Some_0;
        lemma_enc_ext_lens(c, ca, e.subject_key_id.1);
    }
    if e.authority_key_id is Some {
        let (c, id) = e.authority_key_id->Some_0;
        lemma_enc_ext_lens(c, true, id);
    }
    der::lemma_elem_len(0x30, seq_inner);
    assert(b.subrange(0, b.len() as int) =~= b);
    der::lemma_element_at(b, 0, b.len() as int, 0xa3, inner);
    let h0 = 1 + der::sp_len_bytes(inner.len() as int).len() as int;
    let cs = h0;
    let len = b.len() as int;
    der::lemma_element_at(b, cs, len, 0x30, seq_inner);
    let h1 = 1 + der::sp_len_bytes(seq_inner.len() as int).len() as int;
    let ecs = cs + h1;
    assert(b.subrange(ecs, len) == seq_inner);
    // walk the one to three entries
    let p0 = ecs;
    let p1 = p0 + bc_enc.len();
    let p2 = p1 + ski_enc.len();
    let p3 = p2 + aki_enc.len();
    assert(p3 == len);
    let st0 = sp_empty_state();
    let st1 = if e.basic_ca is Some {
        ExtState { basic_ca: e.basic_ca, ..st0 }
    } else {
        st0
    };
    if e.basic_ca is Some {
        let (c, ca) = e.basic_ca->Some_0;
        der::lemma_subrange_of_subrange(b, ecs, len, p0, p1, seq_inner);
        assert(seq_inner.subrange(0, bc_enc.len() as int) =~= bc_enc);
        lemma_step_basic_ca(b, p0, len, st0, c, ca);
    }
    let st2 = ExtState { ski: Some(e.subject_key_id), ..st1 };
    der::lemma_subrange_of_subrange(b, ecs, len, p1, p2, seq_inner);
    assert(seq_inner.subrange(p1 - ecs, p2 - ecs) =~= ski_enc);
    lemma_step_ski(b, p1, len, st1, e.subject_key_id.0, e.subject_key_id.1);
    let st3 = if e.authority_key_id is Some {
        ExtState { aki: e.authority_key_id, ..st2 }
    } else {
        st2
    };
    if e.authority_key_id is Some {
        let (c, id) = e.authority_key_id->Some_0;
        der::lemma_subrange_of_subrange(b, ecs, len, p2, p3, seq_inner);
        assert(seq_inner.subrange(p2 - ecs, p3 - ecs) =~= aki_enc);
        lemma_step_aki(b, p2, len, st2, c, id);
    }
    // fold the loop over the entries
    assert(sp_parse_exts_loop(b, p3, len, st3) == Some(st3));
    if e.authority_key_id is Some {
        assert(sp_parse_exts_loop(b, p2, len, st2) == Some(st3));
    } else {
        assert(p2 == p3 && st2 == st3);
    }
    assert(sp_parse_exts_loop(b, p1, len, st1) == Some(st3));
    if e.basic_ca is Some {
        assert(sp_parse_exts_loop(b, p0, len, st0) == Some(st3));
    } else {
        assert(p0 == p1 && st0 == st1);
    }
    assert(sp_parse_exts_loop(b, ecs, len, sp_empty_state()) == Some(st3));
    assert(st3.ski == Some(e.subject_key_id));
    let parsed = ExtsSpec {
        basic_ca: st3.basic_ca,
        subject_key_id: st3.ski->Some_0,
        authority_key_id: st3.aki,
    };
    assert(parsed =~= e);
    assert(sp_parse_exts_seq(b, cs, len) == Some((e, len)));
}

/// The key-identifier invariant survives bytes: a block whose subject key
/// identifier is the SHA-1 digest of some key's bits — as both constructors
/// make it — still carries exactly that digest after being encoded and
/// decoded back.
pub proof fn lemma_constructed_block_keeps_key_id(e: ExtsSpec, key_bits: Seq<u8>)
    requires
        sp_exts_fit(e),
        e.subject_key_id.1 == crypto::sha1_of(key_bits),
    ensures
        ({
            let b = sp_enc_exts(e);
            &&& sp_parse_ext_block(b, 0, b.len() as int) is Some
            &&& sp_parse_ext_block(b, 0, b.len() as int)->Some_0.0.subject_key_id.1
                == crypto::sha1_of(key_bits)
        }),
{
    lemma_exts_round_trip(e);
}

} // verus!