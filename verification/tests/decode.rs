//! Decoding and encoding behaviour: exact framing, round trips, extension
//! dispatch, and the decode errors.

use idcert::ext::{BasicCa, IdExtensions};
use idcert::idcert::IdCert;
use idcert::spki::SubjectPublicKeyInfo;

fn der_len(out: &mut Vec<u8>, l: usize) {
    if l < 0x80 {
        out.push(l as u8);
    } else if l < 0x100 {
        out.push(0x81);
        out.push(l as u8);
    } else {
        out.push(0x82);
        out.push((l >> 8) as u8);
        out.push((l & 0xff) as u8);
    }
}

fn elem(tag: u8, content: &[u8]) -> Vec<u8> {
    let mut v = vec![tag];
    der_len(&mut v, content.len());
    v.extend_from_slice(content);
    v
}

const SIG_ALG: [u8; 15] = [
    0x30, 0x0d, 0x06, 0x09, 0x2a, 0x86, 0x48, 0x86, 0xf7, 0x0d, 0x01, 0x01, 0x0b, 0x05, 0x00,
];

const KEY_ALG: [u8; 15] = [
    0x30, 0x0d, 0x06, 0x09, 0x2a, 0x86, 0x48, 0x86, 0xf7, 0x0d, 0x01, 0x01, 0x01, 0x05, 0x00,
];

fn spki_raw(key_bits: &[u8]) -> Vec<u8> {
    let mut bits = vec![0x00u8];
    bits.extend_from_slice(key_bits);
    let mut content = KEY_ALG.to_vec();
    content.extend_from_slice(&elem(0x03, &bits));
    elem(0x30, &content)
}

/// Assembles certificate bytes around the given extension block, with a
/// placeholder signature (decoding does not verify signatures).
fn build_cert(version: Option<&[u8]>, serial: &[u8], ext_block: &[u8], key_bits: &[u8]) -> Vec<u8> {
    let name = elem(0x30, &[]);
    let mut val_content = elem(0x17, b"100101000000Z");
    val_content.extend_from_slice(&elem(0x17, b"301231235959Z"));
    let validity = elem(0x30, &val_content);
    let mut tbs_content = Vec::new();
    if let Some(v) = version {
        tbs_content.extend_from_slice(&elem(0xa0, v));
    }
    tbs_content.extend_from_slice(&elem(0x02, serial));
    tbs_content.extend_from_slice(&SIG_ALG);
    tbs_content.extend_from_slice(&name);
    tbs_content.extend_from_slice(&validity);
    tbs_content.extend_from_slice(&name);
    tbs_content.extend_from_slice(&spki_raw(key_bits));
    tbs_content.extend_from_slice(ext_block);
    let tbs = elem(0x30, &tbs_content);
    let mut sig_bits = vec![0x00u8];
    sig_bits.extend_from_slice(&[0x5au8; 64]);
    let mut outer = tbs;
    outer.extend_from_slice(&SIG_ALG);
    outer.extend_from_slice(&elem(0x03, &sig_bits));
    elem(0x30, &outer)
}

fn ta_ext_block(key_bits: &[u8]) -> Vec<u8> {
    let spki = SubjectPublicKeyInfo { raw: spki_raw(key_bits), key_bits: key_bits.to_vec() };
    IdExtensions::for_id_ta_cert(&spki).encode()
}

/// One hand-rolled extension entry wrapped with the others into an
/// extension block.
fn ext_block_with_entries(entries: &[Vec<u8>]) -> Vec<u8> {
    let mut seq_content = Vec::new();
    for e in entries {
        seq_content.extend_from_slice(e);
    }
    elem(0xa3, &elem(0x30, &seq_content))
}

fn ski_entry(id: &[u8]) -> Vec<u8> {
    let mut content = elem(0x06, &[0x55, 0x1d, 0x0e]);
    content.extend_from_slice(&elem(0x04, &elem(0x04, id)));
    elem(0x30, &content)
}

fn unknown_entry(critical: Option<bool>) -> Vec<u8> {
    // key-usage, which this profile does not understand
    let mut content = elem(0x06, &[0x55, 0x1d, 0x0f]);
    if let Some(b) = critical {
        content.extend_from_slice(&elem(0x01, &[if b { 0xff } else { 0x00 }]));
    }
    content.extend_from_slice(&elem(0x04, &elem(0x03, &[0x00, 0x80])));
    elem(0x30, &content)
}

#[test]
fn should_encode_basic_ca() {
    let ba = BasicCa::new(true, true);
    let v = ba.encode();

    // 48 15            Sequence with length 15
    //  6 3 85 29 19       OID 2.5.29.19 basicConstraints
    //  1 1 255              Boolean true
    //  4 5                OctetString of length 5
    //     48 3               Sequence with length 3
    //        1 1 255           Boolean true

    assert_eq!(
        vec![48, 15, 6, 3, 85, 29, 19, 1, 1, 255, 4, 5, 48, 3, 1, 1, 255],
        v
    );
}

#[test]
fn decode_then_encode_is_identity() {
    let data = build_cert(Some(&[0x02, 0x01, 0x02]), &[0x7f], &ta_ext_block(b"some key bits"), b"some key bits");
    let cert = IdCert::decode(&data).expect("must decode");
    assert_eq!(cert.to_bytes(), data);
    let again = IdCert::decode(&cert.to_bytes()).expect("must re-decode");
    assert_eq!(again, cert);
}

#[test]
fn decode_reads_the_fields() {
    let data = build_cert(Some(&[0x02, 0x01, 0x02]), &[0x01, 0x00], &ta_ext_block(b"k"), b"k");
    let cert = IdCert::decode(&data).unwrap();
    assert_eq!(cert.serial_number().as_slice(), &[0x01, 0x00]);
    assert_eq!(cert.public_key(), b"k");
    // the subject key identifier is the SHA-1 digest of the key bits
    assert_eq!(cert.subject_key_identifier().len(), 20);
}

#[test]
fn version_absent_is_accepted() {
    let data = build_cert(None, &[0x01], &ta_ext_block(b"k"), b"k");
    assert!(IdCert::decode(&data).is_ok());
}

#[test]
fn wrong_version_is_rejected() {
    let data = build_cert(Some(&[0x02, 0x01, 0x01]), &[0x01], &ta_ext_block(b"k"), b"k");
    assert!(IdCert::decode(&data).is_err());
}

#[test]
fn negative_serial_is_rejected() {
    let data = build_cert(Some(&[0x02, 0x01, 0x02]), &[0x80], &ta_ext_block(b"k"), b"k");
    assert!(IdCert::decode(&data).is_err());
}

#[test]
fn non_minimal_serial_is_rejected() {
    let data = build_cert(Some(&[0x02, 0x01, 0x02]), &[0x00, 0x01], &ta_ext_block(b"k"), b"k");
    assert!(IdCert::decode(&data).is_err());
}

#[test]
fn trailing_bytes_are_rejected() {
    let mut data = build_cert(Some(&[0x02, 0x01, 0x02]), &[0x01], &ta_ext_block(b"k"), b"k");
    data.push(0x00);
    assert!(IdCert::decode(&data).is_err());
}

#[test]
fn truncated_input_is_rejected() {
    let data = build_cert(Some(&[0x02, 0x01, 0x02]), &[0x01], &ta_ext_block(b"k"), b"k");
    assert!(IdCert::decode(&data[..data.len() - 1]).is_err());
}

#[test]
fn unknown_critical_extension_is_fatal() {
    let ski = sha1_of(b"k");
    let block = ext_block_with_entries(&[unknown_entry(Some(true)), ski_entry(&ski)]);
    let data = build_cert(Some(&[0x02, 0x01, 0x02]), &[0x01], &block, b"k");
    assert!(IdCert::decode(&data).is_err());
}

#[test]
fn unknown_noncritical_extension_is_skipped() {
    let ski = sha1_of(b"k");
    let block = ext_block_with_entries(&[unknown_entry(Some(false)), ski_entry(&ski)]);
    let data = build_cert(Some(&[0x02, 0x01, 0x02]), &[0x01], &block, b"k");
    let cert = IdCert::decode(&data).expect("non-critical unknown extension must be skipped");
    // the unknown entry is unrepresented: only the subject key identifier is set
    assert!(cert.extensions.basic_ca.is_none());
    assert!(cert.extensions.authority_key_id.is_none());
    assert_eq!(cert.subject_key_identifier().as_slice(), &ski[..]);
}

#[test]
fn unknown_extension_without_flag_is_skipped() {
    let ski = sha1_of(b"k");
    let block = ext_block_with_entries(&[unknown_entry(None), ski_entry(&ski)]);
    let data = build_cert(Some(&[0x02, 0x01, 0x02]), &[0x01], &block, b"k");
    assert!(IdCert::decode(&data).is_ok());
}

#[test]
fn duplicate_extension_is_rejected() {
    let ski = sha1_of(b"k");
    let block = ext_block_with_entries(&[ski_entry(&ski), ski_entry(&ski)]);
    let data = build_cert(Some(&[0x02, 0x01, 0x02]), &[0x01], &block, b"k");
    assert!(IdCert::decode(&data).is_err());
}

#[test]
fn missing_subject_key_id_is_rejected() {
    let block = ext_block_with_entries(&[unknown_entry(Some(false))]);
    let data = build_cert(Some(&[0x02, 0x01, 0x02]), &[0x01], &block, b"k");
    assert!(IdCert::decode(&data).is_err());
}

#[test]
fn missing_extension_block_is_rejected() {
    // a certificate whose to-be-signed content ends at the key information
    let name = elem(0x30, &[]);
    let mut val_content = elem(0x17, b"100101000000Z");
    val_content.extend_from_slice(&elem(0x17, b"301231235959Z"));
    let validity = elem(0x30, &val_content);
    let mut tbs_content = Vec::new();
    tbs_content.extend_from_slice(&elem(0x02, &[0x01]));
    tbs_content.extend_from_slice(&SIG_ALG);
    tbs_content.extend_from_slice(&name);
    tbs_content.extend_from_slice(&validity);
    tbs_content.extend_from_slice(&name);
    tbs_content.extend_from_slice(&spki_raw(b"k"));
    let tbs = elem(0x30, &tbs_content);
    let mut sig_bits = vec![0x00u8];
    sig_bits.extend_from_slice(&[0x5au8; 64]);
    let mut outer = tbs;
    outer.extend_from_slice(&SIG_ALG);
    outer.extend_from_slice(&elem(0x03, &sig_bits));
    let data = elem(0x30, &outer);
    assert!(IdCert::decode(&data).is_err());
}

#[test]
fn basic_ca_present_false_is_kept_distinct_from_absent() {
    let ski = sha1_of(b"k");
    // an empty basic-constraints payload means present with the flag false
    let mut bc_content = elem(0x06, &[0x55, 0x1d, 0x13]);
    bc_content.extend_from_slice(&elem(0x04, &elem(0x30, &[])));
    let bc = elem(0x30, &bc_content);
    let block = ext_block_with_entries(&[bc, ski_entry(&ski)]);
    let data = build_cert(Some(&[0x02, 0x01, 0x02]), &[0x01], &block, b"k");
    let cert = IdCert::decode(&data).unwrap();
    let ca = cert.extensions.basic_ca.as_ref().expect("present");
    assert!(!ca.ca());
}

#[test]
fn generalized_time_is_accepted() {
    let ski = ta_ext_block(b"k");
    // rebuild with GeneralizedTime validity
    let name = elem(0x30, &[]);
    let mut val_content = elem(0x18, b"20100101000000Z");
    val_content.extend_from_slice(&elem(0x18, b"20301231235959Z"));
    let validity = elem(0x30, &val_content);
    let mut tbs_content = Vec::new();
    tbs_content.extend_from_slice(&elem(0x02, &[0x01]));
    tbs_content.extend_from_slice(&SIG_ALG);
    tbs_content.extend_from_slice(&name);
    tbs_content.extend_from_slice(&validity);
    tbs_content.extend_from_slice(&name);
    tbs_content.extend_from_slice(&spki_raw(b"k"));
    tbs_content.extend_from_slice(&ski);
    let tbs = elem(0x30, &tbs_content);
    let mut sig_bits = vec![0x00u8];
    sig_bits.extend_from_slice(&[0x5au8; 64]);
    let mut outer = tbs;
    outer.extend_from_slice(&SIG_ALG);
    outer.extend_from_slice(&elem(0x03, &sig_bits));
    let data = elem(0x30, &outer);
    assert!(IdCert::decode(&data).is_ok());
}

#[test]
fn impossible_calendar_date_is_rejected() {
    // thirtieth of February in the not-before time
    let name = elem(0x30, &[]);
    let mut val_content = elem(0x17, b"100230000000Z");
    val_content.extend_from_slice(&elem(0x17, b"301231235959Z"));
    let validity = elem(0x30, &val_content);
    let mut tbs_content = Vec::new();
    tbs_content.extend_from_slice(&elem(0x02, &[0x01]));
    tbs_content.extend_from_slice(&SIG_ALG);
    tbs_content.extend_from_slice(&name);
    tbs_content.extend_from_slice(&validity);
    tbs_content.extend_from_slice(&name);
    tbs_content.extend_from_slice(&spki_raw(b"k"));
    tbs_content.extend_from_slice(&ta_ext_block(b"k"));
    let tbs = elem(0x30, &tbs_content);
    let mut sig_bits = vec![0x00u8];
    sig_bits.extend_from_slice(&[0x5au8; 64]);
    let mut outer = tbs;
    outer.extend_from_slice(&SIG_ALG);
    outer.extend_from_slice(&elem(0x03, &sig_bits));
    let data = elem(0x30, &outer);
    assert!(IdCert::decode(&data).is_err());
}

#[test]
fn subject_key_identifier_is_sha1_of_key_bits() {
    // SHA-1 of "abc" is a well-known vector; through the constructor the
    // subject key identifier must be exactly that digest
    let expected: [u8; 20] = [
        0xa9, 0x99, 0x3e, 0x36, 0x47, 0x06, 0x81, 0x6a, 0xba, 0x3e, 0x25, 0x71, 0x78, 0x50, 0xc2,
        0x6c, 0x9c, 0xd0, 0xd8, 0x9d,
    ];
    let spki = SubjectPublicKeyInfo { raw: spki_raw(b"abc"), key_bits: b"abc".to_vec() };
    let exts = IdExtensions::for_id_ta_cert(&spki);
    assert_eq!(exts.subject_key_id().as_slice(), &expected[..]);
    assert_eq!(exts.authority_key_id().unwrap().as_slice(), &expected[..]);
}

#[test]
fn constructed_extensions_decode_back() {
    // the key-identifier invariant holds by construction and survives an
    // encode / decode round trip
    let key_bits = b"round trip key";
    let ski = sha1_of(key_bits);
    let data = build_cert(Some(&[0x02, 0x01, 0x02]), &[0x01], &ta_ext_block(key_bits), key_bits);
    let cert = IdCert::decode(&data).unwrap();
    assert_eq!(cert.subject_key_identifier().as_slice(), &ski[..]);
    let ca = cert.extensions.basic_ca.as_ref().expect("trust anchor flavour sets basic constraints");
    assert!(ca.ca());
}

fn sha1_of(data: &[u8]) -> Vec<u8> {
    // computed through the library's own public construction path
    let spki = SubjectPublicKeyInfo { raw: spki_raw(data), key_bits: data.to_vec() };
    spki.key_identifier()
}
