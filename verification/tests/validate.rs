//! Validation behaviour, against real self-signed certificates built with a
//! freshly generated RSA key.

use idcert::ext::IdExtensions;
use idcert::idcert::IdCert;
use idcert::spki::SubjectPublicKeyInfo;
use idcert::time::Time;
use rsa::pkcs1::EncodeRsaPublicKey;
use rsa::RsaPrivateKey;
use sha2::Digest;

fn der_len(out: &mut Vec<u8>, l: usize) {
    if l < 0x80 {
        out.push(l as u8);
    } else if l < 0x100 {
        out.push(0x81);
        out.push(l as u8);
    } else {
        out.push(0x82);
        out.push((l >> 8) as u8);
        out.push((l & 0xff) as u8);
    }
}

fn elem(tag: u8, content: &[u8]) -> Vec<u8> {
    let mut v = vec![tag];
    der_len(&mut v, content.len());
    v.extend_from_slice(content);
    v
}

const SIG_ALG: [u8; 15] = [
    0x30, 0x0d, 0x06, 0x09, 0x2a, 0x86, 0x48, 0x86, 0xf7, 0x0d, 0x01, 0x01, 0x0b, 0x05, 0x00,
];

const KEY_ALG: [u8; 15] = [
    0x30, 0x0d, 0x06, 0x09, 0x2a, 0x86, 0x48, 0x86, 0xf7, 0x0d, 0x01, 0x01, 0x01, 0x05, 0x00,
];

struct TestKey {
    key: RsaPrivateKey,
    pub_der: Vec<u8>,
}

fn make_key() -> TestKey {
    let mut rng = rand::thread_rng();
    let key = RsaPrivateKey::new(&mut rng, 512).expect("key generation");
    let pub_der = key.to_public_key().to_pkcs1_der().unwrap().as_bytes().to_vec();
    TestKey { key, pub_der }
}

fn spki_raw(key_bits: &[u8]) -> Vec<u8> {
    let mut bits = vec![0x00u8];
    bits.extend_from_slice(key_bits);
    let mut content = KEY_ALG.to_vec();
    content.extend_from_slice(&elem(0x03, &bits));
    elem(0x30, &content)
}

fn spki_value(key_bits: &[u8]) -> SubjectPublicKeyInfo {
    SubjectPublicKeyInfo { raw: spki_raw(key_bits), key_bits: key_bits.to_vec() }
}

/// Assembles and signs a certificate: the subject's key information, an
/// extension block, and the signer's private key.
fn signed_cert(subject_bits: &[u8], ext_block: &[u8], signer: &TestKey) -> Vec<u8> {
    let name = elem(0x30, &[]);
    let mut val_content = elem(0x17, b"100101000000Z");
    val_content.extend_from_slice(&elem(0x17, b"301231235959Z"));
    let validity = elem(0x30, &val_content);
    let mut tbs_content = Vec::new();
    tbs_content.extend_from_slice(&elem(0xa0, &[0x02, 0x01, 0x02]));
    tbs_content.extend_from_slice(&elem(0x02, &[0x01]));
    tbs_content.extend_from_slice(&SIG_ALG);
    tbs_content.extend_from_slice(&name);
    tbs_content.extend_from_slice(&validity);
    tbs_content.extend_from_slice(&name);
    tbs_content.extend_from_slice(&spki_raw(subject_bits));
    tbs_content.extend_from_slice(ext_block);
    let tbs = elem(0x30, &tbs_content);
    let digest = sha2::Sha256::digest(&tbs);
    let sig = signer
        .key
        .sign(rsa::Pkcs1v15Sign::new::<sha2::Sha256>(), digest.as_slice())
        .expect("signing");
    let mut sig_bits = vec![0x00u8];
    sig_bits.extend_from_slice(&sig);
    let mut outer = tbs;
    outer.extend_from_slice(&SIG_ALG);
    outer.extend_from_slice(&elem(0x03, &sig_bits));
    elem(0x30, &outer)
}

fn ta_cert(k: &TestKey) -> Vec<u8> {
    let exts = IdExtensions::for_id_ta_cert(&spki_value(&k.pub_der));
    signed_cert(&k.pub_der, &exts.encode(), k)
}

fn ee_cert(subject: &TestKey, issuer: &TestKey) -> Vec<u8> {
    let exts = IdExtensions::for_id_ee_cert(&spki_value(&subject.pub_der), &spki_value(&issuer.pub_der));
    signed_cert(&subject.pub_der, &exts.encode(), issuer)
}

fn nominal_time() -> Time {
    Time { year: 2012, month: 1, day: 1, hour: 0, minute: 0, second: 0 }
}

#[test]
fn should_parse_id_publisher_ta_cert() {
    let now = nominal_time();
    let cert = IdCert::decode(&ta_cert(&make_key())).unwrap();
    assert!(cert.validate_ta(&now).is_ok());
}

#[test]
fn validated_ta_carries_the_same_payload() {
    let data = ta_cert(&make_key());
    let cert = IdCert::decode(&data).unwrap();
    let validated = cert.clone().validate_ta(&nominal_time()).unwrap();
    assert_eq!(validated, cert);
    assert_eq!(validated.to_bytes(), data);
}

#[test]
fn ta_with_corrupted_signature_fails() {
    let mut data = ta_cert(&make_key());
    let last = data.len() - 1;
    data[last] ^= 0x01;
    let cert = IdCert::decode(&data).unwrap();
    assert!(cert.validate_ta(&nominal_time()).is_err());
}

#[test]
fn ta_outside_validity_fails() {
    let cert = IdCert::decode(&ta_cert(&make_key())).unwrap();
    let too_early = Time { year: 2009, month: 12, day: 31, hour: 23, minute: 59, second: 59 };
    let too_late = Time { year: 2031, month: 1, day: 1, hour: 0, minute: 0, second: 0 };
    assert!(cert.clone().validate_ta(&too_early).is_err());
    assert!(cert.validate_ta(&too_late).is_err());
}

#[test]
fn ta_without_basic_ca_fails() {
    let k = make_key();
    // an end-entity flavoured extension block on a self-signed certificate
    let exts = IdExtensions::for_id_ee_cert(&spki_value(&k.pub_der), &spki_value(&k.pub_der));
    let data = signed_cert(&k.pub_der, &exts.encode(), &k);
    let cert = IdCert::decode(&data).unwrap();
    assert!(cert.validate_ta(&nominal_time()).is_err());
}

#[test]
fn ta_with_mismatched_key_id_fails() {
    let k = make_key();
    // derive the extension identifiers from a different key
    let exts = IdExtensions::for_id_ta_cert(&spki_value(b"not that key"));
    let data = signed_cert(&k.pub_der, &exts.encode(), &k);
    let cert = IdCert::decode(&data).unwrap();
    assert!(cert.validate_ta(&nominal_time()).is_err());
}

#[test]
fn ee_validates_against_its_issuer() {
    let issuer_key = make_key();
    let subject_key = make_key();
    let issuer = IdCert::decode(&ta_cert(&issuer_key)).unwrap();
    let ee = IdCert::decode(&ee_cert(&subject_key, &issuer_key)).unwrap();
    assert!(ee.validate_ee(&issuer, &nominal_time()).is_ok());
}

#[test]
fn ee_missing_aki_fails() {
    let issuer_key = make_key();
    let subject_key = make_key();
    // a subject-key-identifier-only extension block: no authority key id
    let ski = spki_value(&subject_key.pub_der).key_identifier();
    let mut entry_content = elem(0x06, &[0x55, 0x1d, 0x0e]);
    entry_content.extend_from_slice(&elem(0x04, &elem(0x04, &ski)));
    let block = elem(0xa3, &elem(0x30, &elem(0x30, &entry_content)));
    let data = signed_cert(&subject_key.pub_der, &block, &issuer_key);
    let issuer = IdCert::decode(&ta_cert(&issuer_key)).unwrap();
    let ee = IdCert::decode(&data).unwrap();
    assert!(ee.validate_ee(&issuer, &nominal_time()).is_err());
}

#[test]
fn ee_with_basic_ca_fails() {
    let issuer_key = make_key();
    let subject_key = make_key();
    // a trust-anchor flavoured block on an issued certificate
    let mut exts = IdExtensions::for_id_ee_cert(
        &spki_value(&subject_key.pub_der),
        &spki_value(&issuer_key.pub_der),
    );
    exts.basic_ca = Some(idcert::ext::BasicCa::new(true, true));
    let data = signed_cert(&subject_key.pub_der, &exts.encode(), &issuer_key);
    let issuer = IdCert::decode(&ta_cert(&issuer_key)).unwrap();
    let ee = IdCert::decode(&data).unwrap();
    assert!(ee.validate_ee(&issuer, &nominal_time()).is_err());
}

#[test]
fn ee_signed_by_someone_else_fails() {
    let issuer_key = make_key();
    let other_key = make_key();
    let subject_key = make_key();
    let exts = IdExtensions::for_id_ee_cert(
        &spki_value(&subject_key.pub_der),
        &spki_value(&issuer_key.pub_der),
    );
    let data = signed_cert(&subject_key.pub_der, &exts.encode(), &other_key);
    let issuer = IdCert::decode(&ta_cert(&issuer_key)).unwrap();
    let ee = IdCert::decode(&data).unwrap();
    assert!(ee.validate_ee(&issuer, &nominal_time()).is_err());
}

#[test]
fn decoded_key_id_satisfies_the_invariant() {
    let k = make_key();
    let cert = IdCert::decode(&ta_cert(&k)).unwrap();
    let expected = sha1::Sha1::digest(&k.pub_der);
    assert_eq!(cert.subject_key_identifier().as_slice(), expected.as_slice());
}
