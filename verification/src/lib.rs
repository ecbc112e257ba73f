//! Identity certificates: DER decoding, encoding and profile validation.
//!
//! An identity certificate is a self-signed trust-anchor certificate or an
//! end-entity certificate used to sign protocol messages. This crate decodes
//! such certificates from their DER encoding, re-encodes them losslessly,
//! and validates them against a strict profile: decoding is specified as a
//! mathematical function of the input octets, encoding is proved to be its
//! exact inverse, and each validation path states exactly the checks it
//! makes.

pub mod crypto;
pub mod der;
pub mod ext;
pub mod idcert;
pub mod spki;
pub mod time;
