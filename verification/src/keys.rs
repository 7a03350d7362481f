//! Keys, digests and signatures, held as the bytes that stand for them.

use vstd::prelude::*;

verus! {

/// A public key in its compressed 33-byte encoding.
#[derive(Clone, Copy, Debug, PartialEq, Eq)]
pub struct PublicKey {
    pub bytes: [u8; 33],
}

/// A private key: 32 bytes. It has no `Debug` form, so that it cannot end up
/// in a log by accident.
#[derive(Clone, Copy)]
pub struct SecretKey {
    pub bytes: [u8; 32],
}

/// The digest a signature is made over.
#[derive(Clone, Copy, Debug, PartialEq, Eq)]
pub struct SigHash {
    pub bytes: [u8; 32],
}

/// An ECDSA signature in DER encoding. Every signature the engine handles
/// commits to all inputs and all outputs.
#[derive(Clone, Debug, PartialEq, Eq)]
pub struct Signature {
    pub der: Vec<u8>,
}

impl View for PublicKey {
    type V = Seq<u8>;

    open spec fn view(&self) -> Seq<u8> {
        self.bytes@
    }
}

impl View for SecretKey {
    type V = Seq<u8>;

    open spec fn view(&self) -> Seq<u8> {
        self.bytes@
    }
}

impl View for SigHash {
    type V = Seq<u8>;

    open spec fn view(&self) -> Seq<u8> {
        self.bytes@
    }
}

impl View for Signature {
    type V = Seq<u8>;

    open spec fn view(&self) -> Seq<u8> {
        self.der@
    }
}

/// The keys of a list, each by its bytes.
pub open spec fn keys_view(keys: Seq<PublicKey>) -> Seq<Seq<u8>> {
    Seq::new(keys.len(), |i: int| keys[i]@)
}

} // verus!
