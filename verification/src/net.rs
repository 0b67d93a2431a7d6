//! Encrypted network PDUs as they travel on a bearer.
use vstd::prelude::*;

verus! {

/// The bytes of a network PDU, still encrypted and obfuscated.
#[derive(Debug)]
pub struct EncryptedPDU {
    data: Vec<u8>,
}

impl View for EncryptedPDU {
    type V = Seq<u8>;

    closed spec fn view(&self) -> Seq<u8> {
        self.data@
    }
}

impl EncryptedPDU {
    /// The PDU made of `bytes`.
    pub fn new(bytes: &[u8]) -> (p: EncryptedPDU)
        ensures
            p@ == bytes@,
    {
        EncryptedPDU { data: vstd::slice::slice_to_vec(bytes) }
    }

    /// The bytes of the PDU.
    pub fn data(&self) -> (d: &[u8])
        ensures
            d@ == self@,
    {
        self.data.as_slice()
    }

    /// The number of bytes of the PDU.
    pub fn len(&self) -> (n: usize)
        ensures
            n == self@.len(),
    {
        self.data.len()
    }
}

} // verus!
