//! The cryptographic functions of the mesh that the rest of the library uses.
use vstd::prelude::*;

verus! {

/// The AES-CMAC tag (RFC 4493) of `data` under the 128-bit `key`.
pub uninterp spec fn aes_cmac(key: Seq<u8>, data: Seq<u8>) -> Seq<u8>;

/// Computes AES-CMAC with `cmac::Cmac<aes::Aes128>` through the `crypto_mac`
/// traits (`NewMac::new`, `Mac::update`, `Mac::finalize`).
/// Trusted: that the 16 bytes it returns are the tag named `aes_cmac` of the key
/// and the data; its length of 16 is the block size of AES-128, the output size
/// that `cmac` declares.
#[verifier::external_body]
fn aes_cmac_128(key: &[u8; 16], data: &[u8]) -> (tag: [u8; 16])
    ensures
        tag@ == aes_cmac(key@, data@),
{
    let key = crypto_mac::generic_array::GenericArray::from(*key);
    let mut mac = <cmac::Cmac<aes::Aes128> as crypto_mac::NewMac>::new(&key);
    crypto_mac::Mac::update(&mut mac, data);
    crypto_mac::Mac::finalize(mac).into_bytes().into()
}

/// The salt generation function `s1(M) = AES-CMAC_ZERO(M)` of the mesh
/// specification: AES-CMAC under the all-zero key.
pub open spec fn spec_s1(data: Seq<u8>) -> Seq<u8> {
    aes_cmac(Seq::new(16, |i: int| 0u8), data)
}

/// The salt generation function `s1`.
pub fn s1(data: &[u8]) -> (salt: [u8; 16])
    ensures
        salt@ == spec_s1(data@),
{
    let zero = [0u8; 16];
    assert(zero@ =~= Seq::new(16, |i: int| 0u8));
    aes_cmac_128(&zero, data)
}

} // verus!
