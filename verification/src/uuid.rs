//! 128-bit device UUIDs.
use crate::mesh::{bytes_str_to_buf, hex_decode};
use vstd::prelude::*;
use vstd::string::StringSliceAdditionalSpecFns;

verus! {

/// A 16 byte device UUID.
#[derive(Copy, Clone, Ord, PartialOrd, Eq, PartialEq, Hash, Debug)]
pub struct UUID(pub [u8; 16]);

impl UUID {
    /// The 16 bytes that a string of 32 hexadecimal digits spells; `None` for any
    /// other string.
    pub fn uuid_bytes_from_str(s: &str) -> (r: Option<[u8; 16]>)
        ensures
            r matches Some(b) ==> hex_decode(s.spec_bytes()) == Some(b@),
            r is None ==> !(hex_decode(s.spec_bytes()) matches Some(v) && v.len() == 16),
    {
        match bytes_str_to_buf(s) {
            Some(v) => {
                if v.len() == 16 {
                    let mut out = [0u8; 16];
                    let mut i: usize = 0;
                    while i < 16
                        invariant
                            v@.len() == 16,
                            i <= 16,
                            forall|j: int| 0 <= j < i ==> out@[j] == v@[j],
                        decreases 16 - i,
                    {
                        out[i] = v[i];
                        i = i + 1;
                    }
                    assert(out@ =~= v@);
                    Some(out)
                } else {
                    None
                }
            },
            None => None,
        }
    }
}

} // verus!
