//! Bluetooth Mesh Beacon Layer. Currently only supports `SecureNetworkBeacon`s and
//! `UnprovisionedDeviceBeacon`s.
use crate::bytes::{be_bytes, be_value, lemma_be_roundtrip, lemma_be_value_roundtrip, pow256, ToFromBytesEndian};
use crate::crypto::{s1, spec_s1};
use crate::uuid::UUID;
use vstd::prelude::*;

verus! {

/// Why a beacon could not be packed or unpacked.
#[derive(Copy, Clone, Ord, PartialOrd, Eq, PartialEq, Structural, Debug, Hash)]
pub enum BeaconError {
    BadBytes,
    BadLength,
}

/// The kinds of beacon.
#[derive(Copy, Clone, Eq, PartialEq, Structural, Debug)]
pub enum BeaconType {
    Unprovisioned,
    SecureNetwork,
}

/// A beacon that packs into, and unpacks from, a byte buffer of its own length.
pub trait Beacon: Sized {
    fn byte_len(&self) -> usize;

    const BEACON_TYPE: BeaconType;

    fn pack_into(&self, buf: &mut [u8]) -> Result<(), BeaconError>;

    fn unpack_from(buf: &[u8]) -> Result<Self, BeaconError>;
}

/// The out-of-band information that a device can offer during provisioning; each
/// names a bit of [`OOBInformation`].
#[derive(Copy, Clone, Eq, PartialEq, Structural, Debug)]
pub enum OOBFlags {
    Other,
    ElectronicURI,
    MachineReadable2DCode,
    BarCode,
    NearFieldCommunications,
    Number,
    String,
    RFU0,
    RFU1,
    RFU2,
    RFU3,
    OnBox,
    InsideBox,
    OnPieceOfPaper,
    InsideManual,
    OnDevice,
}

impl OOBFlags {
    /// The bit number of the flag: its position in the list, from 0 to 15.
    pub open spec fn spec_bit(self) -> u16 {
        match self {
            OOBFlags::Other => 0x00,
            OOBFlags::ElectronicURI => 0x01,
            OOBFlags::MachineReadable2DCode => 0x02,
            OOBFlags::BarCode => 0x03,
            OOBFlags::NearFieldCommunications => 0x04,
            OOBFlags::Number => 0x05,
            OOBFlags::String => 0x06,
            OOBFlags::RFU0 => 0x07,
            OOBFlags::RFU1 => 0x08,
            OOBFlags::RFU2 => 0x09,
            OOBFlags::RFU3 => 0x0A,
            OOBFlags::OnBox => 0x0B,
            OOBFlags::InsideBox => 0x0C,
            OOBFlags::OnPieceOfPaper => 0x0D,
            OOBFlags::InsideManual => 0x0E,
            OOBFlags::OnDevice => 0x0F,
        }
    }
}

impl From<OOBFlags> for u16 {
    fn from(f: OOBFlags) -> (b: u16)
        ensures
            b == f.spec_bit(),
    {
        match f {
            OOBFlags::Other => 0x00,
            OOBFlags::ElectronicURI => 0x01,
            OOBFlags::MachineReadable2DCode => 0x02,
            OOBFlags::BarCode => 0x03,
            OOBFlags::NearFieldCommunications => 0x04,
            OOBFlags::Number => 0x05,
            OOBFlags::String => 0x06,
            OOBFlags::RFU0 => 0x07,
            OOBFlags::RFU1 => 0x08,
            OOBFlags::RFU2 => 0x09,
            OOBFlags::RFU3 => 0x0A,
            OOBFlags::OnBox => 0x0B,
            OOBFlags::InsideBox => 0x0C,
            OOBFlags::OnPieceOfPaper => 0x0D,
            OOBFlags::InsideManual => 0x0E,
            OOBFlags::OnDevice => 0x0F,
        }
    }
}

impl vstd::std_specs::convert::FromSpecImpl<OOBFlags> for u16 {
    open spec fn obeys_from_spec() -> bool {
        true
    }

    open spec fn from_spec(f: OOBFlags) -> u16 {
        f.spec_bit()
    }
}

/// A set of [`OOBFlags`], one bit each.
#[derive(Copy, Clone, PartialOrd, PartialEq, Ord, Eq, Structural, Hash, Debug)]
pub struct OOBInformation(pub u16);

impl Default for OOBInformation {
    fn default() -> (o: OOBInformation)
        ensures
            o.0 == 0,
    {
        OOBInformation(0)
    }
}

impl OOBInformation {
    /// The set with `flag` added.
    pub fn set(self, flag: OOBFlags) -> (r: OOBInformation)
        ensures
            r.0 == self.0 | (1u16 << flag.spec_bit()),
    {
        let mut s = self;
        s.0 = s.0 | (1u16 << u16::from(flag));
        s
    }

    /// Whether `flag` is in the set.
    pub fn get(self, flag: OOBFlags) -> (r: bool)
        ensures
            r == (self.0 & (1u16 << flag.spec_bit()) != 0),
    {
        self.0 & (1u16 << u16::from(flag)) != 0
    }
}

/// The first four bytes of the salt of a URI, which an unprovisioned device
/// beacon carries to name the device's URI.
#[derive(Copy, Clone, PartialOrd, PartialEq, Ord, Eq, Structural, Debug, Hash)]
pub struct URIHash(pub u32);

impl URIHash {
    /// The hash whose big endian bytes are the first four of `salt`.
    pub fn from_salt(salt: &[u8; 16]) -> (h: URIHash)
        ensures
            h.0 == be_value(salt@.take(4)),
    {
        let first = [salt[0], salt[1], salt[2], salt[3]];
        assert(first@ =~= salt@.take(4));
        proof {
            lemma_be_value_roundtrip(first@);
            reveal_with_fuel(pow256, 5);
        }
        URIHash(u32::from_bytes_be(&first).unwrap())
    }

    /// The hash of the URI `data`: the first four bytes of `s1(data)`, big endian.
    pub fn hash_data(data: &[u8]) -> (h: URIHash)
        ensures
            h.0 == be_value(spec_s1(data@).take(4)),
    {
        URIHash::from_salt(&s1(data))
    }
}

/// The beacon that a device sends while it waits to be provisioned.
#[derive(Copy, Clone, PartialOrd, PartialEq, Ord, Eq, Debug, Hash)]
pub struct UnprovisionedDeviceBeacon {
    pub uuid: UUID,
    pub oob_information: OOBInformation,
    pub uri_hash: Option<URIHash>,
}

impl UnprovisionedDeviceBeacon {
    /// The length of a beacon that carries a URI hash.
    pub fn max_len() -> (n: usize)
        ensures
            n == 22,
    {
        UnprovisionedDeviceBeacon::min_len() + 4
    }

    /// The length of a beacon without a URI hash: the UUID and the OOB information.
    pub fn min_len() -> (n: usize)
        ensures
            n == 18,
    {
        16 + 2
    }

    /// The packed length of this beacon.
    pub open spec fn spec_byte_len(&self) -> nat {
        if self.uri_hash is Some {
            22
        } else {
            18
        }
    }

    /// The packed form of this beacon: the UUID, the OOB information as two big
    /// endian bytes and, if there is one, the URI hash as four big endian bytes.
    pub open spec fn spec_bytes(&self) -> Seq<u8> {
        self.uuid.0@ + be_bytes(self.oob_information.0 as nat, 2) + match self.uri_hash {
            Some(h) => be_bytes(h.0 as nat, 4),
            None => Seq::empty(),
        }
    }
}

impl Beacon for UnprovisionedDeviceBeacon {
    fn byte_len(&self) -> (n: usize)
        ensures
            n == self.spec_byte_len(),
    {
        if self.uri_hash.is_some() {
            UnprovisionedDeviceBeacon::max_len()
        } else {
            UnprovisionedDeviceBeacon::min_len()
        }
    }

    const BEACON_TYPE: BeaconType = BeaconType::Unprovisioned;

    fn pack_into(&self, buf: &mut [u8]) -> (r: Result<(), BeaconError>)
        ensures
            r is Ok <==> old(buf)@.len() == self.spec_byte_len(),
            r is Ok ==> final(buf)@ == self.spec_bytes(),
            r matches Err(e) ==> e == BeaconError::BadLength && final(buf)@ == old(buf)@,
    {
        if buf.len() == self.byte_len() {
            let ghost n = buf@.len();
            let mut i: usize = 0;
            while i < 16
                invariant
                    buf@.len() == n,
                    n >= 18,
                    i <= 16,
                    forall|j: int| 0 <= j < i ==> buf@[j] == self.uuid.0@[j],
                decreases 16 - i,
            {
                buf[i] = self.uuid.0[i];
                i = i + 1;
            }
            let oob = self.oob_information.0.to_bytes_be();
            buf[16] = oob[0];
            buf[17] = oob[1];
            proof {
                crate::bytes::lemma_bytes_len(self.oob_information.0 as nat, 2);
            }
            match self.uri_hash {
                Some(uri_hash) => {
                    let h = uri_hash.0.to_bytes_be();
                    buf[18] = h[0];
                    buf[19] = h[1];
                    buf[20] = h[2];
                    buf[21] = h[3];
                    proof {
                        crate::bytes::lemma_bytes_len(uri_hash.0 as nat, 4);
                    }
                },
                None => (),
            }
            assert(buf@ =~= self.spec_bytes());
            Ok(())
        } else {
            Err(BeaconError::BadLength)
        }
    }

    fn unpack_from(buf: &[u8]) -> (r: Result<UnprovisionedDeviceBeacon, BeaconError>)
        ensures
            r is Ok <==> (buf@.len() == 18 || buf@.len() == 22),
            r matches Ok(b) ==> b.spec_bytes() == buf@,
            r matches Err(e) ==> e == BeaconError::BadLength,
    {
        if buf.len() == UnprovisionedDeviceBeacon::min_len() || buf.len()
            == UnprovisionedDeviceBeacon::max_len() {
            let mut uuid = [0u8; 16];
            let mut i: usize = 0;
            while i < 16
                invariant
                    buf@.len() >= 18,
                    i <= 16,
                    forall|j: int| 0 <= j < i ==> uuid@[j] == buf@[j],
                decreases 16 - i,
            {
                uuid[i] = buf[i];
                i = i + 1;
            }
            let oob_bytes = [buf[16], buf[17]];
            let oob = u16::from_bytes_be(&oob_bytes).unwrap();
            proof {
                lemma_be_value_roundtrip(oob_bytes@);
                reveal_with_fuel(pow256, 5);
                assert(uuid@ =~= buf@.take(16));
                assert(oob_bytes@ =~= buf@.subrange(16, 18));
            }
            if buf.len() == UnprovisionedDeviceBeacon::min_len() {
                let b = UnprovisionedDeviceBeacon {
                    uuid: UUID(uuid),
                    oob_information: OOBInformation(oob),
                    uri_hash: None,
                };
                assert(b.spec_bytes() =~= buf@);
                Ok(b)
            } else {
                let hash_bytes = [buf[18], buf[19], buf[20], buf[21]];
                let hash = u32::from_bytes_be(&hash_bytes).unwrap();
                proof {
                    lemma_be_value_roundtrip(hash_bytes@);
                    reveal_with_fuel(pow256, 5);
                    assert(hash_bytes@ =~= buf@.subrange(18, 22));
                }
                let b = UnprovisionedDeviceBeacon {
                    uuid: UUID(uuid),
                    oob_information: OOBInformation(oob),
                    uri_hash: Some(URIHash(hash)),
                };
                assert(b.spec_bytes() =~= buf@);
                Ok(b)
            }
        } else {
            Err(BeaconError::BadLength)
        }
    }
}

/// A packed unprovisioned device beacon has the length that `byte_len` reports,
/// and it determines the beacon: unpacking what `pack_into` wrote gives back the
/// beacon that was packed.
pub proof fn lemma_unprovisioned_beacon_roundtrip(b: UnprovisionedDeviceBeacon, c: UnprovisionedDeviceBeacon)
    ensures
        b.spec_bytes().len() == b.spec_byte_len(),
        c.spec_bytes() == b.spec_bytes() ==> c == b,
{
    crate::bytes::lemma_bytes_len(b.oob_information.0 as nat, 2);
    crate::bytes::lemma_bytes_len(c.oob_information.0 as nat, 2);
    reveal_with_fuel(pow256, 5);
    match b.uri_hash {
        Some(h) => crate::bytes::lemma_bytes_len(h.0 as nat, 4),
        None => {},
    }
    match c.uri_hash {
        Some(h) => crate::bytes::lemma_bytes_len(h.0 as nat, 4),
        None => {},
    }
    if c.spec_bytes() == b.spec_bytes() {
        let s = b.spec_bytes();
        assert(b.uri_hash is Some <==> c.uri_hash is Some);
        assert(s.take(16) =~= b.uuid.0@);
        assert(c.spec_bytes().take(16) =~= c.uuid.0@);
        assert(b.uuid.0@ =~= c.uuid.0@);
        assert(b.uuid.0 == c.uuid.0);
        assert(s.subrange(16, 18) =~= be_bytes(b.oob_information.0 as nat, 2));
        assert(c.spec_bytes().subrange(16, 18) =~= be_bytes(c.oob_information.0 as nat, 2));
        lemma_be_roundtrip(b.oob_information.0 as nat, 2);
        lemma_be_roundtrip(c.oob_information.0 as nat, 2);
        match (b.uri_hash, c.uri_hash) {
            (Some(h), Some(k)) => {
                assert(s.subrange(18, 22) =~= be_bytes(h.0 as nat, 4));
                assert(c.spec_bytes().subrange(18, 22) =~= be_bytes(k.0 as nat, 4));
                lemma_be_roundtrip(h.0 as nat, 4);
                lemma_be_roundtrip(k.0 as nat, 4);
            },
            _ => {},
        }
    }
}

/// Each OOB flag is the bit of its place in the mesh specification's list of OOB
/// information: Other 0, Electronic/URI 1, 2D machine-readable code 2, bar code
/// 3, NFC 4, number 5, string 6, four reserved bits 7 to 10, on box 11, inside box
/// 12, on piece of paper 13, inside manual 14, on device 15. Setting a flag on the
/// empty set gives exactly that one bit.
pub proof fn lemma_oob_flag_bits(f: OOBFlags)
    ensures
        OOBFlags::Other.spec_bit() == 0,
        OOBFlags::ElectronicURI.spec_bit() == 1,
        OOBFlags::MachineReadable2DCode.spec_bit() == 2,
        OOBFlags::BarCode.spec_bit() == 3,
        OOBFlags::NearFieldCommunications.spec_bit() == 4,
        OOBFlags::Number.spec_bit() == 5,
        OOBFlags::String.spec_bit() == 6,
        OOBFlags::RFU0.spec_bit() == 7,
        OOBFlags::RFU1.spec_bit() == 8,
        OOBFlags::RFU2.spec_bit() == 9,
        OOBFlags::RFU3.spec_bit() == 10,
        OOBFlags::OnBox.spec_bit() == 11,
        OOBFlags::InsideBox.spec_bit() == 12,
        OOBFlags::OnPieceOfPaper.spec_bit() == 13,
        OOBFlags::InsideManual.spec_bit() == 14,
        OOBFlags::OnDevice.spec_bit() == 15,
        0u16 | (1u16 << f.spec_bit()) == pow2_u16(f.spec_bit()),
{
    let b = f.spec_bit();
    assert(b < 16);
    assert(b < 16 ==> 0u16 | (1u16 << b) == (1u16 << b)) by (bit_vector);
    lemma_shl_is_pow2(b);
}

/// `2` to the power `n`, for bit numbers of a `u16`.
pub open spec fn pow2_u16(n: u16) -> u16
    decreases n,
{
    if n == 0 {
        1
    } else {
        (2 * pow2_u16((n - 1) as u16)) as u16
    }
}

proof fn lemma_shl_is_pow2(n: u16)
    requires
        n < 16,
    ensures
        1u16 << n == pow2_u16(n),
    decreases n,
{
    reveal_with_fuel(pow2_u16, 17);
    if n == 0 {
        assert(1u16 << 0u16 == 1) by (bit_vector);
    } else {
        lemma_shl_is_pow2((n - 1) as u16);
        let m = (n - 1) as u16;
        assert(m < 15 ==> 1u16 << ((m + 1) as u16) == 2 * (1u16 << m)) by (bit_vector);
    }
}

/// After `set(flag)` the flag is in the set, and every flag of another bit is in
/// it exactly when it was before.
pub proof fn lemma_oob_set_get(o: OOBInformation, flag: OOBFlags, other: OOBFlags)
    ensures
        (o.0 | (1u16 << flag.spec_bit())) & (1u16 << flag.spec_bit()) != 0,
        other.spec_bit() != flag.spec_bit() ==> (((o.0 | (1u16 << flag.spec_bit())) & (1u16
            << other.spec_bit()) != 0) == (o.0 & (1u16 << other.spec_bit()) != 0)),
{
    let x = o.0;
    let a = flag.spec_bit();
    let b = other.spec_bit();
    assert(a < 16 && b < 16);
    assert(a < 16 ==> (x | (1u16 << a)) & (1u16 << a) != 0) by (bit_vector);
    assert(a < 16 && b < 16 && a != b ==> (((x | (1u16 << a)) & (1u16 << b) != 0) == (x & (1u16
        << b) != 0))) by (bit_vector);
}

/// Setting a flag twice is setting it once.
pub proof fn lemma_oob_set_idempotent(o: OOBInformation, flag: OOBFlags)
    ensures
        ((o.0 | (1u16 << flag.spec_bit())) | (1u16 << flag.spec_bit())) == (o.0 | (1u16
            << flag.spec_bit())),
{
    let x = o.0;
    let a = flag.spec_bit();
    assert((x | (1u16 << a)) | (1u16 << a) == x | (1u16 << a)) by (bit_vector);
}

/// The beacon that announces a subnet's key refresh and IV update state.
pub struct SecureNetworkBeacon {}

/// A beacon of either kind.
pub enum BeaconPDU {
    Unprovisioned(UnprovisionedDeviceBeacon),
    SecureNetwork(SecureNetworkBeacon),
}

/// A beacon in its packed form.
pub struct PackedBeacon {}

} // verus!
