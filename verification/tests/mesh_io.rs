use bluetooth_mesh::mesh_io::{
    IOBearer, IOError, MeshPDUQueue, OutgoingPDU, PDUType, RawAdvertisementPDU,
    TransmitParameters, IncomingPDU,
};
use bluetooth_mesh::net::EncryptedPDU;
use bluetooth_mesh::timestamp::Timestamp;
use std::convert::TryFrom;

struct Recorder {
    sent: Vec<Vec<u8>>,
    fail_after: usize,
}

impl IOBearer for Recorder {
    // A specification function of the trait: nothing calls it when the tests run.
    fn handed(&self) -> vstd::seq::Seq<(vstd::seq::Seq<u8>, bool)> {
        unreachable!()
    }

    fn send_io_pdu(&mut self, pdu: OutgoingPDU) -> Result<(), IOError> {
        if self.sent.len() >= self.fail_after {
            return Err(IOError::new());
        }
        let p: &EncryptedPDU = pdu.as_ref();
        self.sent.push(p.data().to_vec());
        Ok(())
    }
}

fn outgoing(bytes: &[u8]) -> OutgoingPDU {
    OutgoingPDU::new(TransmitParameters {}, EncryptedPDU::new(bytes))
}

#[test]
fn pdu_type_advertisement_bytes() {
    assert_eq!(PDUType::Network.advertisement_type(), 0x2A);
    assert_eq!(PDUType::Beacon.advertisement_type(), 0x2B);
    assert_eq!(PDUType::Provision.advertisement_type(), 0x29);
    assert_eq!(PDUType::URI.advertisement_type(), 0x24);
    assert_eq!(PDUType::Other(0x01).advertisement_type(), 0x01);
    assert_eq!(PDUType::from_advertisement_type(0x2A), PDUType::Network);
    assert_eq!(PDUType::from_advertisement_type(0x29), PDUType::Provision);
    assert_eq!(PDUType::from_advertisement_type(0x05), PDUType::Other(0x05));
    assert_eq!(PDUType::from(0x2Bu8), PDUType::Beacon);
    assert_eq!(u8::from(PDUType::URI), 0x24);
    assert_eq!(PDUType::from_advertisement_type(PDUType::Other(0x2A).advertisement_type()), PDUType::Network);
    for v in 0..=255u8 {
        assert_eq!(PDUType::from_advertisement_type(v).advertisement_type(), v);
    }
    assert!(PDUType::Other(3).is_other());
    assert!(!PDUType::Other(3).is_mesh());
    assert!(PDUType::Beacon.is_mesh());
}

#[test]
fn raw_advertisement_pdu() {
    let p = RawAdvertisementPDU::new_payload(PDUType::Beacon, &[1, 2, 3]);
    assert_eq!(p.data(), &[0x2B, 1, 2, 3]);
    assert_eq!(p.len(), 4);
    assert!(!p.is_empty());
    assert_eq!(p.pdu_type(), PDUType::Beacon);
    let q = RawAdvertisementPDU::new(&[0x2A, 9, 9]);
    assert_eq!(q.pdu_type(), PDUType::Network);
    assert_eq!(q.as_ref(), &[0x2A, 9, 9]);
    let e = RawAdvertisementPDU::new_with_length(0);
    assert!(e.is_empty());
    assert_eq!(e.pdu_type(), PDUType::Other(0));
    let d = RawAdvertisementPDU::default();
    assert_eq!(d.len(), 0);
    let z = RawAdvertisementPDU::new_with_length(31);
    assert_eq!(z.data(), &[0u8; 31][..]);
}

#[test]
fn raw_advertisement_pdu_data_mut() {
    let mut p = RawAdvertisementPDU::new_with_length(3);
    p.data_mut()[0] = 0x29;
    p.data_mut()[2] = 7;
    assert_eq!(p.data(), &[0x29, 0, 7]);
    assert_eq!(p.pdu_type(), PDUType::Provision);
    p.as_mut()[1] = 5;
    assert_eq!(p.data(), &[0x29, 5, 7]);
}

#[test]
fn encrypted_pdu_from_network_advertisements_only() {
    let net = RawAdvertisementPDU::new(&[0x2A, 1, 2, 3]);
    let pdu = EncryptedPDU::try_from(net).unwrap();
    assert_eq!(pdu.data(), &[0x2A, 1, 2, 3]);
    assert_eq!(pdu.len(), 4);
    let beacon = RawAdvertisementPDU::new(&[0x2B, 1]);
    assert!(EncryptedPDU::try_from(beacon).is_err());
    let mut empty = RawAdvertisementPDU::new(&[]);
    assert!(empty.data_mut().is_empty());
    assert_eq!(empty.pdu_type(), PDUType::Other(0));
    assert!(EncryptedPDU::try_from(empty).is_err());
    let incoming = IncomingPDU::new(EncryptedPDU::new(&[5, 6]));
    let inner: &EncryptedPDU = incoming.as_ref();
    assert_eq!(inner.data(), &[5, 6]);
}

#[test]
fn timestamps() {
    assert_eq!(Timestamp(10).with_delay(5), Timestamp(15));
    assert_eq!(Timestamp(u64::MAX - 1).with_delay(5), Timestamp(u64::MAX));
    assert!(Timestamp(3).is_reached(Timestamp(3)));
    assert!(!Timestamp(4).is_reached(Timestamp(3)));
}

#[test]
fn queue_sends_due_pdus_earliest_first() {
    let mut q = MeshPDUQueue::new();
    let now = Timestamp(1000);
    q.add(now, 300, outgoing(&[3]));
    q.add(now, 100, outgoing(&[1]));
    q.add(now, 5000, outgoing(&[9]));
    q.add(now, 200, outgoing(&[2]));
    let mut bearer = Recorder { sent: vec![], fail_after: usize::MAX };
    assert!(q.send_ready(Timestamp(1250), &mut bearer).is_ok());
    assert_eq!(bearer.sent, vec![vec![1u8], vec![2u8]]);
    assert!(q.send_ready(Timestamp(1300), &mut bearer).is_ok());
    assert_eq!(bearer.sent, vec![vec![1u8], vec![2u8], vec![3u8]]);
    assert!(q.send_ready(Timestamp(1300), &mut bearer).is_ok());
    assert_eq!(bearer.sent.len(), 3);
    assert!(q.send_ready(Timestamp(6000), &mut bearer).is_ok());
    assert_eq!(bearer.sent.len(), 4);
}

#[test]
fn queue_cancel_takes_a_pdu_out() {
    let mut q = MeshPDUQueue::new();
    let now = Timestamp(0);
    let a = q.add(now, 10, outgoing(&[1]));
    let b = q.add(now, 20, outgoing(&[2]));
    let cancelled = q.cancel(a).expect("still queued");
    let inner: &EncryptedPDU = cancelled.as_ref();
    assert_eq!(inner.data(), &[1]);
    assert!(q.cancel(a).is_none());
    let mut bearer = Recorder { sent: vec![], fail_after: usize::MAX };
    assert!(q.send_ready(Timestamp(100), &mut bearer).is_ok());
    assert_eq!(bearer.sent, vec![vec![2u8]]);
    assert!(q.cancel(b).is_none());
}

#[test]
fn queue_stops_at_the_first_bearer_error() {
    let mut q = MeshPDUQueue::new();
    let now = Timestamp(0);
    q.add(now, 1, outgoing(&[1]));
    q.add(now, 2, outgoing(&[2]));
    q.add(now, 3, outgoing(&[3]));
    let mut bearer = Recorder { sent: vec![], fail_after: 1 };
    assert!(q.send_ready(Timestamp(10), &mut bearer).is_err());
    assert_eq!(bearer.sent, vec![vec![1u8]]);
    bearer.fail_after = usize::MAX;
    assert!(q.send_ready(Timestamp(10), &mut bearer).is_ok());
    assert_eq!(bearer.sent, vec![vec![1u8], vec![3u8]]);
}
