//! The advertising bearer: PDU types, raw advertisement PDUs and the queue of
//! outgoing PDUs.
use crate::net::EncryptedPDU;
use crate::scheduler::{
    has_ready,
    is_first_earliest,
    keys_below,
    keys_unique,
    not_ready,
    SlottedTimeQueue,
    TimeQueueSlotKey,
};
use crate::timestamp::{spec_with_delay, Timestamp};
use vstd::prelude::*;

verus! {

broadcast use vstd::array::group_array_axioms;

/// The advertising data type of a mesh advertisement.
#[derive(Copy, Clone, Hash, Ord, PartialOrd, Eq, PartialEq, Structural, Debug)]
pub enum PDUType {
    Network,
    Beacon,
    Provision,
    URI,
    Other(u8),
}

/// The advertising data type byte of each PDU type.
pub open spec fn spec_advertisement_type(p: PDUType) -> u8 {
    match p {
        PDUType::Network => 0x2A,
        PDUType::Beacon => 0x2B,
        PDUType::Provision => 0x29,
        PDUType::URI => 0x24,
        PDUType::Other(o) => o,
    }
}

/// The PDU type of an advertising data type byte.
pub open spec fn spec_from_advertisement_type(v: u8) -> PDUType {
    if v == 0x2A {
        PDUType::Network
    } else if v == 0x2B {
        PDUType::Beacon
    } else if v == 0x29 {
        PDUType::Provision
    } else if v == 0x24 {
        PDUType::URI
    } else {
        PDUType::Other(v)
    }
}

impl PDUType {
    /// The advertising data type byte of this PDU type.
    pub fn advertisement_type(self) -> (v: u8)
        ensures
            v == spec_advertisement_type(self),
    {
        match self {
            PDUType::Network => 0x2A,
            PDUType::Beacon => 0x2B,
            PDUType::Provision => 0x29,
            PDUType::URI => 0x24,
            PDUType::Other(o) => o,
        }
    }

    /// The PDU type of an advertising data type byte.
    pub fn from_advertisement_type(v: u8) -> (p: PDUType)
        ensures
            p == spec_from_advertisement_type(v),
    {
        match v {
            0x2A => PDUType::Network,
            0x2B => PDUType::Beacon,
            0x29 => PDUType::Provision,
            0x24 => PDUType::URI,
            _ => PDUType::Other(v),
        }
    }

    /// Whether this is not one of the mesh types.
    pub fn is_other(self) -> (r: bool)
        ensures
            r == (self is Other),
    {
        match self {
            PDUType::Other(_) => true,
            _ => false,
        }
    }

    /// Whether this is one of the mesh types.
    pub fn is_mesh(self) -> (r: bool)
        ensures
            r == !(self is Other),
    {
        !self.is_other()
    }
}

impl From<PDUType> for u8 {
    fn from(p: PDUType) -> (v: u8) {
        p.advertisement_type()
    }
}

impl vstd::std_specs::convert::FromSpecImpl<PDUType> for u8 {
    open spec fn obeys_from_spec() -> bool {
        true
    }

    open spec fn from_spec(p: PDUType) -> u8 {
        spec_advertisement_type(p)
    }
}

impl From<u8> for PDUType {
    fn from(v: u8) -> (p: PDUType) {
        PDUType::from_advertisement_type(v)
    }
}

impl vstd::std_specs::convert::FromSpecImpl<u8> for PDUType {
    open spec fn obeys_from_spec() -> bool {
        true
    }

    open spec fn from_spec(v: u8) -> PDUType {
        spec_from_advertisement_type(v)
    }
}

/// Reading a PDU type from its advertising data type byte and writing it back
/// gives the byte; writing a PDU type and reading it back gives the type, unless
/// it is an `Other` that carries one of the mesh type bytes.
pub proof fn lemma_advertisement_type_roundtrip(v: u8, p: PDUType)
    ensures
        spec_advertisement_type(spec_from_advertisement_type(v)) == v,
        !(p matches PDUType::Other(o) && (o == 0x2A || o == 0x2B || o == 0x29 || o == 0x24))
            ==> spec_from_advertisement_type(spec_advertisement_type(p)) == p,
{
}

/// The PDU type of an advertisement's bytes: the type that the first byte names,
/// or `Other(0)` when there are none.
pub open spec fn spec_pdu_type_of(data: Seq<u8>) -> PDUType {
    if data.len() == 0 {
        PDUType::Other(0)
    } else {
        spec_from_advertisement_type(data[0])
    }
}

/// The PDU type of a non-empty advertisement carries its first byte: writing the
/// type back gives that byte, the four mesh bytes `0x2A`, `0x2B`, `0x29`, `0x24`
/// give `Network`, `Beacon`, `Provision`, `URI`, and every other byte `b` gives
/// `Other(b)`; an empty advertisement is `Other(0)`.
pub proof fn lemma_pdu_type_of_first_byte(data: Seq<u8>)
    ensures
        data.len() > 0 ==> spec_advertisement_type(spec_pdu_type_of(data)) == data[0],
        data.len() > 0 ==> (data[0] == 0x2A <==> spec_pdu_type_of(data) == PDUType::Network),
        data.len() > 0 ==> (data[0] == 0x2B <==> spec_pdu_type_of(data) == PDUType::Beacon),
        data.len() > 0 ==> (data[0] == 0x29 <==> spec_pdu_type_of(data) == PDUType::Provision),
        data.len() > 0 ==> (data[0] == 0x24 <==> spec_pdu_type_of(data) == PDUType::URI),
        data.len() > 0 && data[0] != 0x2A && data[0] != 0x2B && data[0] != 0x29 && data[0] != 0x24
            ==> spec_pdu_type_of(data) == PDUType::Other(data[0]),
        data.len() == 0 ==> spec_pdu_type_of(data) == PDUType::Other(0),
{
}

/// The most bytes that one BLE advertisement carries.
pub const BLE_ADV_MAX_LEN: usize = 31;

/// The data of one BLE advertisement: up to 31 bytes, the first of which is the
/// advertising data type.
#[derive(Copy, Clone, Hash, Debug)]
pub struct RawAdvertisementPDU {
    buffer: [u8; 31],
    length: u8,
}

impl View for RawAdvertisementPDU {
    type V = Seq<u8>;

    /// The bytes of the advertisement.
    closed spec fn view(&self) -> Seq<u8> {
        self.buffer@.take(self.length as int)
    }
}

impl Default for RawAdvertisementPDU {
    fn default() -> (p: RawAdvertisementPDU)
        ensures
            p@ == Seq::<u8>::empty(),
    {
        RawAdvertisementPDU::new_with_length(0)
    }
}

impl RawAdvertisementPDU {
    #[verifier::type_invariant]
    spec fn inv(self) -> bool {
        &&& self.length <= 31
        &&& self.length == 0 ==> self.buffer@[0] == 0
    }


    /// An advertisement of `length` zero bytes.
    pub fn new_with_length(length: usize) -> (p: RawAdvertisementPDU)
        requires
            length <= BLE_ADV_MAX_LEN,
        ensures
            p@ == Seq::new(length as nat, |i: int| 0u8),
    {
        let p = RawAdvertisementPDU { buffer: [0u8; 31], length: length as u8 };
        assert(p.buffer@.take(length as int) =~= Seq::new(length as nat, |i: int| 0u8));
        p
    }

    /// An advertisement that holds `bytes`.
    pub fn new(bytes: &[u8]) -> (p: RawAdvertisementPDU)
        requires
            bytes@.len() <= BLE_ADV_MAX_LEN,
        ensures
            p@ == bytes@,
    {
        let mut out = RawAdvertisementPDU::new_with_length(bytes.len());
        proof {
            use_type_invariant(&out);
        }
        let n = bytes.len();
        assert(out@.len() == n);
        assert(out.buffer@.len() == 31);
        assert(out@ == out.buffer@.take(out.length as int));
        let mut i: usize = 0;
        while i < n
            invariant
                n == bytes@.len(),
                n <= 31,
                i <= n,
                out.length == n,
                forall|j: int| 0 <= j < i ==> out.buffer@[j] == bytes@[j],
            decreases n - i,
        {
            out.buffer[i] = bytes[i];
            i = i + 1;
        }
        assert(out@ =~= bytes@);
        out
    }

    /// An advertisement of the advertising data type of `pdu_type` followed by
    /// `payload`.
    pub fn new_payload(pdu_type: PDUType, payload: &[u8]) -> (p: RawAdvertisementPDU)
        requires
            payload@.len() + 1 <= BLE_ADV_MAX_LEN,
        ensures
            p@ == seq![spec_advertisement_type(pdu_type)] + payload@,
    {
        let mut out = RawAdvertisementPDU::new_with_length(payload.len() + 1);
        proof {
            use_type_invariant(&out);
        }
        assert(out@.len() == payload@.len() + 1);
        assert(out.buffer@.len() == 31);
        out.buffer[0] = pdu_type.into();
        let n = payload.len();
        let mut i: usize = 0;
        while i < n
            invariant
                n == payload@.len(),
                n + 1 <= 31,
                i <= n,
                out.length == n + 1,
                out.buffer@[0] == spec_advertisement_type(pdu_type),
                forall|j: int| 0 <= j < i ==> out.buffer@[j + 1] == payload@[j],
            decreases n - i,
        {
            out.buffer[i + 1] = payload[i];
            i = i + 1;
        }
        assert(out@ =~= seq![spec_advertisement_type(pdu_type)] + payload@);
        out
    }

    /// The PDU type that the first byte of the buffer names.
    pub fn pdu_type(&self) -> (t: PDUType)
        ensures
            t == spec_pdu_type_of(self@),
            self@.len() > 0 ==> spec_advertisement_type(t) == self@[0],
            self@.len() == 0 ==> t == PDUType::Other(0),
    {
        proof {
            use_type_invariant(self);
        }
        self.buffer[0].into()
    }

    /// The number of bytes of the advertisement.
    pub fn len(&self) -> (n: usize)
        ensures
            n == self@.len(),
            n <= BLE_ADV_MAX_LEN,
    {
        proof {
            use_type_invariant(self);
        }
        self.length as usize
    }

    /// Whether the advertisement holds no bytes.
    pub fn is_empty(&self) -> (r: bool)
        ensures
            r == (self@.len() == 0),
    {
        proof {
            use_type_invariant(self);
        }
        self.length == 0
    }

    /// The bytes of the advertisement.
    pub fn data(&self) -> (d: &[u8])
        ensures
            d@ == self@,
    {
        proof {
            use_type_invariant(self);
        }
        let l = self.len();
        let d = vstd::slice::slice_subrange(self.buffer.as_slice(), 0, l);
        assert(d@ =~= self@);
        d
    }

    /// The bytes of the advertisement, to write in place.
    pub fn data_mut(&mut self) -> (d: &mut [u8])
        ensures
            d@ == old(self)@,
            final(self)@ == final(d)@,
    {
        proof {
            use_type_invariant(&*self);
        }
        let l = self.len();
        if l == 0 {
            let empty: &mut [u8] = &mut [];
            assert(empty@ =~= self@);
            return empty;
        }
        let (head, tail) = self.buffer.split_at_mut(l);
        proof {
            assert(has_resolved(tail));
            assert(final(tail)@ == tail@);
            assert(final(self).length == self.length);
            assert(final(self).buffer@ == final(head)@ + final(tail)@);
            assert(final(self).buffer@.len() == 31);
            assert(final(head)@.len() == l);
        }
        head
    }
}

impl AsRef<[u8]> for RawAdvertisementPDU {
    fn as_ref(&self) -> (d: &[u8])
        ensures
            d@ == self@,
    {
        self.data()
    }
}

impl AsMut<[u8]> for RawAdvertisementPDU {
    fn as_mut(&mut self) -> (d: &mut [u8])
        ensures
            d@ == old(self)@,
            final(self)@ == final(d)@,
    {
        self.data_mut()
    }
}

impl vstd::std_specs::convert::TryFromSpecImpl<RawAdvertisementPDU> for EncryptedPDU {
    /// What `try_from` returns is stated on it rather than by a spec function:
    /// the bytes of the result have no spec constructor.
    open spec fn obeys_try_from_spec() -> bool {
        false
    }

    closed spec fn try_from_spec(value: RawAdvertisementPDU) -> Result<EncryptedPDU, ()> {
        Err(())
    }
}

impl TryFrom<RawAdvertisementPDU> for EncryptedPDU {
    type Error = ();

    /// The bytes of a network advertisement; `Err` for any other type.
    fn try_from(value: RawAdvertisementPDU) -> (r: Result<EncryptedPDU, ()>)
        ensures
            r is Ok <==> spec_pdu_type_of(value@) == PDUType::Network,
            r is Ok <==> value@.len() > 0 && value@[0] == 0x2A,
            r matches Ok(p) ==> p@ == value@,
    {
        if value.pdu_type() == PDUType::Network {
            Ok(EncryptedPDU::new(value.as_ref()))
        } else {
            Err(())
        }
    }
}

/// How often, and how far apart, a PDU is to be sent.
pub struct TransmitParameters {}

/// A network PDU waiting to be sent.
pub struct OutgoingPDU {
    transmit_parameters: TransmitParameters,
    pdu: EncryptedPDU,
}

impl View for OutgoingPDU {
    type V = Seq<u8>;

    closed spec fn view(&self) -> Seq<u8> {
        self.pdu@
    }
}

impl OutgoingPDU {
    /// The PDU `pdu`, to be sent as `transmit_parameters` say.
    pub fn new(transmit_parameters: TransmitParameters, pdu: EncryptedPDU) -> (o: OutgoingPDU)
        ensures
            o@ == pdu@,
    {
        OutgoingPDU { transmit_parameters, pdu }
    }
}

impl AsRef<EncryptedPDU> for OutgoingPDU {
    fn as_ref(&self) -> (p: &EncryptedPDU)
        ensures
            p@ == self@,
    {
        &self.pdu
    }
}

/// A network PDU as it was received.
pub struct IncomingPDU {
    pdu: EncryptedPDU,
}

impl View for IncomingPDU {
    type V = Seq<u8>;

    closed spec fn view(&self) -> Seq<u8> {
        self.pdu@
    }
}

impl IncomingPDU {
    /// The received PDU `pdu`.
    pub fn new(pdu: EncryptedPDU) -> (i: IncomingPDU)
        ensures
            i@ == pdu@,
    {
        IncomingPDU { pdu }
    }
}

impl AsRef<EncryptedPDU> for IncomingPDU {
    fn as_ref(&self) -> (p: &EncryptedPDU)
        ensures
            p@ == self@,
    {
        &self.pdu
    }
}

/// A bearer failed to send a PDU.
pub struct IOError(());

impl IOError {
    /// The error.
    pub fn new() -> IOError {
        IOError(())
    }
}

/// Something that sends PDUs: a radio, a socket, a test double.
pub trait IOBearer {
    /// Every PDU handed to `send_io_pdu` so far, oldest first: its bytes, and
    /// whether sending it succeeded.
    spec fn handed(&self) -> Seq<(Seq<u8>, bool)>;

    /// Takes `pdu` to send it; whether sending succeeds is the bearer's to say.
    fn send_io_pdu(&mut self, pdu: OutgoingPDU) -> (r: Result<(), IOError>)
        ensures
            final(self).handed() == old(self).handed().push((pdu@, r is Ok)),
    ;
}

/// The slot under which a PDU waits in a [`MeshPDUQueue`].
#[derive(Copy, Clone, Debug, Hash)]
pub struct PDUQueueSlot(TimeQueueSlotKey);

impl View for PDUQueueSlot {
    type V = u64;

    closed spec fn view(&self) -> u64 {
        self.0.0
    }
}

/// The index of the entry that the queue hands out next at `now`: the first of
/// the earliest due, if that one is due.
pub open spec fn next_due(s: Seq<(u64, Timestamp, OutgoingPDU)>, now: Timestamp) -> Option<int> {
    if exists|i: int| is_first_earliest(s, i) && s[i].1.0 <= now.0 {
        Some(choose|i: int| is_first_earliest(s, i) && s[i].1.0 <= now.0)
    } else {
        None
    }
}

/// The entries left after the queue has handed out the next due entry `k` times
/// (or fewer, when nothing more is due).
pub open spec fn after_due(s: Seq<(u64, Timestamp, OutgoingPDU)>, now: Timestamp, k: nat) -> Seq<
    (u64, Timestamp, OutgoingPDU),
>
    decreases k,
{
    if k == 0 {
        s
    } else {
        let t = after_due(s, now, (k - 1) as nat);
        match next_due(t, now) {
            Some(i) => t.remove(i),
            None => t,
        }
    }
}

/// The entry that the queue hands out as the `j`-th (counting from 0) of those
/// due at `now`, if there is one.
pub open spec fn nth_due(s: Seq<(u64, Timestamp, OutgoingPDU)>, now: Timestamp, j: nat) -> Option<
    (u64, Timestamp, OutgoingPDU),
> {
    let t = after_due(s, now, j);
    match next_due(t, now) {
        Some(i) => Some(t[i]),
        None => None,
    }
}

/// Handing out due entries only takes entries out: each entry left was there
/// before, under the same slot; an entry that none of the first `k` hand-outs
/// took is still there; and slots stay unique.
pub proof fn lemma_after_due_keeps_entries(
    s: Seq<(u64, Timestamp, OutgoingPDU)>,
    now: Timestamp,
    k: nat,
    e: (u64, Timestamp, OutgoingPDU),
)
    ensures
        after_due(s, now, k).contains(e) ==> s.contains(e),
        s.contains(e) && (forall|j: nat| j < k ==> #[trigger] nth_due(s, now, j) != Some(e))
            ==> after_due(s, now, k).contains(e),
        keys_unique(s) ==> keys_unique(after_due(s, now, k)),
    decreases k,
{
    if k > 0 {
        let m = (k - 1) as nat;
        lemma_after_due_keeps_entries(s, now, m, e);
        let t = after_due(s, now, m);
        match next_due(t, now) {
            Some(i) => {
                let u = t.remove(i);
                if u.contains(e) {
                    let p = choose|p: int| 0 <= p < u.len() && u[p] == e;
                    let q = if p < i { p } else { p + 1 };
                    assert(t[q] == e);
                }
                if s.contains(e) && (forall|j: nat| j < k ==> #[trigger] nth_due(s, now, j) != Some(e)) {
                    assert(forall|j: nat| j < m ==> #[trigger] nth_due(s, now, j) != Some(e)) by {
                        assert forall|j: nat| j < m implies #[trigger] nth_due(s, now, j) != Some(e) by {
                            assert(j < k);
                        }
                    }
                    assert(nth_due(s, now, m) == Some(t[i]));
                    let p = choose|p: int| 0 <= p < t.len() && t[p] == e;
                    assert(p != i);
                    let q = if p < i { p } else { p - 1 };
                    assert(u[q] == e);
                }
                if keys_unique(s) {
                    assert forall|a: int, b: int|
                        0 <= a < u.len() && 0 <= b < u.len() && a != b implies u[a].0 != u[b].0 by {
                        let a2 = if a < i { a } else { a + 1 };
                        let b2 = if b < i { b } else { b + 1 };
                        assert(u[a] == t[a2] && u[b] == t[b2]);
                    }
                }
            },
            None => {},
        }
    }
}

/// With unique slots, the slot of an entry finds that entry and no other, and once
/// it is taken out no entry is left under the slot: `cancel` returns what `add`
/// stored under a slot for as long as the entry is queued, and `None` after.
pub proof fn lemma_slot_finds_entry(s: Seq<(u64, Timestamp, OutgoingPDU)>, e: (u64, Timestamp, OutgoingPDU))
    requires
        keys_unique(s),
        s.contains(e),
    ensures
        forall|i: int| 0 <= i < s.len() && s[i].0 == e.0 ==> s[i] == e,
        forall|i: int, j: int|
            0 <= i < s.len() && s[i].0 == e.0 && 0 <= j < s.len() - 1 ==> #[trigger] s.remove(i)[j].0
                != e.0,
{
    let p = choose|p: int| 0 <= p < s.len() && s[p] == e;
    assert forall|i: int| 0 <= i < s.len() && s[i].0 == e.0 implies s[i] == e by {
        if i != p {
            assert(s[i].0 != s[p].0);
        }
    }
    assert forall|i: int, j: int|
        0 <= i < s.len() && s[i].0 == e.0 && 0 <= j < s.len() - 1 implies #[trigger] s.remove(i)[j].0
        != e.0 by {
        let j2 = if j < i { j } else { j + 1 };
        assert(s.remove(i)[j] == s[j2]);
        assert(j2 != i);
    }
}

/// At most one entry is the first among the earliest due.
pub proof fn lemma_first_earliest_unique(s: Seq<(u64, Timestamp, OutgoingPDU)>, i: int, j: int)
    requires
        is_first_earliest(s, i),
        is_first_earliest(s, j),
    ensures
        i == j,
{
    assert(s[i].1.0 <= s[j].1.0 && s[j].1.0 <= s[i].1.0);
}

/// Outgoing PDUs, each waiting until its time to be sent.
pub struct MeshPDUQueue {
    queue: SlottedTimeQueue<OutgoingPDU>,
}

impl View for MeshPDUQueue {
    type V = Seq<(u64, Timestamp, OutgoingPDU)>;

    /// The waiting PDUs as (slot, time due, PDU), oldest first.
    closed spec fn view(&self) -> Seq<(u64, Timestamp, OutgoingPDU)> {
        self.queue@
    }
}

proof fn lemma_filter_remove_unready(s: Seq<(u64, Timestamp, OutgoingPDU)>, i: int, now: Timestamp)
    requires
        0 <= i < s.len(),
        s[i].1.0 <= now.0,
    ensures
        s.remove(i).filter(not_ready(now)) == s.filter(not_ready(now)),
{
    let p = not_ready::<OutgoingPDU>(now);
    let a = s.take(i);
    let x = seq![s[i]];
    let b = s.skip(i + 1);
    assert(s =~= a + (x + b));
    assert(s.remove(i) =~= a + b);
    Seq::filter_distributes_over_add(a, x + b, p);
    Seq::filter_distributes_over_add(x, b, p);
    Seq::filter_distributes_over_add(a, b, p);
    reveal_with_fuel(Seq::filter, 2);
    assert(x.drop_last() =~= Seq::<(u64, Timestamp, OutgoingPDU)>::empty());
    assert(x.filter(p) =~= Seq::<(u64, Timestamp, OutgoingPDU)>::empty());
    assert(x.filter(p) + b.filter(p) =~= b.filter(p));
}

proof fn lemma_filter_all(s: Seq<(u64, Timestamp, OutgoingPDU)>, now: Timestamp)
    requires
        forall|i: int| 0 <= i < s.len() ==> s[i].1.0 > now.0,
    ensures
        s.filter(not_ready(now)) == s,
    decreases s.len(),
{
    reveal_with_fuel(Seq::filter, 1);
    if s.len() > 0 {
        lemma_filter_all(s.drop_last(), now);
        assert(s.drop_last().push(s.last()) =~= s);
    }
}

/// Cancelling the slot that `add` just handed out gives back the PDU that was
/// added and leaves the queue as it was before.
pub proof fn lemma_cancel_undoes_add(
    s: Seq<(u64, Timestamp, OutgoingPDU)>,
    slot: u64,
    due: Timestamp,
    pdu: OutgoingPDU,
)
    requires
        keys_below(s, slot),
    ensures
        ({
            let t = s.push((slot, due, pdu));
            &&& forall|i: int| 0 <= i < t.len() && t[i].0 == slot ==> i == s.len()
            &&& t[s.len() as int].2 == pdu
            &&& t.remove(s.len() as int) == s
        }),
{
    let t = s.push((slot, due, pdu));
    assert(t.remove(s.len() as int) =~= s);
}

/// After a successful `send_ready`, no PDU that is due at `now` is left.
pub proof fn lemma_send_ready_leaves_nothing_due(s: Seq<(u64, Timestamp, OutgoingPDU)>, now: Timestamp)
    ensures
        forall|i: int|
            0 <= i < s.filter(not_ready(now)).len() ==> #[trigger] s.filter(not_ready(now))[i].1.0
                > now.0,
        !has_ready(s.filter(not_ready(now)), now),
{
    broadcast use vstd::seq_lib::group_filter_ensures;

    let f = s.filter(not_ready(now));
    assert forall|i: int| 0 <= i < f.len() implies f[i].1.0 > now.0 by {
        s.lemma_filter_pred(not_ready(now), i);
    }
}

impl MeshPDUQueue {
    #[verifier::type_invariant]
    spec fn inv(self) -> bool {
        self.queue.wf()
    }

    /// The number of PDUs queued so far: the slot of the next is this number.
    pub closed spec fn slots_issued(&self) -> u64 {
        self.queue.keys_issued()
    }

    /// No two waiting PDUs share a slot, and every slot was handed out before.
    pub open spec fn slots_valid(&self) -> bool {
        keys_unique(self@) && keys_below(self@, self.slots_issued())
    }

    /// An empty queue.
    pub fn new() -> (q: MeshPDUQueue)
        ensures
            q.slots_valid(),
            q@ == Seq::<(u64, Timestamp, OutgoingPDU)>::empty(),
            q.slots_issued() == 0,
    {
        MeshPDUQueue { queue: SlottedTimeQueue::new() }
    }

    /// Queues `io_pdu` to be sent `delay_micros` after `now`.
    pub fn add(&mut self, now: Timestamp, delay_micros: u64, io_pdu: OutgoingPDU) -> (slot:
        PDUQueueSlot)
        requires
            old(self).slots_issued() < u64::MAX,
        ensures
            old(self).slots_valid(),
            final(self).slots_valid(),
            slot@ == old(self).slots_issued(),
            final(self).slots_issued() == old(self).slots_issued() + 1,
            final(self)@ == old(self)@.push((slot@, spec_with_delay(now, delay_micros), io_pdu)),
    {
        proof {
            use_type_invariant(&*self);
        }
        let mut queue = SlottedTimeQueue::new();
        std::mem::swap(&mut queue, &mut self.queue);
        let key = queue.push(now.with_delay(delay_micros), io_pdu);
        std::mem::swap(&mut queue, &mut self.queue);
        PDUQueueSlot(key)
    }

    /// Takes the PDU in `slot` out of the queue, if it has not been sent yet.
    pub fn cancel(&mut self, slot: PDUQueueSlot) -> (r: Option<OutgoingPDU>)
        ensures
            old(self).slots_valid(),
            final(self).slots_valid(),
            final(self).slots_issued() == old(self).slots_issued(),
            r is None <==> forall|i: int| 0 <= i < old(self)@.len() ==> old(self)@[i].0 != slot@,
            r is None ==> final(self)@ == old(self)@,
            r matches Some(pdu) ==> exists|i: int|
                0 <= i < old(self)@.len() && old(self)@[i].0 == slot@ && old(self)@[i].2 == pdu
                    && final(self)@ == old(self)@.remove(i),
    {
        proof {
            use_type_invariant(&*self);
        }
        let mut queue = SlottedTimeQueue::new();
        std::mem::swap(&mut queue, &mut self.queue);
        let ghost before = queue@;
        assert(before == old(self)@);
        let r = queue.remove(slot.0);
        std::mem::swap(&mut queue, &mut self.queue);
        r
    }

    /// Sends every PDU that is due at `now`, earliest first, and takes it out of
    /// the queue; stops at the first error of the bearer and returns it.
    pub fn send_ready<B: IOBearer>(&mut self, now: Timestamp, bearer: &mut B) -> (r: Result<
        (),
        IOError,
    >)
        ensures
            old(self).slots_valid(),
            final(self).slots_valid(),
            final(self).slots_issued() == old(self).slots_issued(),
            r is Ok ==> final(self)@ == old(self)@.filter(not_ready(now)),
            r is Err ==> final(self)@.filter(not_ready(now)) == old(self)@.filter(not_ready(now))
                && final(self)@.len() < old(self)@.len(),
            ({
                let h0 = old(bearer).handed();
                let h = final(bearer).handed();
                let k = (h.len() - h0.len()) as nat;
                &&& h0.len() <= h.len()
                &&& h.take(h0.len() as int) == h0
                &&& forall|j: int|
                    0 <= j < k ==> (#[trigger] nth_due(old(self)@, now, j as nat) matches Some(e)
                        && h[h0.len() + j].0 == e.2@)
                &&& final(self)@ == after_due(old(self)@, now, k)
                &&& r is Ok ==> nth_due(old(self)@, now, k) is None && forall|j: int|
                    0 <= j < k ==> #[trigger] h[h0.len() + j].1
                &&& r is Err ==> k > 0 && !h[h.len() - 1].1 && forall|j: int|
                    0 <= j < k - 1 ==> #[trigger] h[h0.len() + j].1
            }),
    {
        proof {
            use_type_invariant(&*self);
        }
        let mut queue = SlottedTimeQueue::new();
        std::mem::swap(&mut queue, &mut self.queue);
        loop
            invariant
                old(self).slots_valid(),
                queue.wf(),
                queue.keys_issued() == old(self).slots_issued(),
                queue@.filter(not_ready(now)) == old(self)@.filter(not_ready(now)),
                queue@.len() <= old(self)@.len(),
                old(bearer).handed().len() <= bearer.handed().len(),
                bearer.handed().take(old(bearer).handed().len() as int) == old(bearer).handed(),
                forall|j: int|
                    0 <= j < bearer.handed().len() - old(bearer).handed().len() ==> (
                    #[trigger] nth_due(old(self)@, now, j as nat) matches Some(e) && bearer.handed()[old(bearer).handed().len() + j].0 == e.2@
                        && bearer.handed()[old(bearer).handed().len() + j].1),
                queue@ == after_due(
                    old(self)@,
                    now,
                    (bearer.handed().len() - old(bearer).handed().len()) as nat,
                ),
            decreases queue@.len(),
        {
            let ghost before = queue@;
            match queue.pop_ready(now) {
                Some((_, pdu)) => {
                    proof {
                        let i = choose|i: int|
                            is_first_earliest(before, i) && before[i].2 == pdu && queue@ == before.remove(i)
                                && before[i].1.0 <= now.0;
                        lemma_filter_remove_unready(before, i, now);
                        let j = choose|j: int| is_first_earliest(before, j) && before[j].1.0 <= now.0;
                        lemma_first_earliest_unique(before, i, j);
                        assert(next_due(before, now) == Some(i));
                        let k = (bearer.handed().len() - old(bearer).handed().len()) as nat;
                        assert(after_due(old(self)@, now, k + 1) == queue@);
                        assert(nth_due(old(self)@, now, k) == Some(before[i]));
                    }
                    let ghost h_before = bearer.handed();
                    let ghost gp = pdu@;
                    match bearer.send_io_pdu(pdu) {
                        Ok(()) => {
                            proof {
                                let h0 = old(bearer).handed();
                                assert(bearer.handed().take(h0.len() as int) =~= h0) by {
                                    assert(h_before.take(h0.len() as int) == h0);
                                }
                            }
                        },
                        Err(e) => {
                            proof {
                                let h0 = old(bearer).handed();
                                assert(bearer.handed().take(h0.len() as int) =~= h0) by {
                                    assert(h_before.take(h0.len() as int) == h0);
                                }
                                let k = (bearer.handed().len() - h0.len()) as nat;
                                assert forall|j: int| 0 <= j < k - 1 implies #[trigger] bearer.handed()[h0.len()
                                    + j].1 by {
                                    assert(nth_due(old(self)@, now, j as nat) is Some);
                                }
                            }
                            std::mem::swap(&mut queue, &mut self.queue);
                            return Err(e);
                        },
                    }
                },
                None => {
                    proof {
                        assert forall|i: int| 0 <= i < before.len() implies before[i].1.0 > now.0 by {
                            if before[i].1.0 <= now.0 {
                                assert(has_ready(before, now));
                            }
                        }
                        lemma_filter_all(before, now);
                        assert(next_due(before, now) is None);
                        let h0 = old(bearer).handed();
                        let k = (bearer.handed().len() - h0.len()) as nat;
                        assert forall|j: int| 0 <= j < k implies #[trigger] bearer.handed()[h0.len()
                            + j].1 by {
                            assert(nth_due(old(self)@, now, j as nat) is Some);
                        }
                    }
                    std::mem::swap(&mut queue, &mut self.queue);
                    return Ok(());
                },
            }
        }
    }
}

} // verus!
