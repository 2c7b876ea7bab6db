//! ARP over Ethernet for IPv4: the message, its wire format, and a client that
//! sends, receives and resolves without doing any I/O itself.

use crate::addr::{Ipv4Addr, MacAddr};
use vstd::prelude::*;

verus! {

/// Length of an Ethernet II header: two addresses and the ethertype.
pub const ETHERNET_HEADER_LEN: usize = 14;

/// Length of an ARP payload for 6-byte hardware and 4-byte protocol addresses.
pub const ARP_PAYLOAD_LEN: usize = 28;

/// Length of a whole frame: header and payload, no padding.
pub const FRAME_LEN: usize = 42;

/// Ethertype of ARP.
pub const ETHERTYPE_ARP: u16 = 0x0806;

/// Ethertype of IPv4, which ARP uses as its protocol type.
pub const ETHERTYPE_IPV4: u16 = 0x0800;

/// ARP hardware type of Ethernet.
pub const HARDWARE_ETHERNET: u16 = 1;

/// Length of a hardware address, as the ARP header carries it.
pub const MAC_ADDRESS_LENGTH: u8 = 6;

/// Length of a protocol address, as the ARP header carries it.
pub const IPV4_ADDRESS_LENGTH: u8 = 4;

/// The 16-bit operation code of an ARP message.
#[derive(Clone, Copy, Debug, PartialEq, Eq, Structural, Hash)]
pub struct ArpOperation(pub u16);

impl ArpOperation {
    pub open spec fn spec_request() -> ArpOperation {
        ArpOperation(1)
    }

    pub open spec fn spec_reply() -> ArpOperation {
        ArpOperation(2)
    }

    /// The operation of a request, code 1.
    #[verifier::when_used_as_spec(spec_request)]
    pub fn request() -> (op: ArpOperation)
        ensures
            op == ArpOperation(1),
    {
        ArpOperation(1)
    }

    /// The operation of a reply, code 2.
    #[verifier::when_used_as_spec(spec_reply)]
    pub fn reply() -> (op: ArpOperation)
        ensures
            op == ArpOperation(2),
    {
        ArpOperation(2)
    }
}

/// One ARP message: who says it, to whom, and whether it asks or answers.
#[derive(Clone, Copy, Debug, PartialEq, Eq)]
pub struct Message {
    pub src: (MacAddr, Ipv4Addr),
    pub dest: (MacAddr, Ipv4Addr),
    pub op: ArpOperation,
}

impl Message {
    pub fn new(src: (MacAddr, Ipv4Addr), dest: (MacAddr, Ipv4Addr), op: ArpOperation) -> (msg:
        Message)
        ensures
            msg == (Message { src, dest, op }),
    {
        Message { src, dest, op }
    }
}

/// The two bytes of `x`, most significant first.
pub open spec fn be16(x: u16) -> Seq<u8> {
    seq![(x / 256) as u8, (x % 256) as u8]
}

/// The number that two bytes spell, most significant first.
pub open spec fn from_be16(hi: u8, lo: u8) -> u16 {
    (hi * 256 + lo) as u16
}

/// The 28 bytes of the ARP payload of `msg`.
pub open spec fn payload_bytes(msg: Message) -> Seq<u8> {
    be16(HARDWARE_ETHERNET) + be16(ETHERTYPE_IPV4) + seq![MAC_ADDRESS_LENGTH, IPV4_ADDRESS_LENGTH]
        + be16(msg.op.0) + msg.src.0.bytes() + msg.src.1.bytes() + msg.dest.0.bytes()
        + msg.dest.1.bytes()
}

/// The 42 bytes of the frame that carries `msg`: destination and source
/// hardware address, the ARP ethertype, then the payload.
pub open spec fn frame_bytes(msg: Message) -> Seq<u8> {
    msg.dest.0.bytes() + msg.src.0.bytes() + be16(ETHERTYPE_ARP) + payload_bytes(msg)
}

/// The message that a frame carries. The bytes after the Ethernet header are
/// read as an ARP payload; a frame too short to hold a whole payload carries
/// none. The header itself is not looked at.
pub open spec fn message_of(frame: Seq<u8>) -> Option<Message> {
    if frame.len() < FRAME_LEN {
        None
    } else {
        Some(
            Message {
                src: (
                    MacAddr::from_bytes(frame.subrange(22, 28)),
                    Ipv4Addr::from_bytes(frame.subrange(28, 32)),
                ),
                dest: (
                    MacAddr::from_bytes(frame.subrange(32, 38)),
                    Ipv4Addr::from_bytes(frame.subrange(38, 42)),
                ),
                op: ArpOperation(from_be16(frame[20], frame[21])),
            },
        )
    }
}

fn push_be16(out: &mut Vec<u8>, x: u16)
    ensures
        final(out)@ == old(out)@ + be16(x),
{
    out.push((x / 256) as u8);
    out.push((x % 256) as u8);
    assert(out@ =~= old(out)@ + be16(x));
}

fn push_mac(out: &mut Vec<u8>, mac: MacAddr)
    ensures
        final(out)@ == old(out)@ + mac.bytes(),
{
    out.push(mac.0);
    out.push(mac.1);
    out.push(mac.2);
    out.push(mac.3);
    out.push(mac.4);
    out.push(mac.5);
    assert(out@ =~= old(out)@ + mac.bytes());
}

fn push_ipv4(out: &mut Vec<u8>, ip: Ipv4Addr)
    ensures
        final(out)@ == old(out)@ + ip.bytes(),
{
    out.push(ip.0);
    out.push(ip.1);
    out.push(ip.2);
    out.push(ip.3);
    assert(out@ =~= old(out)@ + ip.bytes());
}

/// Writes `msg` as an Ethernet frame.
pub fn encode(msg: Message) -> (frame: Vec<u8>)
    ensures
        frame@ == frame_bytes(msg),
        frame@.len() == FRAME_LEN,
        message_of(frame@) == Some(msg),
{
    let mut frame: Vec<u8> = Vec::with_capacity(FRAME_LEN);
    push_mac(&mut frame, msg.dest.0);
    push_mac(&mut frame, msg.src.0);
    push_be16(&mut frame, ETHERTYPE_ARP);
    push_be16(&mut frame, HARDWARE_ETHERNET);
    push_be16(&mut frame, ETHERTYPE_IPV4);
    frame.push(MAC_ADDRESS_LENGTH);
    frame.push(IPV4_ADDRESS_LENGTH);
    push_be16(&mut frame, msg.op.0);
    push_mac(&mut frame, msg.src.0);
    push_ipv4(&mut frame, msg.src.1);
    push_mac(&mut frame, msg.dest.0);
    push_ipv4(&mut frame, msg.dest.1);
    proof {
        assert(frame@ =~= frame_bytes(msg));
        lemma_decode_encode(msg);
    }
    frame
}

/// Reads the message that `frame` carries, if it is long enough to carry one.
pub fn decode(frame: &[u8]) -> (msg: Option<Message>)
    ensures
        msg == message_of(frame@),
{
    if frame.len() < FRAME_LEN {
        return None;
    }
    let op = ArpOperation((frame[20] as u16) * 256 + (frame[21] as u16));
    let src = (
        MacAddr(frame[22], frame[23], frame[24], frame[25], frame[26], frame[27]),
        Ipv4Addr(frame[28], frame[29], frame[30], frame[31]),
    );
    let dest = (
        MacAddr(frame[32], frame[33], frame[34], frame[35], frame[36], frame[37]),
        Ipv4Addr(frame[38], frame[39], frame[40], frame[41]),
    );
    Some(Message { src, dest, op })
}

/// A frame is always 42 bytes long and spells out the fixed header fields:
/// the ARP ethertype, Ethernet as hardware type, IPv4 as protocol type, and
/// the address lengths 6 and 4.
pub proof fn lemma_frame_layout(msg: Message)
    ensures
        frame_bytes(msg).len() == FRAME_LEN,
        payload_bytes(msg).len() == ARP_PAYLOAD_LEN,
        frame_bytes(msg).subrange(0, 6) == msg.dest.0.bytes(),
        frame_bytes(msg).subrange(6, 12) == msg.src.0.bytes(),
        frame_bytes(msg).subrange(12, 14) == seq![0x08u8, 0x06u8],
        frame_bytes(msg).subrange(14, 20) == seq![0x00u8, 0x01u8, 0x08u8, 0x00u8, 0x06u8, 0x04u8],
        frame_bytes(msg).subrange(20, 22) == be16(msg.op.0),
        frame_bytes(msg).subrange(22, 28) == msg.src.0.bytes(),
        frame_bytes(msg).subrange(28, 32) == msg.src.1.bytes(),
        frame_bytes(msg).subrange(32, 38) == msg.dest.0.bytes(),
        frame_bytes(msg).subrange(38, 42) == msg.dest.1.bytes(),
        frame_bytes(msg).subrange(14, 42) == payload_bytes(msg),
{
    let f = frame_bytes(msg);
    assert(f.subrange(0, 6) =~= msg.dest.0.bytes());
    assert(f.subrange(6, 12) =~= msg.src.0.bytes());
    assert(f.subrange(12, 14) =~= seq![0x08u8, 0x06u8]);
    assert(f.subrange(14, 20) =~= seq![0x00u8, 0x01u8, 0x08u8, 0x00u8, 0x06u8, 0x04u8]);
    assert(f.subrange(20, 22) =~= be16(msg.op.0));
    assert(f.subrange(22, 28) =~= msg.src.0.bytes());
    assert(f.subrange(28, 32) =~= msg.src.1.bytes());
    assert(f.subrange(32, 38) =~= msg.dest.0.bytes());
    assert(f.subrange(38, 42) =~= msg.dest.1.bytes());
    assert(f.subrange(14, 42) =~= payload_bytes(msg));
}

/// Decoding an encoded message gives the message back, whatever its
/// addresses and its operation code.
pub proof fn lemma_decode_encode(msg: Message)
    ensures
        message_of(frame_bytes(msg)) == Some(msg),
{
    lemma_frame_layout(msg);
    let f = frame_bytes(msg);
    assert(f[20] == be16(msg.op.0)[0]);
    assert(f[21] == be16(msg.op.0)[1]);
    assert(from_be16(f[20], f[21]) == msg.op.0);
    let got = message_of(f)->Some_0;
    assert(got.src.0 == msg.src.0);
    assert(got.src.1 == msg.src.1);
    assert(got.dest.0 == msg.dest.0);
    assert(got.dest.1 == msg.dest.1);
    assert(got.op == msg.op);
}

/// Where a receive stands after one look at the time and at the frames at
/// hand.
#[derive(Debug, PartialEq, Eq)]
pub enum Poll<T> {
    /// What was waited for has come.
    Ready(T),
    /// Nothing came within the time allowed. This ends the wait; it is no error.
    TimedOut,
    /// Nothing has come yet and time remains: deliver another frame and ask again.
    Pending,
}

/// The time allowed by `timeout` in milliseconds; without one, the longest
/// time that can be written.
pub open spec fn spec_allowed(timeout: Option<u64>) -> u64 {
    match timeout {
        Some(t) => t,
        None => u64::MAX,
    }
}

/// Whether a wait of `elapsed` milliseconds has used up `timeout`.
pub open spec fn spec_expired(elapsed: u64, timeout: Option<u64>) -> bool {
    elapsed >= spec_allowed(timeout)
}

#[verifier::when_used_as_spec(spec_expired)]
pub fn expired(elapsed: u64, timeout: Option<u64>) -> (over: bool)
    ensures
        over == spec_expired(elapsed, timeout),
{
    match timeout {
        Some(t) => elapsed >= t,
        None => elapsed >= u64::MAX,
    }
}

/// Whether `frame` carries a message that `accept` lets through.
pub open spec fn accepted(frame: Seq<u8>, accept: spec_fn(Message) -> bool) -> bool {
    match message_of(frame) {
        Some(msg) => accept(msg),
        None => false,
    }
}

/// The position of the first accepted frame, or the number of frames if none
/// is accepted.
pub open spec fn first_accepted(frames: Seq<Seq<u8>>, accept: spec_fn(Message) -> bool) -> int
    decreases frames.len(),
{
    if frames.len() == 0 {
        0
    } else if accepted(frames[0], accept) {
        0
    } else {
        1 + first_accepted(frames.skip(1), accept)
    }
}

/// What a receive gives on the frames `incoming`, oldest first, and which
/// frames it leaves. The time is tested first: once it is used up the wait
/// ends and no frame is looked at. While time remains the first accepted
/// frame ends the wait, and the frames before it are dropped; with none
/// accepted all are dropped and the wait goes on.
pub open spec fn recv_spec(
    incoming: Seq<Seq<u8>>,
    accept: spec_fn(Message) -> bool,
    elapsed: u64,
    timeout: Option<u64>,
) -> (Poll<Message>, Seq<Seq<u8>>) {
    let i = first_accepted(incoming, accept);
    if spec_expired(elapsed, timeout) {
        (Poll::TimedOut, incoming)
    } else if i < incoming.len() {
        (Poll::Ready(message_of(incoming[i])->Some_0), incoming.skip(i + 1))
    } else {
        (Poll::Pending, Seq::empty())
    }
}

/// Whether the predicate handed to a receive answers as `accept` does: no
/// predicate lets every message through.
pub open spec fn decides<P: Fn(Message) -> bool>(
    predicate: Option<P>,
    accept: spec_fn(Message) -> bool,
) -> bool {
    match predicate {
        Some(p) => forall|m: Message, b: bool| call_ensures(p, (m,), b) ==> b == accept(m),
        None => forall|m: Message| #[trigger] accept(m),
    }
}

/// Whether the predicate may have turned `frame` away: it carries no message,
/// or one to which the predicate can answer no.
pub open spec fn may_reject<P: Fn(Message) -> bool>(predicate: Option<P>, frame: Seq<u8>) -> bool {
    match message_of(frame) {
        None => true,
        Some(m) => match predicate {
            Some(p) => call_ensures(p, (m,), false),
            None => false,
        },
    }
}

/// Whether the predicate may have let `frame` through: it carries a message
/// to which the predicate can answer yes.
pub open spec fn may_accept<P: Fn(Message) -> bool>(predicate: Option<P>, frame: Seq<u8>) -> bool {
    match message_of(frame) {
        None => false,
        Some(m) => match predicate {
            Some(p) => call_ensures(p, (m,), true),
            None => true,
        },
    }
}

/// The reply that answers a request for `target_ip` made from `own_mac`: it
/// comes from that address, is addressed to the requester, and is a reply.
pub open spec fn spec_answers(msg: Message, own_mac: MacAddr, target_ip: Ipv4Addr) -> bool {
    msg.src.1 == target_ip && msg.dest.0 == own_mac && msg.op == ArpOperation(2)
}

#[verifier::when_used_as_spec(spec_answers)]
pub fn answers(msg: Message, own_mac: MacAddr, target_ip: Ipv4Addr) -> (yes: bool)
    ensures
        yes == spec_answers(msg, own_mac, target_ip),
{
    msg.src.1 == target_ip && msg.dest.0 == own_mac && msg.op == ArpOperation::reply()
}

/// The request that asks the whole segment who has `target_ip`.
pub open spec fn spec_request_for(src: (MacAddr, Ipv4Addr), target_ip: Ipv4Addr) -> Message {
    Message { src, dest: (MacAddr(0xff, 0xff, 0xff, 0xff, 0xff, 0xff), target_ip), op: ArpOperation(1) }
}

#[verifier::when_used_as_spec(spec_request_for)]
pub fn request_for(src: (MacAddr, Ipv4Addr), target_ip: Ipv4Addr) -> (msg: Message)
    ensures
        msg == spec_request_for(src, target_ip),
{
    Message::new(src, (MacAddr::broadcast(), target_ip), ArpOperation::request())
}

/// The frames that a queue holds, oldest first.
pub open spec fn frames_of(queue: Seq<Vec<u8>>) -> Seq<Seq<u8>> {
    queue.map_values(|f: Vec<u8>| f@)
}

/// What a client holds.
pub struct ClientView {
    /// Frames queued by `send` and not yet taken for transmission, oldest first.
    pub outgoing: Seq<Seq<u8>>,
    /// Frames delivered and not yet looked at, oldest first.
    pub incoming: Seq<Seq<u8>>,
    /// The resolution under way, if any: who asked and for which address. Its
    /// request was queued, and neither an answer nor the timeout has ended it.
    pub requested: Option<((MacAddr, Ipv4Addr), Ipv4Addr)>,
}

/// An ARP client that does no I/O. It owns the two halves of a link as
/// queues: `send` fills the outgoing one, which the driver empties with
/// `transmit`; the driver fills the incoming one with `deliver`, which `recv`
/// and `resolve` empty.
#[derive(Debug)]
pub struct Client {
    outgoing: Vec<Vec<u8>>,
    incoming: Vec<Vec<u8>>,
    requested: Option<((MacAddr, Ipv4Addr), Ipv4Addr)>,
}

impl View for Client {
    type V = ClientView;

    closed spec fn view(&self) -> ClientView {
        ClientView {
            outgoing: frames_of(self.outgoing@),
            incoming: frames_of(self.incoming@),
            requested: self.requested,
        }
    }
}

/// What a resolution gives in the state `before`, and the state it leaves.
/// A call that names another requester or another address than the
/// resolution under way, or that finds none under way, begins one: it queues
/// the request and waits. Each later call for the same receives with the
/// predicate `spec_answers` and gives the sender's hardware address of the
/// first answer; an answer or the timeout ends the resolution.
pub open spec fn resolve_spec(
    before: ClientView,
    src: (MacAddr, Ipv4Addr),
    target_ip: Ipv4Addr,
    elapsed: u64,
    timeout: Option<u64>,
) -> (Poll<MacAddr>, ClientView) {
    if before.requested != Some((src, target_ip)) {
        (
            Poll::Pending,
            ClientView {
                outgoing: before.outgoing.push(frame_bytes(spec_request_for(src, target_ip))),
                incoming: before.incoming,
                requested: Some((src, target_ip)),
            },
        )
    } else {
        let (got, rest) = recv_spec(
            before.incoming,
            |m: Message| spec_answers(m, src.0, target_ip),
            elapsed,
            timeout,
        );
        match got {
            Poll::Ready(msg) => (
                Poll::Ready(msg.src.0),
                ClientView { outgoing: before.outgoing, incoming: rest, requested: None },
            ),
            Poll::TimedOut => (
                Poll::TimedOut,
                ClientView { outgoing: before.outgoing, incoming: rest, requested: None },
            ),
            Poll::Pending => (
                Poll::Pending,
                ClientView {
                    outgoing: before.outgoing,
                    incoming: rest,
                    requested: before.requested,
                },
            ),
        }
    }
}

impl Client {
    /// A client with both queues empty and no resolution under way.
    pub fn new() -> (client: Client)
        ensures
            client@.outgoing.len() == 0,
            client@.incoming.len() == 0,
            client@.requested is None,
    {
        Client { outgoing: Vec::new(), incoming: Vec::new(), requested: None }
    }

    /// Encodes `msg` and queues the frame for transmission, behind those
    /// already queued.
    pub fn send(&mut self, msg: Message)
        ensures
            final(self)@.outgoing == old(self)@.outgoing.push(frame_bytes(msg)),
            final(self)@.incoming == old(self)@.incoming,
            final(self)@.requested == old(self)@.requested,
    {
        let frame = encode(msg);
        self.outgoing.push(frame);
        assert(frames_of(self.outgoing@) =~= frames_of(old(self).outgoing@).push(frame_bytes(msg)));
    }

    /// Takes the oldest queued frame for the driver to transmit, if there is
    /// one.
    pub fn transmit(&mut self) -> (frame: Option<Vec<u8>>)
        ensures
            final(self)@.incoming == old(self)@.incoming,
            final(self)@.requested == old(self)@.requested,
            match frame {
                Some(f) => old(self)@.outgoing.len() > 0 && f@ == old(self)@.outgoing[0]
                    && final(self)@.outgoing == old(self)@.outgoing.skip(1),
                None => old(self)@.outgoing.len() == 0 && final(self)@.outgoing.len() == 0,
            },
    {
        if self.outgoing.len() == 0 {
            return None;
        }
        let frame = self.outgoing.remove(0);
        assert(frames_of(self.outgoing@) =~= frames_of(old(self).outgoing@).skip(1));
        Some(frame)
    }

    /// Queues a frame that the driver read from the link, behind those
    /// already delivered. Any frame may be delivered, whatever its ethertype.
    pub fn deliver(&mut self, frame: Vec<u8>)
        ensures
            final(self)@.incoming == old(self)@.incoming.push(frame@),
            final(self)@.outgoing == old(self)@.outgoing,
            final(self)@.requested == old(self)@.requested,
    {
        self.incoming.push(frame);
        assert(frames_of(self.incoming@) =~= frames_of(old(self).incoming@).push(frame@));
    }

    /// Receives a message that `predicate` accepts; without a predicate every
    /// message is accepted. `elapsed` is how long the wait has lasted and
    /// `timeout` how long it may last, both in milliseconds; without a
    /// timeout it may last as long as time can be counted.
    ///
    /// The time is tested before any frame is looked at: once `elapsed` has
    /// reached `timeout` the wait is over and the delivered frames stay where
    /// they are. While time remains the delivered frames are looked through,
    /// oldest first. Frames that carry no message or that the predicate turns
    /// away are dropped.
    pub fn recv<P: Fn(Message) -> bool>(
        &mut self,
        elapsed: u64,
        timeout: Option<u64>,
        predicate: Option<P>,
    ) -> (got: Poll<Message>)
        requires
            predicate matches Some(p) ==> forall|m: Message| call_requires(p, (m,)),
        ensures
            final(self)@.outgoing == old(self)@.outgoing,
            final(self)@.requested == old(self)@.requested,
            got is TimedOut <==> spec_expired(elapsed, timeout),
            got is TimedOut ==> final(self)@.incoming == old(self)@.incoming,
            got matches Poll::Ready(msg) ==> exists|i: int|
                0 <= i < old(self)@.incoming.len() && message_of(#[trigger] old(self)@.incoming[i])
                    == Some(msg) && may_accept(predicate, old(self)@.incoming[i])
                    && final(self)@.incoming == old(self)@.incoming.skip(i + 1) && forall|j: int|
                    0 <= j < i ==> may_reject(predicate, #[trigger] old(self)@.incoming[j]),
            got is Pending ==> final(self)@.incoming.len() == 0 && forall|j: int|
                0 <= j < old(self)@.incoming.len() ==> may_reject(
                    predicate,
                    #[trigger] old(self)@.incoming[j],
                ),
            forall|accept: spec_fn(Message) -> bool| #[trigger]
                decides(predicate, accept) ==> (got, final(self)@.incoming) == recv_spec(
                    old(self)@.incoming,
                    accept,
                    elapsed,
                    timeout,
                ),
    {
        if expired(elapsed, timeout) {
            return Poll::TimedOut;
        }
        let ghost before = old(self)@.incoming;
        let ghost mut seen: int = 0;
        while self.incoming.len() > 0
            invariant
                self.requested == old(self).requested,
                self.outgoing == old(self).outgoing,
                before == old(self)@.incoming,
                !spec_expired(elapsed, timeout),
                0 <= seen <= before.len(),
                frames_of(self.incoming@) == before.skip(seen),
                forall|j: int| 0 <= j < seen ==> may_reject(predicate, #[trigger] before[j]),
                predicate matches Some(p) ==> forall|m: Message| call_requires(p, (m,)),
            decreases self.incoming.len(),
        {
            let ghost queue = self.incoming@;
            let frame = self.incoming.remove(0);
            proof {
                assert(frames_of(queue).len() == queue.len());
                assert(seen < before.len());
                assert(frame@ == frames_of(queue)[0]);
                assert(before.skip(seen)[0] == before[seen]);
                assert(frames_of(self.incoming@) =~= frames_of(queue).skip(1));
                assert(before.skip(seen).skip(1) =~= before.skip(seen + 1));
            }
            let taken = match decode(frame.as_slice()) {
                Some(msg) => {
                    let pass = match &predicate {
                        Some(p) => p(msg),
                        None => true,
                    };
                    if pass {
                        Some(msg)
                    } else {
                        None
                    }
                },
                None => None,
            };
            match taken {
                Some(msg) => {
                    proof {
                        assert(may_accept(predicate, before[seen]));
                        assert forall|accept: spec_fn(Message) -> bool| #[trigger]
                            decides(predicate, accept) implies (Poll::Ready(msg), self@.incoming)
                            == recv_spec(before, accept, elapsed, timeout) by {
                            lemma_first_accepted(before, accept, seen);
                        }
                    }
                    return Poll::Ready(msg);
                },
                None => {
                    proof {
                        assert(may_reject(predicate, before[seen]));
                        seen = seen + 1;
                    }
                },
            }
        }
        proof {
            assert(seen == before.len());
            assert(self@.incoming =~= Seq::<Seq<u8>>::empty());
            assert forall|accept: spec_fn(Message) -> bool| #[trigger]
                decides(predicate, accept) implies (Poll::<Message>::Pending, self@.incoming)
                == recv_spec(before, accept, elapsed, timeout) by {
                lemma_first_accepted(before, accept, seen);
            }
        }
        Poll::Pending
    }

    /// Resolves `target_ip` to a hardware address for the requester `src`.
    ///
    /// A call that finds no resolution for this requester and this address
    /// under way begins one: it queues a request from `src` to the broadcast
    /// address and waits, whatever `elapsed` says. The driver transmits the
    /// request and counts `elapsed` from then. Each later call for the same
    /// receives the answer, which is the first reply from `target_ip` to the
    /// requester's hardware address, and gives the hardware address of its
    /// sender; it ends the resolution without one once `elapsed` has reached
    /// `timeout`. The request is queued once; the first answer wins.
    pub fn resolve(
        &mut self,
        src: (MacAddr, Ipv4Addr),
        target_ip: Ipv4Addr,
        elapsed: u64,
        timeout: Option<u64>,
    ) -> (got: Poll<MacAddr>)
        ensures
            (got, final(self)@) == resolve_spec(old(self)@, src, target_ip, elapsed, timeout),
    {
        let under_way = match self.requested {
            Some((who, ip)) => who.0 == src.0 && who.1 == src.1 && ip == target_ip,
            None => false,
        };
        if !under_way {
            self.send(request_for(src, target_ip));
            self.requested = Some((src, target_ip));
            return Poll::Pending;
        }
        let own_mac = src.0;
        let predicate = |m: Message| -> (yes: bool)
            ensures
                yes == spec_answers(m, own_mac, target_ip),
            { answers(m, own_mac, target_ip) };
        let ghost accept = |m: Message| spec_answers(m, src.0, target_ip);
        let got = self.recv(elapsed, timeout, Some(predicate));
        proof {
            assert(decides(Some(predicate), accept));
        }
        match got {
            Poll::Ready(msg) => {
                self.requested = None;
                Poll::Ready(msg.src.0)
            },
            Poll::TimedOut => {
                self.requested = None;
                Poll::TimedOut
            },
            Poll::Pending => Poll::Pending,
        }
    }
}

/// Once the time allowed is used up a receive gives no message and takes no
/// frame, whatever was delivered and whatever the predicate accepts.
pub proof fn lemma_recv_expired(
    incoming: Seq<Seq<u8>>,
    accept: spec_fn(Message) -> bool,
    elapsed: u64,
    timeout: Option<u64>,
)
    requires
        spec_expired(elapsed, timeout),
    ensures
        recv_spec(incoming, accept, elapsed, timeout) == (Poll::<Message>::TimedOut, incoming),
{
}

/// A receive that accepts none of the delivered frames never gives a message.
/// It ends with `TimedOut` exactly when the time allowed is used up; before
/// that it drops the frames and waits on.
pub proof fn lemma_recv_none_accepted(
    incoming: Seq<Seq<u8>>,
    accept: spec_fn(Message) -> bool,
    elapsed: u64,
    timeout: Option<u64>,
)
    requires
        forall|i: int| 0 <= i < incoming.len() ==> !accepted(#[trigger] incoming[i], accept),
    ensures
        recv_spec(incoming, accept, elapsed, timeout).0 == if spec_expired(elapsed, timeout) {
            Poll::<Message>::TimedOut
        } else {
            Poll::<Message>::Pending
        },
{
    lemma_first_accepted(incoming, accept, incoming.len() as int);
}

/// A receive with a predicate that turns every message away never gives a
/// message, whatever was delivered: it times out once the time allowed is
/// used up and not before.
pub proof fn lemma_recv_rejecting(incoming: Seq<Seq<u8>>, elapsed: u64, timeout: Option<u64>)
    ensures
        !(recv_spec(incoming, |m: Message| false, elapsed, timeout).0 is Ready),
        recv_spec(incoming, |m: Message| false, elapsed, timeout).0 is TimedOut <==> spec_expired(
            elapsed,
            timeout,
        ),
{
    lemma_recv_none_accepted(incoming, |m: Message| false, elapsed, timeout);
}

/// While time remains a receive gives the message of the first accepted
/// frame and leaves the frames behind it.
pub proof fn lemma_recv_first_accepted(
    incoming: Seq<Seq<u8>>,
    accept: spec_fn(Message) -> bool,
    elapsed: u64,
    timeout: Option<u64>,
    i: int,
)
    requires
        !spec_expired(elapsed, timeout),
        0 <= i < incoming.len(),
        accepted(incoming[i], accept),
        forall|j: int| 0 <= j < i ==> !accepted(#[trigger] incoming[j], accept),
    ensures
        recv_spec(incoming, accept, elapsed, timeout) == (
            Poll::Ready(message_of(incoming[i])->Some_0),
            incoming.skip(i + 1),
        ),
{
    lemma_first_accepted(incoming, accept, i);
}

/// Where exactly one of the delivered frames answers the request and time
/// remains, the resolution under way gives the hardware address of the
/// sender of that frame.
pub proof fn lemma_resolve_single_answer(
    before: ClientView,
    src: (MacAddr, Ipv4Addr),
    target_ip: Ipv4Addr,
    elapsed: u64,
    timeout: Option<u64>,
    i: int,
)
    requires
        before.requested == Some((src, target_ip)),
        !spec_expired(elapsed, timeout),
        0 <= i < before.incoming.len(),
        accepted(before.incoming[i], |m: Message| spec_answers(m, src.0, target_ip)),
        forall|j: int|
            0 <= j < before.incoming.len() && j != i ==> !accepted(
                #[trigger] before.incoming[j],
                |m: Message| spec_answers(m, src.0, target_ip),
            ),
    ensures
        resolve_spec(before, src, target_ip, elapsed, timeout).0 == Poll::Ready(
            message_of(before.incoming[i])->Some_0.src.0,
        ),
{
    lemma_first_accepted(before.incoming, |m: Message| spec_answers(m, src.0, target_ip), i);
}

/// Where none of the delivered frames answers the request, the resolution
/// under way finds nothing: it says so once the time allowed is used up, and
/// waits on before that.
pub proof fn lemma_resolve_no_answer(
    before: ClientView,
    src: (MacAddr, Ipv4Addr),
    target_ip: Ipv4Addr,
    elapsed: u64,
    timeout: Option<u64>,
)
    requires
        before.requested == Some((src, target_ip)),
        forall|j: int|
            0 <= j < before.incoming.len() ==> !accepted(
                #[trigger] before.incoming[j],
                |m: Message| spec_answers(m, src.0, target_ip),
            ),
    ensures
        resolve_spec(before, src, target_ip, elapsed, timeout).0 == if spec_expired(
            elapsed,
            timeout,
        ) {
            Poll::<MacAddr>::TimedOut
        } else {
            Poll::<MacAddr>::Pending
        },
{
    lemma_recv_none_accepted(
        before.incoming,
        |m: Message| spec_answers(m, src.0, target_ip),
        elapsed,
        timeout,
    );
}

/// Every resolution sends its own request: a call that names another
/// requester or another address than the resolution under way queues the
/// request for what it names, looks at no frame, and waits.
pub proof fn lemma_resolve_requests_first(
    before: ClientView,
    src: (MacAddr, Ipv4Addr),
    target_ip: Ipv4Addr,
    elapsed: u64,
    timeout: Option<u64>,
)
    requires
        before.requested != Some((src, target_ip)),
    ensures
        resolve_spec(before, src, target_ip, elapsed, timeout).0 == Poll::<MacAddr>::Pending,
        resolve_spec(before, src, target_ip, elapsed, timeout).1.outgoing == before.outgoing.push(
            frame_bytes(spec_request_for(src, target_ip)),
        ),
        resolve_spec(before, src, target_ip, elapsed, timeout).1.incoming == before.incoming,
        resolve_spec(before, src, target_ip, elapsed, timeout).1.requested == Some(
            (src, target_ip),
        ),
{
}

/// If no frame before position `i` is accepted, then the first accepted frame
/// stands at `i` where that one is accepted, and nowhere where `i` is the end.
pub proof fn lemma_first_accepted(frames: Seq<Seq<u8>>, accept: spec_fn(Message) -> bool, i: int)
    requires
        0 <= i <= frames.len(),
        forall|j: int| 0 <= j < i ==> !accepted(#[trigger] frames[j], accept),
        i < frames.len() ==> accepted(frames[i], accept),
    ensures
        first_accepted(frames, accept) == i,
    decreases i,
{
    if i > 0 {
        let rest = frames.skip(1);
        assert forall|j: int| 0 <= j < i - 1 implies !accepted(#[trigger] rest[j], accept) by {
            assert(rest[j] == frames[j + 1]);
        }
        if i < frames.len() {
            assert(rest[i - 1] == frames[i]);
        }
        lemma_first_accepted(rest, accept, i - 1);
    }
}

} // verus!
