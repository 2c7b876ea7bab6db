use ruuf::addr::{Ipv4Addr, MacAddr};
use ruuf::arp::{answers, encode, expired, request_for, ArpOperation, Client, Message, Poll};

const OWN_MAC: MacAddr = MacAddr(0xaa, 0xaa, 0xaa, 0xaa, 0xaa, 0xaa);
const OWN_IP: Ipv4Addr = Ipv4Addr(10, 0, 0, 1);
const PEER_MAC: MacAddr = MacAddr(0xbb, 0xbb, 0xbb, 0xbb, 0xbb, 0xbb);
const PEER_IP: Ipv4Addr = Ipv4Addr(10, 0, 0, 2);
const OTHER_MAC: MacAddr = MacAddr(0xcc, 0xcc, 0xcc, 0xcc, 0xcc, 0xcc);
const OTHER_IP: Ipv4Addr = Ipv4Addr(10, 0, 0, 3);

fn reply(from: (MacAddr, Ipv4Addr), to: (MacAddr, Ipv4Addr)) -> Message {
    Message::new(from, to, ArpOperation::reply())
}

fn never(_: Message) -> bool {
    false
}

fn always(_: Message) -> bool {
    true
}

/// A client with a resolution of `PEER_IP` under way and its request taken.
fn resolving() -> Client {
    let mut client = Client::new();
    assert_eq!(client.resolve((OWN_MAC, OWN_IP), PEER_IP, 0, Some(1000)), Poll::Pending);
    assert!(client.transmit().is_some());
    client
}

#[test]
fn new_client_has_nothing_to_transmit() {
    let mut client = Client::new();
    assert_eq!(client.transmit(), None);
}

#[test]
fn send_queues_the_encoded_frame() {
    let mut client = Client::new();
    let msg = reply((OWN_MAC, OWN_IP), (PEER_MAC, PEER_IP));
    client.send(msg);
    assert_eq!(client.transmit(), Some(encode(msg)));
    assert_eq!(client.transmit(), None);
}

#[test]
fn send_keeps_the_order() {
    let mut client = Client::new();
    let first = reply((OWN_MAC, OWN_IP), (PEER_MAC, PEER_IP));
    let second = reply((OWN_MAC, OWN_IP), (OTHER_MAC, OTHER_IP));
    client.send(first);
    client.send(second);
    assert_eq!(client.transmit(), Some(encode(first)));
    assert_eq!(client.transmit(), Some(encode(second)));
    assert_eq!(client.transmit(), None);
}

#[test]
fn recv_without_frames_waits_until_the_timeout() {
    let mut client = Client::new();
    assert_eq!(client.recv(0, Some(50), Some(always)), Poll::Pending);
    assert_eq!(client.recv(49, Some(50), Some(always)), Poll::Pending);
    assert_eq!(client.recv(50, Some(50), Some(always)), Poll::TimedOut);
    assert_eq!(client.recv(51, Some(50), Some(always)), Poll::TimedOut);
}

#[test]
fn recv_with_a_timeout_of_nothing_ends_at_once() {
    let mut client = Client::new();
    assert_eq!(client.recv(0, Some(0), Some(always)), Poll::TimedOut);
}

#[test]
fn recv_without_timeout_waits_as_long_as_time_is_counted() {
    let mut client = Client::new();
    assert_eq!(client.recv(0, None, Some(always)), Poll::Pending);
    assert_eq!(client.recv(u64::MAX - 1, None, Some(always)), Poll::Pending);
    assert_eq!(client.recv(u64::MAX, None, Some(always)), Poll::TimedOut);
}

#[test]
fn recv_without_predicate_takes_the_first_message() {
    let mut client = Client::new();
    let first = reply((PEER_MAC, PEER_IP), (OWN_MAC, OWN_IP));
    let second = reply((OTHER_MAC, OTHER_IP), (OWN_MAC, OWN_IP));
    client.deliver(vec![1, 2, 3]);
    client.deliver(encode(first));
    client.deliver(encode(second));
    let none: Option<fn(Message) -> bool> = None;
    assert_eq!(client.recv(0, Some(10), none), Poll::Ready(first));
    let none: Option<fn(Message) -> bool> = None;
    assert_eq!(client.recv(0, Some(10), none), Poll::Ready(second));
    let none: Option<fn(Message) -> bool> = None;
    assert_eq!(client.recv(0, Some(10), none), Poll::Pending);
}

#[test]
fn recv_with_rejecting_predicate_never_matches() {
    let mut client = Client::new();
    for k in 0..20u8 {
        client.deliver(encode(reply((PEER_MAC, Ipv4Addr(10, 0, 0, k)), (OWN_MAC, OWN_IP))));
    }
    assert_eq!(client.recv(99, Some(100), Some(never)), Poll::Pending);
    for k in 0..20u8 {
        client.deliver(encode(reply((PEER_MAC, Ipv4Addr(10, 0, 0, k)), (OWN_MAC, OWN_IP))));
    }
    assert_eq!(client.recv(100, Some(100), Some(never)), Poll::TimedOut);
    assert_eq!(client.recv(u64::MAX, Some(100), Some(never)), Poll::TimedOut);
    assert_eq!(client.recv(0, Some(100), Some(never)), Poll::Pending);
    assert_eq!(client.recv(0, Some(100), Some(always)), Poll::Pending);
}

#[test]
fn recv_takes_no_frame_once_the_time_is_used_up() {
    let mut client = Client::new();
    let first = reply((PEER_MAC, PEER_IP), (OWN_MAC, OWN_IP));
    let second = reply((OTHER_MAC, OTHER_IP), (OWN_MAC, OWN_IP));
    client.deliver(encode(first));
    client.deliver(encode(second));
    let none: Option<fn(Message) -> bool> = None;
    assert_eq!(client.recv(0, Some(0), none), Poll::TimedOut);
    assert_eq!(client.recv(100, Some(100), Some(always)), Poll::TimedOut);
    assert_eq!(client.recv(500, Some(100), Some(always)), Poll::TimedOut);
    assert_eq!(client.recv(99, Some(100), Some(always)), Poll::Ready(first));
    assert_eq!(client.recv(0, Some(0), Some(always)), Poll::TimedOut);
    assert_eq!(client.recv(0, Some(1), Some(always)), Poll::Ready(second));
    assert_eq!(client.recv(0, Some(1), Some(always)), Poll::Pending);
}

#[test]
fn recv_drops_what_it_passed_over_and_keeps_the_rest() {
    let mut client = Client::new();
    let wanted = reply((PEER_MAC, PEER_IP), (OWN_MAC, OWN_IP));
    let unwanted = reply((OTHER_MAC, OTHER_IP), (OWN_MAC, OWN_IP));
    let later = reply((OTHER_MAC, PEER_IP), (OWN_MAC, OWN_IP));
    client.deliver(encode(unwanted));
    client.deliver(vec![0u8; 41]);
    client.deliver(encode(wanted));
    client.deliver(encode(later));
    let from_peer = |m: Message| m.src.1 == PEER_IP;
    assert_eq!(client.recv(0, Some(10), Some(from_peer)), Poll::Ready(wanted));
    assert_eq!(client.recv(0, Some(10), Some(from_peer)), Poll::Ready(later));
    assert_eq!(client.recv(0, Some(10), Some(always)), Poll::Pending);
}

#[test]
fn resolve_queues_one_broadcast_request() {
    let mut client = Client::new();
    assert_eq!(client.resolve((OWN_MAC, OWN_IP), PEER_IP, 0, Some(1000)), Poll::Pending);
    let expected = Message::new(
        (OWN_MAC, OWN_IP),
        (MacAddr(0xff, 0xff, 0xff, 0xff, 0xff, 0xff), PEER_IP),
        ArpOperation(1),
    );
    assert_eq!(request_for((OWN_MAC, OWN_IP), PEER_IP), expected);
    assert_eq!(client.transmit(), Some(encode(expected)));
    assert_eq!(client.transmit(), None);
    assert_eq!(client.resolve((OWN_MAC, OWN_IP), PEER_IP, 1, Some(1000)), Poll::Pending);
    assert_eq!(client.resolve((OWN_MAC, OWN_IP), PEER_IP, 2, Some(1000)), Poll::Pending);
    assert_eq!(client.transmit(), None);
}

#[test]
fn resolve_gives_the_source_of_the_single_answer() {
    let mut client = resolving();
    client.deliver(vec![0xde, 0xad]);
    client.deliver(encode(reply((OTHER_MAC, OTHER_IP), (OWN_MAC, OWN_IP))));
    client.deliver(encode(reply((OTHER_MAC, PEER_IP), (OTHER_MAC, OWN_IP))));
    client.deliver(encode(Message::new((OTHER_MAC, PEER_IP), (OWN_MAC, OWN_IP), ArpOperation(1))));
    client.deliver(encode(reply((PEER_MAC, PEER_IP), (OWN_MAC, OWN_IP))));
    client.deliver(encode(reply((OTHER_MAC, OTHER_IP), (OWN_MAC, OWN_IP))));
    assert_eq!(client.resolve((OWN_MAC, OWN_IP), PEER_IP, 10, Some(1000)), Poll::Ready(PEER_MAC));
}

#[test]
fn resolve_takes_the_first_of_two_answers() {
    let mut client = resolving();
    client.deliver(encode(reply((PEER_MAC, PEER_IP), (OWN_MAC, OWN_IP))));
    client.deliver(encode(reply((OTHER_MAC, PEER_IP), (OWN_MAC, OWN_IP))));
    assert_eq!(client.resolve((OWN_MAC, OWN_IP), PEER_IP, 10, Some(1000)), Poll::Ready(PEER_MAC));
}

#[test]
fn resolve_without_answer_is_not_found_only_after_the_timeout() {
    let mut client = resolving();
    client.deliver(encode(reply((OTHER_MAC, OTHER_IP), (OWN_MAC, OWN_IP))));
    assert_eq!(client.resolve((OWN_MAC, OWN_IP), PEER_IP, 0, Some(1000)), Poll::Pending);
    client.deliver(encode(reply((PEER_MAC, PEER_IP), (OTHER_MAC, OWN_IP))));
    assert_eq!(client.resolve((OWN_MAC, OWN_IP), PEER_IP, 999, Some(1000)), Poll::Pending);
    client.deliver(encode(Message::new((PEER_MAC, PEER_IP), (OWN_MAC, OWN_IP), ArpOperation(1))));
    assert_eq!(client.resolve((OWN_MAC, OWN_IP), PEER_IP, 1000, Some(1000)), Poll::TimedOut);
}

#[test]
fn resolve_leaves_the_frames_once_the_time_is_used_up() {
    let mut client = resolving();
    client.deliver(encode(reply((PEER_MAC, PEER_IP), (OWN_MAC, OWN_IP))));
    assert_eq!(client.resolve((OWN_MAC, OWN_IP), PEER_IP, 1000, Some(1000)), Poll::TimedOut);
    assert_eq!(client.recv(0, Some(1), Some(always)), Poll::Ready(reply((PEER_MAC, PEER_IP), (OWN_MAC, OWN_IP))));
}

#[test]
fn resolve_for_another_address_sends_its_own_request() {
    let mut client = resolving();
    client.deliver(encode(reply((OTHER_MAC, OTHER_IP), (OWN_MAC, OWN_IP))));
    assert_eq!(client.resolve((OWN_MAC, OWN_IP), OTHER_IP, 10, Some(1000)), Poll::Pending);
    assert_eq!(client.transmit(), Some(encode(request_for((OWN_MAC, OWN_IP), OTHER_IP))));
    assert_eq!(client.transmit(), None);
    assert_eq!(client.resolve((OWN_MAC, OWN_IP), OTHER_IP, 11, Some(1000)), Poll::Ready(OTHER_MAC));
}

#[test]
fn resolve_for_another_requester_sends_its_own_request() {
    let mut client = resolving();
    client.deliver(encode(reply((PEER_MAC, PEER_IP), (OTHER_MAC, OTHER_IP))));
    assert_eq!(client.resolve((OTHER_MAC, OTHER_IP), PEER_IP, 10, Some(1000)), Poll::Pending);
    assert_eq!(client.transmit(), Some(encode(request_for((OTHER_MAC, OTHER_IP), PEER_IP))));
    assert_eq!(client.resolve((OTHER_MAC, OTHER_IP), PEER_IP, 11, Some(1000)), Poll::Ready(PEER_MAC));
}

#[test]
fn resolve_starts_anew_after_it_ended() {
    let mut client = resolving();
    assert_eq!(client.resolve((OWN_MAC, OWN_IP), PEER_IP, 1000, Some(1000)), Poll::TimedOut);
    assert_eq!(client.resolve((OWN_MAC, OWN_IP), OTHER_IP, 0, Some(1000)), Poll::Pending);
    assert_eq!(client.transmit(), Some(encode(request_for((OWN_MAC, OWN_IP), OTHER_IP))));
    client.deliver(encode(reply((OTHER_MAC, OTHER_IP), (OWN_MAC, OWN_IP))));
    assert_eq!(client.resolve((OWN_MAC, OWN_IP), OTHER_IP, 5, Some(1000)), Poll::Ready(OTHER_MAC));
    assert_eq!(client.resolve((OWN_MAC, OWN_IP), OTHER_IP, 0, Some(1000)), Poll::Pending);
    assert!(client.transmit().is_some());
}

#[test]
fn answers_asks_for_source_destination_and_operation() {
    let good = reply((PEER_MAC, PEER_IP), (OWN_MAC, OWN_IP));
    assert!(answers(good, OWN_MAC, PEER_IP));
    assert!(!answers(reply((PEER_MAC, OTHER_IP), (OWN_MAC, OWN_IP)), OWN_MAC, PEER_IP));
    assert!(!answers(reply((PEER_MAC, PEER_IP), (OTHER_MAC, OWN_IP)), OWN_MAC, PEER_IP));
    let request = Message::new((PEER_MAC, PEER_IP), (OWN_MAC, OWN_IP), ArpOperation::request());
    assert!(!answers(request, OWN_MAC, PEER_IP));
    assert!(answers(reply((PEER_MAC, PEER_IP), (OWN_MAC, OTHER_IP)), OWN_MAC, PEER_IP));
}

#[test]
fn expired_compares_with_the_time_allowed() {
    assert!(!expired(0, Some(1)));
    assert!(expired(1, Some(1)));
    assert!(expired(0, Some(0)));
    assert!(!expired(u64::MAX - 1, None));
    assert!(expired(u64::MAX, None));
}
