//! The responder: which inbound frames are answered, and the cycle in which
//! frames are received, evaluated and replied to.
//!
//! The responder does no input or output. Its driver receives and transmits
//! frames, reports each to `respond_arp_queries` as an event, and is told
//! what to do next.

use vstd::prelude::*;
use crate::frame::{
    ethernet_payload, forge_arp_response, lemma_arp_round_trip, lemma_ethernet_round_trip,
    parse_arp_payload, reply_frame, reply_header, reply_packet, ArpPacket, EthernetHeader,
    ARP_FRAME_LEN, ETHERTYPE_ARP, ETHERTYPE_IPV4, HARDWARE_TYPE_ETHERNET, OPERATION_REPLY,
    OPERATION_REQUEST,
};
use crate::host::{find_host_by_ip, lemma_lookup_absent, lookup, Host};

verus! {

/// Why an inbound frame draws no reply. None of these is an error.
#[derive(Clone, Copy, Debug, PartialEq, Eq, Structural)]
pub enum Discard {
    /// The frame does not hold an Ethernet header followed by an ARP packet.
    TooShort,
    /// The EtherType is not that of ARP.
    NotArp,
    /// The ARP operation is not a request.
    NotRequest,
    /// The address asked for is not in the host table.
    UnknownTarget,
}

/// What an inbound frame is answered with: the reply frame, or why there is
/// none. A request is answered in the name of the first host that has the
/// address asked for; the reply goes to the sender named in the request.
pub open spec fn evaluation(hosts: Seq<Host>, frame: Seq<u8>) -> Result<Seq<u8>, Discard> {
    match EthernetHeader::decode(frame) {
        None => Err(Discard::TooShort),
        Some(header) => if header.ethertype != ETHERTYPE_ARP {
            Err(Discard::NotArp)
        } else {
            match ArpPacket::decode(ethernet_payload(frame)) {
                None => Err(Discard::TooShort),
                Some(request) => if request.operation != OPERATION_REQUEST {
                    Err(Discard::NotRequest)
                } else {
                    match lookup(hosts, request.target_proto_addr) {
                        None => Err(Discard::UnknownTarget),
                        Some(host) => Ok(
                            reply_frame(
                                request.target_proto_addr,
                                host.mac_address,
                                request.sender_proto_addr,
                                request.sender_hw_addr,
                            ),
                        ),
                    }
                },
            }
        },
    }
}

/// Evaluates one inbound frame against the host table.
pub fn evaluate_frame(hosts: &[Host], frame: &[u8]) -> (r: Result<[u8; 42], Discard>)
    ensures
        match r {
            Ok(reply) => evaluation(hosts@, frame@) == Ok::<Seq<u8>, Discard>(reply@),
            Err(discard) => evaluation(hosts@, frame@) == Err::<Seq<u8>, Discard>(discard),
        },
{
    let header = match EthernetHeader::parse(frame) {
        Some(header) => header,
        None => { return Err(Discard::TooShort); },
    };
    if header.ethertype != ETHERTYPE_ARP {
        return Err(Discard::NotArp);
    }
    let request = match parse_arp_payload(frame) {
        Some(request) => request,
        None => { return Err(Discard::TooShort); },
    };
    if request.operation != OPERATION_REQUEST {
        return Err(Discard::NotRequest);
    }
    match find_host_by_ip(hosts, request.target_proto_addr) {
        None => Err(Discard::UnknownTarget),
        Some(host) => Ok(
            forge_arp_response(
                request.target_proto_addr,
                host.mac_address,
                request.sender_proto_addr,
                request.sender_hw_addr,
            ),
        ),
    }
}

/// What the responder is doing.
#[derive(Debug, PartialEq, Eq)]
pub enum ResponderState {
    /// Waiting for the next frame.
    Idle,
    /// A frame was received and is not classified yet.
    Evaluating { frame: Vec<u8> },
    /// A request was matched; its reply is being sent.
    Replying { reply: [u8; 42] },
}

/// What the driver reports to the responder.
#[derive(Debug, PartialEq, Eq)]
pub enum ResponderEvent {
    /// The channel delivered a frame.
    FrameReceived { frame: Vec<u8> },
    /// Nothing happened outside: the responder is asked to go on.
    Proceed,
    /// The reply was transmitted.
    ReplySent,
}

/// What the driver is to do next.
#[derive(Debug, PartialEq, Eq)]
pub enum ResponderAction {
    /// Block on the channel for the next frame and report it.
    Receive,
    /// Nothing to do outside: ask the responder to go on.
    Proceed,
    /// Transmit the reply on the interface the request came from, then
    /// report that it was sent.
    Transmit { reply: [u8; 42] },
}

/// A `ResponderState` over sequences of bytes.
pub enum StateView {
    Idle,
    Evaluating { frame: Seq<u8> },
    Replying { reply: Seq<u8> },
}

/// A `ResponderEvent` over sequences of bytes.
pub enum EventView {
    FrameReceived { frame: Seq<u8> },
    Proceed,
    ReplySent,
}

/// A `ResponderAction` over sequences of bytes.
pub enum ActionView {
    Receive,
    Proceed,
    Transmit { reply: Seq<u8> },
}

impl View for ResponderState {
    type V = StateView;

    open spec fn view(&self) -> StateView {
        match self {
            ResponderState::Idle => StateView::Idle,
            ResponderState::Evaluating { frame } => StateView::Evaluating { frame: frame@ },
            ResponderState::Replying { reply } => StateView::Replying { reply: reply@ },
        }
    }
}

impl View for ResponderEvent {
    type V = EventView;

    open spec fn view(&self) -> EventView {
        match self {
            ResponderEvent::FrameReceived { frame } => EventView::FrameReceived { frame: frame@ },
            ResponderEvent::Proceed => EventView::Proceed,
            ResponderEvent::ReplySent => EventView::ReplySent,
        }
    }
}

impl View for ResponderAction {
    type V = ActionView;

    open spec fn view(&self) -> ActionView {
        match self {
            ResponderAction::Receive => ActionView::Receive,
            ResponderAction::Proceed => ActionView::Proceed,
            ResponderAction::Transmit { reply } => ActionView::Transmit { reply: reply@ },
        }
    }
}

/// What a state waits for the driver to do.
pub open spec fn pending(state: StateView) -> ActionView {
    match state {
        StateView::Idle => ActionView::Receive,
        StateView::Evaluating { .. } => ActionView::Proceed,
        StateView::Replying { reply } => ActionView::Transmit { reply },
    }
}

/// The responder's transitions. A frame received while idle is taken up for
/// evaluation; evaluation ends in a reply to send or back in idle; a reply
/// that was sent ends the cycle. An event that the state does not wait for
/// changes nothing: frames are handled strictly one after the other.
pub open spec fn transition(hosts: Seq<Host>, state: StateView, event: EventView) -> (
    StateView,
    ActionView,
) {
    match (state, event) {
        (StateView::Idle, EventView::FrameReceived { frame }) => (
            StateView::Evaluating { frame },
            ActionView::Proceed,
        ),
        (StateView::Evaluating { frame }, EventView::Proceed) => match evaluation(hosts, frame) {
            Ok(reply) => (StateView::Replying { reply }, ActionView::Transmit { reply }),
            Err(_) => (StateView::Idle, ActionView::Receive),
        },
        (StateView::Replying { .. }, EventView::ReplySent) => (
            StateView::Idle,
            ActionView::Receive,
        ),
        _ => (state, pending(state)),
    }
}

/// What the responder waits for in `state`.
fn pending_action(state: &ResponderState) -> (action: ResponderAction)
    ensures
        action@ == pending(state@),
{
    match state {
        ResponderState::Idle => ResponderAction::Receive,
        ResponderState::Evaluating { .. } => ResponderAction::Proceed,
        ResponderState::Replying { reply } => ResponderAction::Transmit { reply: *reply },
    }
}

/// Advances the responder by one event: the next state, and what the driver
/// is to do before it reports the next event. The responder starts in
/// `Idle`, where the driver receives.
pub fn respond_arp_queries(hosts: &[Host], state: ResponderState, event: ResponderEvent) -> (r: (
    ResponderState,
    ResponderAction,
))
    ensures
        (r.0@, r.1@) == transition(hosts@, state@, event@),
{
    match (state, event) {
        (ResponderState::Idle, ResponderEvent::FrameReceived { frame }) => (
            ResponderState::Evaluating { frame },
            ResponderAction::Proceed,
        ),
        (ResponderState::Evaluating { frame }, ResponderEvent::Proceed) => {
            match evaluate_frame(hosts, frame.as_slice()) {
                Ok(reply) => (
                    ResponderState::Replying { reply },
                    ResponderAction::Transmit { reply },
                ),
                Err(_) => (ResponderState::Idle, ResponderAction::Receive),
            }
        },
        (ResponderState::Replying { .. }, ResponderEvent::ReplySent) => (
            ResponderState::Idle,
            ResponderAction::Receive,
        ),
        (state, _) => {
            let action = pending_action(&state);
            (state, action)
        },
    }
}

/// `frame` is an ARP request: long enough for an Ethernet header and an ARP
/// packet, with the EtherType of ARP and the operation of a request.
pub open spec fn is_arp_request(frame: Seq<u8>) -> bool {
    &&& frame.len() >= ARP_FRAME_LEN
    &&& EthernetHeader::decode(frame)->Some_0.ethertype == ETHERTYPE_ARP
    &&& arp_packet_of(frame).operation == OPERATION_REQUEST
}

/// The ARP packet that a frame of at least 42 bytes carries.
pub open spec fn arp_packet_of(frame: Seq<u8>) -> ArpPacket
    recommends
        frame.len() >= ARP_FRAME_LEN,
{
    ArpPacket::decode(ethernet_payload(frame))->Some_0
}

/// A request for an address in the table draws exactly one reply: a frame of
/// 42 bytes, unicast to the requester from the hardware address of the first
/// host with that address, with the operation of a reply, the host as the
/// sender and the requester as the target. The responder takes the frame up,
/// hands that reply out for transmission once, and is idle when it was sent.
pub proof fn lemma_known_target_is_answered(hosts: Seq<Host>, frame: Seq<u8>, host: Host)
    requires
        is_arp_request(frame),
        lookup(hosts, arp_packet_of(frame).target_proto_addr) == Some(host),
    ensures
        evaluation(hosts, frame) is Ok,
        ({
            let request = arp_packet_of(frame);
            let reply = evaluation(hosts, frame)->Ok_0;
            &&& reply.len() == ARP_FRAME_LEN
            &&& EthernetHeader::decode(reply) == Some(
                EthernetHeader {
                    destination: request.sender_hw_addr,
                    source: host.mac_address,
                    ethertype: ETHERTYPE_ARP,
                },
            )
            &&& ArpPacket::decode(ethernet_payload(reply)) == Some(
                ArpPacket {
                    hardware_type: HARDWARE_TYPE_ETHERNET,
                    protocol_type: ETHERTYPE_IPV4,
                    hw_addr_len: 6,
                    proto_addr_len: 4,
                    operation: OPERATION_REPLY,
                    sender_hw_addr: host.mac_address,
                    sender_proto_addr: request.target_proto_addr,
                    target_hw_addr: request.sender_hw_addr,
                    target_proto_addr: request.sender_proto_addr,
                },
            )
            &&& transition(hosts, StateView::Idle, EventView::FrameReceived { frame }) == (
                StateView::Evaluating { frame },
                ActionView::Proceed,
            )
            &&& transition(hosts, StateView::Evaluating { frame }, EventView::Proceed) == (
                StateView::Replying { reply },
                ActionView::Transmit { reply },
            )
            &&& transition(hosts, StateView::Replying { reply }, EventView::ReplySent) == (
                StateView::Idle,
                ActionView::Receive,
            )
        }),
{
    let request = arp_packet_of(frame);
    let header = reply_header(host.mac_address, request.sender_hw_addr);
    let packet = reply_packet(
        request.target_proto_addr,
        host.mac_address,
        request.sender_proto_addr,
        request.sender_hw_addr,
    );
    let reply = header.wire() + packet.wire();
    lemma_ethernet_round_trip(header);
    lemma_arp_round_trip(packet);
    assert(ethernet_payload(reply) =~= packet.wire());
    assert(EthernetHeader::decode(reply) == EthernetHeader::decode(header.wire()));
}

/// A frame that asks for an address that no host in the table has draws no
/// reply, whatever else it holds: the responder goes back to idle.
pub proof fn lemma_unknown_target_is_ignored(hosts: Seq<Host>, frame: Seq<u8>)
    requires
        forall|i: int|
            0 <= i < hosts.len() ==> hosts[i].ip_address != arp_packet_of(frame).target_proto_addr,
    ensures
        evaluation(hosts, frame) is Err,
        is_arp_request(frame) ==> evaluation(hosts, frame) == Err::<Seq<u8>, Discard>(
            Discard::UnknownTarget,
        ),
        transition(hosts, StateView::Evaluating { frame }, EventView::Proceed) == (
            StateView::Idle,
            ActionView::Receive,
        ),
{
    lemma_lookup_absent(hosts, arp_packet_of(frame).target_proto_addr);
}

/// An ARP packet whose operation is not a request, a reply among them, draws
/// no reply, even where its target address is in the table.
pub proof fn lemma_non_request_is_ignored(hosts: Seq<Host>, frame: Seq<u8>)
    requires
        arp_packet_of(frame).operation != OPERATION_REQUEST,
    ensures
        evaluation(hosts, frame) is Err,
        transition(hosts, StateView::Evaluating { frame }, EventView::Proceed) == (
            StateView::Idle,
            ActionView::Receive,
        ),
{
}

/// A frame shorter than an Ethernet header with an ARP packet is discarded:
/// it draws no reply, and the responder goes back to idle.
pub proof fn lemma_short_frame_is_ignored(hosts: Seq<Host>, frame: Seq<u8>)
    requires
        frame.len() < ARP_FRAME_LEN,
    ensures
        evaluation(hosts, frame) is Err,
        transition(hosts, StateView::Evaluating { frame }, EventView::Proceed) == (
            StateView::Idle,
            ActionView::Receive,
        ),
{
}

/// A frame whose EtherType is not that of ARP draws no reply.
pub proof fn lemma_other_ethertype_is_ignored(hosts: Seq<Host>, frame: Seq<u8>)
    requires
        EthernetHeader::decode(frame) matches Some(header) && header.ethertype != ETHERTYPE_ARP,
    ensures
        evaluation(hosts, frame) == Err::<Seq<u8>, Discard>(Discard::NotArp),
{
}

/// Every transition leaves the driver with the action that the new state
/// waits for.
pub proof fn lemma_action_is_pending(hosts: Seq<Host>, state: StateView, event: EventView)
    ensures
        transition(hosts, state, event).1 == pending(transition(hosts, state, event).0),
{
}

} // verus!
