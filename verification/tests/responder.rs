use arp_whisper::address::{Ipv4Address, MacAddress};
use arp_whisper::frame::{
    forge_arp_response, ArpPacket, EthernetHeader, ETHERTYPE_ARP, ETHERTYPE_IPV4,
    HARDWARE_TYPE_ETHERNET, OPERATION_REPLY, OPERATION_REQUEST,
};
use arp_whisper::host::{Host, HostTable};
use arp_whisper::responder::{
    evaluate_frame, respond_arp_queries, Discard, ResponderAction, ResponderEvent, ResponderState,
};

const OWNED_IP: Ipv4Address = Ipv4Address(192, 168, 1, 100);
const OWNED_MAC: MacAddress = MacAddress(0x01, 0x23, 0x45, 0x67, 0x89, 0xab);
const REQUESTER_IP: Ipv4Address = Ipv4Address(192, 168, 1, 1);
const REQUESTER_MAC: MacAddress = MacAddress(0xde, 0xad, 0xbe, 0xef, 0x00, 0x01);
const BROADCAST: MacAddress = MacAddress(0xff, 0xff, 0xff, 0xff, 0xff, 0xff);

fn table() -> Vec<Host> {
    vec![
        Host { ip_address: Ipv4Address(192, 168, 1, 50), mac_address: MacAddress(2, 2, 2, 2, 2, 2) },
        Host { ip_address: OWNED_IP, mac_address: OWNED_MAC },
    ]
}

fn arp_frame(ethertype: u16, operation: u16, target: Ipv4Address) -> Vec<u8> {
    let header = EthernetHeader { destination: BROADCAST, source: REQUESTER_MAC, ethertype };
    let packet = ArpPacket {
        hardware_type: HARDWARE_TYPE_ETHERNET,
        protocol_type: ETHERTYPE_IPV4,
        hw_addr_len: 6,
        proto_addr_len: 4,
        operation,
        sender_hw_addr: REQUESTER_MAC,
        sender_proto_addr: REQUESTER_IP,
        target_hw_addr: MacAddress(0, 0, 0, 0, 0, 0),
        target_proto_addr: target,
    };
    let mut frame = header.to_bytes().to_vec();
    frame.extend_from_slice(&packet.to_bytes());
    frame
}

fn request_for(target: Ipv4Address) -> Vec<u8> {
    arp_frame(ETHERTYPE_ARP, OPERATION_REQUEST, target)
}

#[test]
fn request_for_known_address_is_answered() {
    let reply = evaluate_frame(&table(), &request_for(OWNED_IP)).unwrap();
    assert_eq!(reply.len(), 42);
    assert_eq!(
        EthernetHeader::parse(&reply),
        Some(EthernetHeader {
            destination: REQUESTER_MAC,
            source: OWNED_MAC,
            ethertype: ETHERTYPE_ARP,
        })
    );
    assert_eq!(
        ArpPacket::parse(&reply[14..]),
        Some(ArpPacket {
            hardware_type: HARDWARE_TYPE_ETHERNET,
            protocol_type: ETHERTYPE_IPV4,
            hw_addr_len: 6,
            proto_addr_len: 4,
            operation: OPERATION_REPLY,
            sender_hw_addr: OWNED_MAC,
            sender_proto_addr: OWNED_IP,
            target_hw_addr: REQUESTER_MAC,
            target_proto_addr: REQUESTER_IP,
        })
    );
}

#[test]
fn reply_is_the_forged_response() {
    let reply = evaluate_frame(&table(), &request_for(OWNED_IP));
    assert_eq!(reply, Ok(forge_arp_response(OWNED_IP, OWNED_MAC, REQUESTER_IP, REQUESTER_MAC)));
}

#[test]
fn example_request_draws_example_reply() {
    let entries = vec![("192.168.1.100".to_string(), "01:23:45:67:89:ab".to_string())];
    let hosts = HostTable::build(&entries).unwrap();
    let reply = evaluate_frame(hosts.hosts(), &request_for(OWNED_IP)).unwrap();
    let expected: [u8; 42] = [
        0xde, 0xad, 0xbe, 0xef, 0x00, 0x01, 0x01, 0x23, 0x45, 0x67, 0x89, 0xab, 0x08, 0x06,
        0x00, 0x01, 0x08, 0x00, 0x06, 0x04, 0x00, 0x02, 0x01, 0x23, 0x45, 0x67, 0x89, 0xab,
        192, 168, 1, 100, 0xde, 0xad, 0xbe, 0xef, 0x00, 0x01, 192, 168, 1, 1,
    ];
    assert_eq!(reply, expected);
}

#[test]
fn reply_goes_to_the_sender_named_in_the_request() {
    let mut frame = request_for(OWNED_IP);
    // The Ethernet source differs from the ARP sender hardware address.
    frame[6..12].copy_from_slice(&[9, 9, 9, 9, 9, 9]);
    let reply = evaluate_frame(&table(), &frame).unwrap();
    assert_eq!(&reply[0..6], &[0xde, 0xad, 0xbe, 0xef, 0x00, 0x01]);
    assert_eq!(&reply[32..38], &[0xde, 0xad, 0xbe, 0xef, 0x00, 0x01]);
}

#[test]
fn request_with_padding_is_answered() {
    let mut frame = request_for(OWNED_IP);
    frame.resize(60, 0);
    assert_eq!(
        evaluate_frame(&table(), &frame),
        Ok(forge_arp_response(OWNED_IP, OWNED_MAC, REQUESTER_IP, REQUESTER_MAC))
    );
}

#[test]
fn request_is_answered_for_first_of_duplicate_hosts() {
    let hosts = vec![
        Host { ip_address: OWNED_IP, mac_address: MacAddress(1, 1, 1, 1, 1, 1) },
        Host { ip_address: OWNED_IP, mac_address: MacAddress(2, 2, 2, 2, 2, 2) },
    ];
    let reply = evaluate_frame(&hosts, &request_for(OWNED_IP)).unwrap();
    assert_eq!(&reply[6..12], &[1, 1, 1, 1, 1, 1]);
    assert_eq!(&reply[22..28], &[1, 1, 1, 1, 1, 1]);
}

#[test]
fn request_for_unknown_address_is_discarded() {
    assert_eq!(
        evaluate_frame(&table(), &request_for(Ipv4Address(192, 168, 1, 99))),
        Err(Discard::UnknownTarget)
    );
    assert_eq!(evaluate_frame(&[], &request_for(OWNED_IP)), Err(Discard::UnknownTarget));
}

#[test]
fn reply_operation_is_discarded_even_for_known_address() {
    let frame = arp_frame(ETHERTYPE_ARP, OPERATION_REPLY, OWNED_IP);
    assert_eq!(evaluate_frame(&table(), &frame), Err(Discard::NotRequest));
}

#[test]
fn other_operations_are_discarded() {
    for operation in [0u16, 3, 4, 256, 0xffff] {
        let frame = arp_frame(ETHERTYPE_ARP, operation, OWNED_IP);
        assert_eq!(evaluate_frame(&table(), &frame), Err(Discard::NotRequest));
    }
}

#[test]
fn short_frame_is_discarded() {
    let frame = request_for(OWNED_IP);
    for len in 0..42 {
        assert_eq!(evaluate_frame(&table(), &frame[..len]), Err(Discard::TooShort));
    }
    assert!(evaluate_frame(&table(), &frame[..42]).is_ok());
}

#[test]
fn frame_of_other_ethertype_is_discarded() {
    let frame = arp_frame(ETHERTYPE_IPV4, OPERATION_REQUEST, OWNED_IP);
    assert_eq!(evaluate_frame(&table(), &frame), Err(Discard::NotArp));
    let frame = arp_frame(0x86dd, OPERATION_REQUEST, OWNED_IP);
    assert_eq!(evaluate_frame(&table(), &frame), Err(Discard::NotArp));
    assert_eq!(evaluate_frame(&table(), &frame[..14]), Err(Discard::NotArp));
}

#[test]
fn responder_answers_a_request_once() {
    let hosts = table();
    let frame = request_for(OWNED_IP);
    let reply = forge_arp_response(OWNED_IP, OWNED_MAC, REQUESTER_IP, REQUESTER_MAC);

    let (state, action) = respond_arp_queries(
        &hosts,
        ResponderState::Idle,
        ResponderEvent::FrameReceived { frame: frame.clone() },
    );
    assert_eq!(state, ResponderState::Evaluating { frame });
    assert_eq!(action, ResponderAction::Proceed);

    let (state, action) = respond_arp_queries(&hosts, state, ResponderEvent::Proceed);
    assert_eq!(state, ResponderState::Replying { reply });
    assert_eq!(action, ResponderAction::Transmit { reply });

    let (state, action) = respond_arp_queries(&hosts, state, ResponderEvent::ReplySent);
    assert_eq!(state, ResponderState::Idle);
    assert_eq!(action, ResponderAction::Receive);
}

#[test]
fn responder_returns_to_idle_without_reply() {
    let hosts = table();
    let frames = vec![
        request_for(Ipv4Address(10, 0, 0, 1)),
        arp_frame(ETHERTYPE_ARP, OPERATION_REPLY, OWNED_IP),
        arp_frame(ETHERTYPE_IPV4, OPERATION_REQUEST, OWNED_IP),
        vec![0u8; 20],
        Vec::new(),
    ];
    for frame in frames {
        let (state, action) = respond_arp_queries(
            &hosts,
            ResponderState::Idle,
            ResponderEvent::FrameReceived { frame },
        );
        assert_eq!(action, ResponderAction::Proceed);
        let (state, action) = respond_arp_queries(&hosts, state, ResponderEvent::Proceed);
        assert_eq!(state, ResponderState::Idle);
        assert_eq!(action, ResponderAction::Receive);
    }
}

#[test]
fn responder_ignores_events_it_does_not_wait_for() {
    let hosts = table();
    let reply = forge_arp_response(OWNED_IP, OWNED_MAC, REQUESTER_IP, REQUESTER_MAC);

    let (state, action) =
        respond_arp_queries(&hosts, ResponderState::Idle, ResponderEvent::ReplySent);
    assert_eq!((state, action), (ResponderState::Idle, ResponderAction::Receive));
    let (state, action) =
        respond_arp_queries(&hosts, ResponderState::Idle, ResponderEvent::Proceed);
    assert_eq!((state, action), (ResponderState::Idle, ResponderAction::Receive));

    let (state, action) = respond_arp_queries(
        &hosts,
        ResponderState::Replying { reply },
        ResponderEvent::FrameReceived { frame: request_for(OWNED_IP) },
    );
    assert_eq!(state, ResponderState::Replying { reply });
    assert_eq!(action, ResponderAction::Transmit { reply });

    let (state, action) = respond_arp_queries(
        &hosts,
        ResponderState::Evaluating { frame: request_for(OWNED_IP) },
        ResponderEvent::ReplySent,
    );
    assert_eq!(state, ResponderState::Evaluating { frame: request_for(OWNED_IP) });
    assert_eq!(action, ResponderAction::Proceed);
}

#[test]
fn responder_handles_frames_one_after_the_other() {
    let hosts = table();
    let frames = vec![
        request_for(OWNED_IP),
        request_for(Ipv4Address(192, 168, 1, 77)),
        request_for(Ipv4Address(192, 168, 1, 50)),
    ];
    let mut transmitted: Vec<[u8; 42]> = Vec::new();
    let mut pending = frames.into_iter();
    let mut state = ResponderState::Idle;
    let mut action = ResponderAction::Receive;
    loop {
        let event = match action {
            ResponderAction::Receive => match pending.next() {
                Some(frame) => ResponderEvent::FrameReceived { frame },
                None => break,
            },
            ResponderAction::Proceed => ResponderEvent::Proceed,
            ResponderAction::Transmit { reply } => {
                transmitted.push(reply);
                ResponderEvent::ReplySent
            }
        };
        let (next, todo) = respond_arp_queries(&hosts, state, event);
        state = next;
        action = todo;
    }
    assert_eq!(state, ResponderState::Idle);
    assert_eq!(
        transmitted,
        vec![
            forge_arp_response(OWNED_IP, OWNED_MAC, REQUESTER_IP, REQUESTER_MAC),
            forge_arp_response(
                Ipv4Address(192, 168, 1, 50),
                MacAddress(2, 2, 2, 2, 2, 2),
                REQUESTER_IP,
                REQUESTER_MAC,
            ),
        ]
    );
}
