//! Wire format of an ARP packet carried in an Ethernet II frame.
//!
//! The layout is fixed: a 14-byte Ethernet header followed by the 28-byte ARP
//! packet for IPv4 over Ethernet (RFC 826). Multi-byte fields are big-endian.
//! Each structure has a `wire` form (the bytes it is written as) and a
//! `decode` (the structure a byte string is read as); the executable
//! functions are proved against them.

use vstd::prelude::*;
use vstd::slice::slice_subrange;
use crate::address::{Ipv4Address, MacAddress};

verus! {

/// Length of an Ethernet II header.
pub const ETHERNET_HEADER_LEN: usize = 14;

/// Length of an ARP packet for IPv4 over Ethernet.
pub const ARP_PACKET_LEN: usize = 28;

/// Length of an Ethernet frame that carries exactly one ARP packet.
pub const ARP_FRAME_LEN: usize = 42;

/// EtherType of IPv4.
pub const ETHERTYPE_IPV4: u16 = 0x0800;

/// EtherType of ARP.
pub const ETHERTYPE_ARP: u16 = 0x0806;

/// ARP hardware type of Ethernet.
pub const HARDWARE_TYPE_ETHERNET: u16 = 1;

/// ARP operation code of a request.
pub const OPERATION_REQUEST: u16 = 1;

/// ARP operation code of a reply.
pub const OPERATION_REPLY: u16 = 2;

/// The 16-bit value whose big-endian bytes are `hi`, `lo`.
pub open spec fn be16(hi: u8, lo: u8) -> u16 {
    (hi as int * 256 + lo as int) as u16
}

/// The more significant byte of `v`.
pub open spec fn high_byte(v: u16) -> u8 {
    (v as int / 256) as u8
}

/// The less significant byte of `v`.
pub open spec fn low_byte(v: u16) -> u8 {
    (v as int % 256) as u8
}

/// The hardware address held in the six bytes of `bytes` from `at` on.
pub open spec fn mac_at(bytes: Seq<u8>, at: int) -> MacAddress {
    MacAddress(
        bytes[at],
        bytes[at + 1],
        bytes[at + 2],
        bytes[at + 3],
        bytes[at + 4],
        bytes[at + 5],
    )
}

/// The protocol address held in the four bytes of `bytes` from `at` on.
pub open spec fn ipv4_at(bytes: Seq<u8>, at: int) -> Ipv4Address {
    Ipv4Address(bytes[at], bytes[at + 1], bytes[at + 2], bytes[at + 3])
}

/// An Ethernet II header.
#[derive(Clone, Copy, Debug, PartialEq, Eq, Structural)]
pub struct EthernetHeader {
    pub destination: MacAddress,
    pub source: MacAddress,
    pub ethertype: u16,
}

/// An ARP packet for IPv4 over Ethernet.
#[derive(Clone, Copy, Debug, PartialEq, Eq, Structural)]
pub struct ArpPacket {
    pub hardware_type: u16,
    pub protocol_type: u16,
    pub hw_addr_len: u8,
    pub proto_addr_len: u8,
    pub operation: u16,
    pub sender_hw_addr: MacAddress,
    pub sender_proto_addr: Ipv4Address,
    pub target_hw_addr: MacAddress,
    pub target_proto_addr: Ipv4Address,
}

/// Reads the big-endian 16-bit value at `at`.
fn read_be16(bytes: &[u8], at: usize) -> (v: u16)
    requires
        at + 2 <= bytes@.len(),
    ensures
        v == be16(bytes@[at as int], bytes@[at + 1]),
{
    (bytes[at] as u16) * 256 + (bytes[at + 1] as u16)
}

/// Reads the hardware address at `at`.
fn read_mac(bytes: &[u8], at: usize) -> (mac: MacAddress)
    requires
        at + 6 <= bytes@.len(),
    ensures
        mac == mac_at(bytes@, at as int),
{
    MacAddress(
        bytes[at],
        bytes[at + 1],
        bytes[at + 2],
        bytes[at + 3],
        bytes[at + 4],
        bytes[at + 5],
    )
}

/// Reads the protocol address at `at`.
fn read_ipv4(bytes: &[u8], at: usize) -> (ip: Ipv4Address)
    requires
        at + 4 <= bytes@.len(),
    ensures
        ip == ipv4_at(bytes@, at as int),
{
    Ipv4Address(bytes[at], bytes[at + 1], bytes[at + 2], bytes[at + 3])
}

/// The two bytes of `v`, the more significant first.
fn split_be16(v: u16) -> (bytes: (u8, u8))
    ensures
        bytes.0 == high_byte(v),
        bytes.1 == low_byte(v),
{
    ((v / 256) as u8, (v % 256) as u8)
}

impl EthernetHeader {
    /// The 14 bytes this header is written as.
    pub open spec fn wire(self) -> Seq<u8> {
        self.destination.octets() + self.source.octets() + seq![
            high_byte(self.ethertype),
            low_byte(self.ethertype),
        ]
    }

    /// The header that the first 14 bytes of `bytes` hold, if there are that many.
    pub open spec fn decode(bytes: Seq<u8>) -> Option<EthernetHeader> {
        if bytes.len() >= ETHERNET_HEADER_LEN {
            Some(
                EthernetHeader {
                    destination: mac_at(bytes, 0),
                    source: mac_at(bytes, 6),
                    ethertype: be16(bytes[12], bytes[13]),
                },
            )
        } else {
            None
        }
    }

    /// Reads the header at the start of a frame.
    pub fn parse(bytes: &[u8]) -> (header: Option<EthernetHeader>)
        ensures
            header == Self::decode(bytes@),
    {
        if bytes.len() < ETHERNET_HEADER_LEN {
            return None;
        }
        Some(
            EthernetHeader {
                destination: read_mac(bytes, 0),
                source: read_mac(bytes, 6),
                ethertype: read_be16(bytes, 12),
            },
        )
    }

    /// Writes the header out.
    pub fn to_bytes(&self) -> (bytes: [u8; 14])
        ensures
            bytes@ == self.wire(),
    {
        let d = self.destination;
        let s = self.source;
        let (t_hi, t_lo) = split_be16(self.ethertype);
        let bytes: [u8; 14] = [d.0, d.1, d.2, d.3, d.4, d.5, s.0, s.1, s.2, s.3, s.4, s.5, t_hi, t_lo];
        assert(bytes@ =~= self.wire());
        bytes
    }
}

impl ArpPacket {
    /// The 28 bytes this packet is written as.
    pub open spec fn wire(self) -> Seq<u8> {
        seq![
            high_byte(self.hardware_type),
            low_byte(self.hardware_type),
            high_byte(self.protocol_type),
            low_byte(self.protocol_type),
            self.hw_addr_len,
            self.proto_addr_len,
            high_byte(self.operation),
            low_byte(self.operation),
        ] + self.sender_hw_addr.octets() + self.sender_proto_addr.octets()
            + self.target_hw_addr.octets() + self.target_proto_addr.octets()
    }

    /// The packet that the first 28 bytes of `bytes` hold, if there are that many.
    /// The two length fields are read, never interpreted: the addresses are
    /// taken at the offsets that IPv4 over Ethernet gives them.
    pub open spec fn decode(bytes: Seq<u8>) -> Option<ArpPacket> {
        if bytes.len() >= ARP_PACKET_LEN {
            Some(
                ArpPacket {
                    hardware_type: be16(bytes[0], bytes[1]),
                    protocol_type: be16(bytes[2], bytes[3]),
                    hw_addr_len: bytes[4],
                    proto_addr_len: bytes[5],
                    operation: be16(bytes[6], bytes[7]),
                    sender_hw_addr: mac_at(bytes, 8),
                    sender_proto_addr: ipv4_at(bytes, 14),
                    target_hw_addr: mac_at(bytes, 18),
                    target_proto_addr: ipv4_at(bytes, 24),
                },
            )
        } else {
            None
        }
    }

    /// Reads the packet at the start of an Ethernet payload.
    pub fn parse(bytes: &[u8]) -> (packet: Option<ArpPacket>)
        ensures
            packet == Self::decode(bytes@),
    {
        if bytes.len() < ARP_PACKET_LEN {
            return None;
        }
        Some(
            ArpPacket {
                hardware_type: read_be16(bytes, 0),
                protocol_type: read_be16(bytes, 2),
                hw_addr_len: bytes[4],
                proto_addr_len: bytes[5],
                operation: read_be16(bytes, 6),
                sender_hw_addr: read_mac(bytes, 8),
                sender_proto_addr: read_ipv4(bytes, 14),
                target_hw_addr: read_mac(bytes, 18),
                target_proto_addr: read_ipv4(bytes, 24),
            },
        )
    }

    /// Writes the packet out.
    pub fn to_bytes(&self) -> (bytes: [u8; 28])
        ensures
            bytes@ == self.wire(),
    {
        let (h_hi, h_lo) = split_be16(self.hardware_type);
        let (p_hi, p_lo) = split_be16(self.protocol_type);
        let (o_hi, o_lo) = split_be16(self.operation);
        let sh = self.sender_hw_addr;
        let sp = self.sender_proto_addr;
        let th = self.target_hw_addr;
        let tp = self.target_proto_addr;
        let bytes: [u8; 28] = [
            h_hi, h_lo, p_hi, p_lo, self.hw_addr_len, self.proto_addr_len, o_hi, o_lo,
            sh.0, sh.1, sh.2, sh.3, sh.4, sh.5, sp.0, sp.1, sp.2, sp.3,
            th.0, th.1, th.2, th.3, th.4, th.5, tp.0, tp.1, tp.2, tp.3,
        ];
        assert(bytes@ =~= self.wire());
        bytes
    }
}

/// The Ethernet header of a reply sent by `sender_mac` to `destination_mac`.
pub open spec fn reply_header(sender_mac: MacAddress, destination_mac: MacAddress) -> EthernetHeader {
    EthernetHeader { destination: destination_mac, source: sender_mac, ethertype: ETHERTYPE_ARP }
}

/// The ARP reply in which `sender_ip` is announced to be at `sender_mac`,
/// addressed to the requester at `destination_ip` / `destination_mac`.
pub open spec fn reply_packet(
    sender_ip: Ipv4Address,
    sender_mac: MacAddress,
    destination_ip: Ipv4Address,
    destination_mac: MacAddress,
) -> ArpPacket {
    ArpPacket {
        hardware_type: HARDWARE_TYPE_ETHERNET,
        protocol_type: ETHERTYPE_IPV4,
        hw_addr_len: 6,
        proto_addr_len: 4,
        operation: OPERATION_REPLY,
        sender_hw_addr: sender_mac,
        sender_proto_addr: sender_ip,
        target_hw_addr: destination_mac,
        target_proto_addr: destination_ip,
    }
}

/// The 42 bytes of the reply frame: the header, then the packet.
pub open spec fn reply_frame(
    sender_ip: Ipv4Address,
    sender_mac: MacAddress,
    destination_ip: Ipv4Address,
    destination_mac: MacAddress,
) -> Seq<u8> {
    reply_header(sender_mac, destination_mac).wire() + reply_packet(
        sender_ip,
        sender_mac,
        destination_ip,
        destination_mac,
    ).wire()
}

/// Builds the Ethernet frame of an ARP reply: unicast to the requester, with
/// the announced host as the source of both the frame and the ARP packet.
pub fn forge_arp_response(
    sender_ip_address: Ipv4Address,
    sender_mac_address: MacAddress,
    destination_ip_address: Ipv4Address,
    destination_mac_address: MacAddress,
) -> (frame: [u8; 42])
    ensures
        frame@ == reply_frame(
            sender_ip_address,
            sender_mac_address,
            destination_ip_address,
            destination_mac_address,
        ),
{
    let header = EthernetHeader {
        destination: destination_mac_address,
        source: sender_mac_address,
        ethertype: ETHERTYPE_ARP,
    };
    let packet = ArpPacket {
        hardware_type: HARDWARE_TYPE_ETHERNET,
        protocol_type: ETHERTYPE_IPV4,
        hw_addr_len: 6,
        proto_addr_len: 4,
        operation: OPERATION_REPLY,
        sender_hw_addr: sender_mac_address,
        sender_proto_addr: sender_ip_address,
        target_hw_addr: destination_mac_address,
        target_proto_addr: destination_ip_address,
    };
    let h = header.to_bytes();
    let p = packet.to_bytes();
    let frame: [u8; 42] = [
        h[0], h[1], h[2], h[3], h[4], h[5], h[6], h[7], h[8], h[9], h[10], h[11], h[12], h[13],
        p[0], p[1], p[2], p[3], p[4], p[5], p[6], p[7], p[8], p[9], p[10], p[11], p[12], p[13],
        p[14], p[15], p[16], p[17], p[18], p[19], p[20], p[21], p[22], p[23], p[24], p[25],
        p[26], p[27],
    ];
    assert(frame@ =~= header.wire() + packet.wire());
    frame
}

/// What a frame carries after its Ethernet header; nothing, where the frame
/// is shorter than a header.
pub open spec fn ethernet_payload(frame: Seq<u8>) -> Seq<u8> {
    if frame.len() >= ETHERNET_HEADER_LEN {
        frame.skip(ETHERNET_HEADER_LEN as int)
    } else {
        Seq::empty()
    }
}

/// Reads the ARP packet that follows the Ethernet header of `frame`.
pub fn parse_arp_payload(frame: &[u8]) -> (packet: Option<ArpPacket>)
    ensures
        packet == ArpPacket::decode(ethernet_payload(frame@)),
{
    if frame.len() < ETHERNET_HEADER_LEN {
        return None;
    }
    let payload = slice_subrange(frame, ETHERNET_HEADER_LEN, frame.len());
    assert(payload@ =~= ethernet_payload(frame@));
    ArpPacket::parse(payload)
}

/// A header that is written out and read back is unchanged.
pub proof fn lemma_ethernet_round_trip(header: EthernetHeader)
    ensures
        header.wire().len() == ETHERNET_HEADER_LEN,
        EthernetHeader::decode(header.wire()) == Some(header),
{
    lemma_be16_round_trip(header.ethertype);
}

/// A packet that is written out and read back is unchanged.
pub proof fn lemma_arp_round_trip(packet: ArpPacket)
    ensures
        packet.wire().len() == ARP_PACKET_LEN,
        ArpPacket::decode(packet.wire()) == Some(packet),
{
    lemma_be16_round_trip(packet.hardware_type);
    lemma_be16_round_trip(packet.protocol_type);
    lemma_be16_round_trip(packet.operation);
}

/// Splitting a 16-bit value into its two bytes loses nothing.
pub proof fn lemma_be16_round_trip(v: u16)
    ensures
        be16(high_byte(v), low_byte(v)) == v,
{
}

} // verus!
