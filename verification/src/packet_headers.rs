//! Reading the headers of a raw frame: Ethernet, then IPv4, then the pair of ports that
//! TCP and UDP both start with.
use vstd::prelude::*;

verus! {

/// The length of the Ethernet header that every frame starts with.
pub const ETHERNET_HEADER_LEN: usize = 14;

/// The length of an IPv4 header without options.
pub const MIN_IPV4_HEADER_LEN: usize = 20;

/// The transport protocols whose ports are read.
#[derive(Debug, Clone, Copy, PartialEq, Eq, Structural)]
pub enum TransportProtocol {
    Tcp,
    Udp,
}

/// What is read from one frame.
#[derive(Debug, Clone, Copy, PartialEq, Eq)]
pub struct DecodedHeaders {
    pub src_ip: [u8; 4],
    pub dst_ip: [u8; 4],
    pub src_port: u16,
    pub dst_port: u16,
    pub protocol: TransportProtocol,
}

impl TransportProtocol {
    /// The name of the protocol as rules write it.
    pub open spec fn name(self) -> Seq<char> {
        match self {
            TransportProtocol::Tcp => "tcp"@,
            TransportProtocol::Udp => "udp"@,
        }
    }

    /// The name of the protocol as rules write it.
    pub fn as_str(&self) -> (s: &'static str)
        ensures
            s@ == self.name(),
    {
        match self {
            TransportProtocol::Tcp => "tcp",
            TransportProtocol::Udp => "udp",
        }
    }
}

/// The protocol that a value of the IPv4 protocol field stands for: 6 is TCP, 17 is UDP.
pub open spec fn transport_of(number: u8) -> Option<TransportProtocol> {
    if number == 6 {
        Some(TransportProtocol::Tcp)
    } else if number == 17 {
        Some(TransportProtocol::Udp)
    } else {
        None
    }
}

/// The EtherType of a frame: the two bytes at offset 12, big-endian.
pub open spec fn ether_type(frame: Seq<u8>) -> int
    recommends
        frame.len() >= 14,
{
    frame[12] * 256 + frame[13]
}

/// The length of the IPv4 header in bytes: four times the low half of its first byte.
pub open spec fn ip_header_len(frame: Seq<u8>) -> int
    recommends
        frame.len() >= 15,
{
    (frame[14] % 16) * 4
}

/// Where the transport header starts.
pub open spec fn transport_offset(frame: Seq<u8>) -> int {
    14 + ip_header_len(frame)
}

/// The four bytes of the address that starts at `at`.
pub open spec fn address_at(frame: Seq<u8>, at: int) -> [u8; 4]
    recommends
        0 <= at,
        at + 4 <= frame.len(),
{
    [frame[at], frame[at + 1], frame[at + 2], frame[at + 3]]
}

/// The port in the two bytes at `at`, big-endian.
pub open spec fn port_at(frame: Seq<u8>, at: int) -> u16
    recommends
        0 <= at,
        at + 2 <= frame.len(),
{
    (frame[at] * 256 + frame[at + 1]) as u16
}

/// Whether headers can be read from the frame: it holds an Ethernet header and a minimal
/// IPv4 header, says so in its EtherType, carries TCP or UDP, and reaches to the end of
/// the two ports.
pub open spec fn decodable(frame: Seq<u8>) -> bool {
    &&& frame.len() >= 34
    &&& ether_type(frame) == 0x0800
    &&& transport_of(frame[23]) is Some
    &&& frame.len() >= transport_offset(frame) + 4
}

/// The headers of a frame, if it is decodable: the addresses from the fixed places of the
/// IPv4 header, the ports from the first four bytes after it.
pub open spec fn decode(frame: Seq<u8>) -> Option<DecodedHeaders> {
    if decodable(frame) {
        Some(
            DecodedHeaders {
                src_ip: address_at(frame, 26),
                dst_ip: address_at(frame, 30),
                src_port: port_at(frame, transport_offset(frame)),
                dst_port: port_at(frame, transport_offset(frame) + 2),
                protocol: transport_of(frame[23])->0,
            },
        )
    } else {
        None
    }
}

/// Reads the addresses, the ports and the protocol from a raw frame.
///
/// A frame that is too short, is not IPv4, or carries neither TCP nor UDP gives `None`.
/// The length of the IPv4 header is taken as the frame states it.
pub fn parse_packet_headers(data: &[u8]) -> (r: Option<DecodedHeaders>)
    ensures
        r == decode(data@),
{
    if data.len() < ETHERNET_HEADER_LEN + MIN_IPV4_HEADER_LEN {
        return None;
    }
    if data[12] != 0x08 || data[13] != 0x00 {
        return None;
    }
    let first: u8 = data[ETHERNET_HEADER_LEN];
    let ip_header_len: usize = ((first & 0x0f) as usize) * 4;
    assert(first & 0x0f == first % 16) by (bit_vector);
    let protocol = match data[ETHERNET_HEADER_LEN + 9] {
        6 => TransportProtocol::Tcp,
        17 => TransportProtocol::Udp,
        _ => {
            return None;
        },
    };
    let ports: usize = ETHERNET_HEADER_LEN + ip_header_len;
    if data.len() < ports + 4 {
        return None;
    }
    let src_ip: [u8; 4] = [data[26], data[27], data[28], data[29]];
    let dst_ip: [u8; 4] = [data[30], data[31], data[32], data[33]];
    let src_port: u16 = (data[ports] as u16) * 256 + (data[ports + 1] as u16);
    let dst_port: u16 = (data[ports + 2] as u16) * 256 + (data[ports + 3] as u16);
    assert(src_ip =~= address_at(data@, 26));
    assert(dst_ip =~= address_at(data@, 30));
    Some(DecodedHeaders { src_ip, dst_ip, src_port, dst_port, protocol })
}

/// A frame of an Ethernet header, an IPv4 header without options and at least the four
/// bytes of the ports is decoded to the addresses at offsets 26 and 30 and the ports at
/// offsets 34 and 36, whatever else it holds.
pub proof fn law_plain_frame(frame: Seq<u8>)
    requires
        frame.len() >= 38,
        ether_type(frame) == 0x0800,
        frame[14] % 16 == 5,
        transport_of(frame[23]) is Some,
    ensures
        decode(frame) == Some(
            DecodedHeaders {
                src_ip: address_at(frame, 26),
                dst_ip: address_at(frame, 30),
                src_port: port_at(frame, 34),
                dst_port: port_at(frame, 36),
                protocol: transport_of(frame[23])->0,
            },
        ),
        port_at(frame, 34) == frame[34] * 256 + frame[35],
        port_at(frame, 36) == frame[36] * 256 + frame[37],
{
}

/// No headers are read from a frame of fewer than 34 bytes, from one whose EtherType is
/// not `0x0800`, or from one whose IPv4 protocol field is neither 6 nor 17.
pub proof fn law_undecodable_frames(frame: Seq<u8>)
    ensures
        frame.len() < 34 ==> decode(frame) is None,
        ether_type(frame) != 0x0800 ==> decode(frame) is None,
        frame[23] != 6 && frame[23] != 17 ==> decode(frame) is None,
{
}

} // verus!
