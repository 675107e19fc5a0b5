//! The header walker: one bounded pass over a captured frame that finds where
//! the transport segment and its payload lie.
//!
//! Every read is preceded by a test that the bytes exist, and every length is
//! validated before it is subtracted from: a frame that is truncated, or whose
//! header fields contradict one another, yields no descriptor at all. Such a
//! frame is passed over in silence. It is neither counted nor logged, and it
//! goes on through the network stack like any other.
//!
//! The walk allocates nothing and has no loop: which reads are made depends
//! on the protocol alone, never on a length found in the frame.

use vstd::prelude::*;
use crate::packet_log::PacketLog;

verus! {

/// EtherType of IPv4.
pub const ETH_P_IP: u16 = 0x0800;

/// IP protocol number of TCP.
pub const IP_P_TCP: u8 = 6;

/// IP protocol number of UDP.
pub const IP_P_UDP: u8 = 17;

/// Offset of the network-layer header, behind a 14-byte link header.
pub const L3_START: usize = 14;

/// Size of a UDP header.
pub const UDP_HDR_SIZE: u16 = 8;

/// What one frame gives rise to: nothing, the payload of a UDP datagram, or
/// a TCP segment followed by its payload.
#[derive(Clone, Copy, Debug, PartialEq, Eq, Structural)]
pub enum Emission {
    /// The frame is not IPv4, carries neither TCP nor UDP, is truncated, or
    /// its lengths do not add up.
    Nothing,
    /// The payload of a UDP datagram.
    Payload(PacketLog),
    /// A TCP segment (header and payload), then its payload alone.
    SegmentAndPayload(PacketLog, PacketLog),
}

impl View for Emission {
    type V = Seq<PacketLog>;

    /// The descriptors in the order in which they are emitted.
    open spec fn view(&self) -> Seq<PacketLog> {
        match *self {
            Emission::Nothing => seq![],
            Emission::Payload(payload) => seq![payload],
            Emission::SegmentAndPayload(segment, payload) => seq![segment, payload],
        }
    }
}

impl Emission {
    /// Whether every descriptor lies inside a frame of `frame_len` captured
    /// bytes.
    pub open spec fn within(self, frame_len: int) -> bool {
        forall|i: int| 0 <= i < self@.len() ==> (#[trigger] self@[i]).within(frame_len)
    }

    /// How many descriptors there are: zero, one or two.
    pub fn count(&self) -> (n: usize)
        ensures
            n == self@.len(),
    {
        match self {
            Emission::Nothing => 0,
            Emission::Payload(_) => 1,
            Emission::SegmentAndPayload(_, _) => 2,
        }
    }
}

/// The byte at `offset`, where the frame has one.
pub open spec fn byte_at(frame: Seq<u8>, offset: int) -> Option<u8> {
    if 0 <= offset < frame.len() {
        Some(frame[offset])
    } else {
        None
    }
}

/// The two bytes at `offset` as a 16-bit number in network byte order, where
/// the frame has both.
pub open spec fn be16_at(frame: Seq<u8>, offset: int) -> Option<u16> {
    if 0 <= offset && offset + 2 <= frame.len() {
        Some((frame[offset] * 256 + frame[offset + 1]) as u16)
    } else {
        None
    }
}

/// Length in bytes of the IP header whose first byte is `version_ihl`: the
/// low nibble counts 32-bit words.
pub open spec fn ip_header_len(version_ihl: u8) -> int {
    (version_ihl % 16) * 4
}

/// Length in bytes of the TCP header whose data-offset byte is `data_offset`:
/// the high nibble counts 32-bit words.
pub open spec fn tcp_header_len(data_offset: u8) -> int {
    (data_offset / 16) * 4
}

/// The descriptors of a TCP segment that starts `ihl` bytes into an IP
/// datagram of `total` bytes.
///
/// Both are emitted or neither: the data-offset byte must exist, the IP
/// header must fit in the datagram, the TCP header in what is left, and the
/// whole datagram in the captured frame.
pub open spec fn tcp_descriptors(frame: Seq<u8>, ihl: int, total: int) -> Emission {
    let l4_start = L3_START + ihl;
    match byte_at(frame, l4_start + 12) {
        Some(data_offset) => {
            let thl = tcp_header_len(data_offset);
            if ihl + thl <= total && L3_START + total <= frame.len() {
                Emission::SegmentAndPayload(
                    PacketLog { start: l4_start as u16, len: (total - ihl) as u16 },
                    PacketLog { start: (l4_start + thl) as u16, len: (total - ihl - thl) as u16 },
                )
            } else {
                Emission::Nothing
            }
        },
        None => Emission::Nothing,
    }
}

/// The descriptor of the payload of a UDP datagram that starts `ihl` bytes
/// into an IP datagram.
///
/// It is emitted when the UDP length field exists, covers at least the UDP
/// header, and the datagram it announces lies inside the captured frame.
pub open spec fn udp_descriptors(frame: Seq<u8>, ihl: int) -> Emission {
    let l4_start = L3_START + ihl;
    match be16_at(frame, l4_start + 4) {
        Some(udp_len) => {
            if UDP_HDR_SIZE <= udp_len && l4_start + udp_len <= frame.len() {
                Emission::Payload(
                    PacketLog {
                        start: (l4_start + UDP_HDR_SIZE) as u16,
                        len: (udp_len - UDP_HDR_SIZE) as u16,
                    },
                )
            } else {
                Emission::Nothing
            }
        },
        None => Emission::Nothing,
    }
}

/// The descriptors of a frame that is known to carry IPv4.
///
/// The header-length byte, the total length and the protocol byte are read
/// first, all three; then the protocol decides.
pub open spec fn ipv4_descriptors(frame: Seq<u8>) -> Emission {
    match (byte_at(frame, L3_START as int), be16_at(frame, L3_START + 2), byte_at(frame, L3_START + 9)) {
        (Some(version_ihl), Some(total), Some(protocol)) => {
            let ihl = ip_header_len(version_ihl);
            if protocol == IP_P_TCP {
                tcp_descriptors(frame, ihl, total as int)
            } else if protocol == IP_P_UDP {
                udp_descriptors(frame, ihl)
            } else {
                Emission::Nothing
            }
        },
        _ => Emission::Nothing,
    }
}

/// The descriptors of a captured frame.
pub open spec fn frame_descriptors(frame: Seq<u8>) -> Emission {
    if be16_at(frame, 12) == Some(ETH_P_IP) {
        ipv4_descriptors(frame)
    } else {
        Emission::Nothing
    }
}

/// Reads one byte, after testing that the frame has it.
pub fn load_u8(frame: &[u8], offset: usize) -> (value: Option<u8>)
    ensures
        value == byte_at(frame@, offset as int),
{
    if offset < frame.len() {
        Some(frame[offset])
    } else {
        None
    }
}

/// Reads a 16-bit number in network byte order, after testing that the frame
/// has both of its bytes.
pub fn load_be16(frame: &[u8], offset: usize) -> (value: Option<u16>)
    ensures
        value == be16_at(frame@, offset as int),
{
    if offset < frame.len() && frame.len() - offset >= 2 {
        let high: u16 = frame[offset] as u16;
        let low: u16 = frame[offset + 1] as u16;
        Some(high * 256 + low)
    } else {
        None
    }
}

/// Walks the IPv4 header and the transport header behind it.
///
/// No subtraction is made before its operands are compared, and no descriptor
/// is produced before all of them are known to lie inside the frame.
pub fn get_data(frame: &[u8]) -> (emission: Emission)
    ensures
        emission == ipv4_descriptors(frame@),
        emission.within(frame@.len() as int),
{
    let version_ihl: u8 = match load_u8(frame, L3_START) {
        Some(byte) => byte,
        None => { return Emission::Nothing; },
    };
    let total: u16 = match load_be16(frame, L3_START + 2) {
        Some(value) => value,
        None => { return Emission::Nothing; },
    };
    let protocol: u8 = match load_u8(frame, L3_START + 9) {
        Some(byte) => byte,
        None => { return Emission::Nothing; },
    };
    let nibble: u8 = version_ihl & 0x0f;
    assert(nibble == version_ihl % 16) by (bit_vector)
        requires
            nibble == version_ihl & 0x0f,
    ;
    let ihl: u16 = nibble as u16 * 4;
    let l4_start: u16 = L3_START as u16 + ihl;

    if protocol == IP_P_TCP {
        let data_offset: u8 = match load_u8(frame, l4_start as usize + 12) {
            Some(byte) => byte,
            None => { return Emission::Nothing; },
        };
        let words: u8 = data_offset >> 4;
        assert(words == data_offset / 16) by (bit_vector)
            requires
                words == data_offset >> 4,
        ;
        let thl: u16 = words as u16 * 4;
        if total < ihl || total - ihl < thl {
            return Emission::Nothing;
        }
        if frame.len() < L3_START || frame.len() - L3_START < total as usize {
            return Emission::Nothing;
        }
        let segment = PacketLog { start: l4_start, len: total - ihl };
        let payload = PacketLog { start: l4_start + thl, len: total - ihl - thl };
        Emission::SegmentAndPayload(segment, payload)
    } else if protocol == IP_P_UDP {
        let udp_len: u16 = match load_be16(frame, l4_start as usize + 4) {
            Some(value) => value,
            None => { return Emission::Nothing; },
        };
        if udp_len < UDP_HDR_SIZE {
            return Emission::Nothing;
        }
        if frame.len() - (l4_start as usize) < udp_len as usize {
            return Emission::Nothing;
        }
        let payload = PacketLog { start: l4_start + UDP_HDR_SIZE, len: udp_len - UDP_HDR_SIZE };
        Emission::Payload(payload)
    } else {
        Emission::Nothing
    }
}

/// Classifies a frame by its EtherType and walks it if it carries IPv4.
pub fn try_ingress(frame: &[u8]) -> (emission: Emission)
    ensures
        emission == frame_descriptors(frame@),
        emission.within(frame@.len() as int),
{
    match load_be16(frame, 12) {
        Some(h_proto) => {
            if h_proto != ETH_P_IP {
                return Emission::Nothing;
            }
        },
        None => { return Emission::Nothing; },
    }
    get_data(frame)
}

/// A frame whose EtherType is missing or is not that of IPv4 gives no
/// descriptor.
pub proof fn lemma_other_ether_type(frame: Seq<u8>)
    requires
        be16_at(frame, 12) != Some(ETH_P_IP),
    ensures
        frame_descriptors(frame) == Emission::Nothing,
{
}

/// A frame whose IP protocol byte is missing, or names neither TCP nor UDP,
/// gives no descriptor.
pub proof fn lemma_other_protocol(frame: Seq<u8>)
    requires
        byte_at(frame, L3_START + 9) != Some(IP_P_TCP),
        byte_at(frame, L3_START + 9) != Some(IP_P_UDP),
    ensures
        frame_descriptors(frame) == Emission::Nothing,
{
}

/// An IPv4 frame that carries TCP, with an IP header of 20 bytes, a TCP
/// header of 20 bytes and an IP datagram of `total` bytes, at least 40, all
/// of which were captured, gives two descriptors: the segment at offset 34
/// with `total - 20` bytes, then the payload at offset 54 with `total - 40`.
pub proof fn lemma_plain_tcp_frame(frame: Seq<u8>, total: u16)
    requires
        be16_at(frame, 12) == Some(ETH_P_IP),
        be16_at(frame, L3_START + 2) == Some(total),
        byte_at(frame, L3_START + 9) == Some(IP_P_TCP),
        40 <= total,
        L3_START + total <= frame.len(),
        ip_header_len(frame[L3_START as int]) == 20,
        tcp_header_len(frame[46]) == 20,
    ensures
        frame_descriptors(frame) == Emission::SegmentAndPayload(
            PacketLog { start: 34, len: (total - 20) as u16 },
            PacketLog { start: 54, len: (total - 40) as u16 },
        ),
{
}

/// An IPv4 frame that carries UDP, with an IP header of 20 bytes and a UDP
/// length field of `udp_len`, at least 8, whose datagram was captured whole,
/// gives one descriptor: the payload at offset 42 with `udp_len - 8` bytes.
pub proof fn lemma_plain_udp_frame(frame: Seq<u8>, udp_len: u16)
    requires
        be16_at(frame, 12) == Some(ETH_P_IP),
        byte_at(frame, L3_START + 9) == Some(IP_P_UDP),
        be16_at(frame, 38) == Some(udp_len),
        8 <= udp_len,
        34 + udp_len <= frame.len(),
        ip_header_len(frame[L3_START as int]) == 20,
    ensures
        frame_descriptors(frame) == Emission::Payload(
            PacketLog { start: 42, len: (udp_len - 8) as u16 },
        ),
{
}

/// A UDP length field that is missing, or smaller than the UDP header, gives
/// no descriptor: the header's size is never subtracted from less.
pub proof fn lemma_short_udp_length(frame: Seq<u8>)
    requires
        byte_at(frame, L3_START + 9) == Some(IP_P_UDP),
        match be16_at(frame, L3_START + ip_header_len(frame[L3_START as int]) + 4) {
            Some(udp_len) => udp_len < UDP_HDR_SIZE,
            None => true,
        },
    ensures
        frame_descriptors(frame) == Emission::Nothing,
{
}

/// A UDP datagram that, by its length field, ends past the captured bytes
/// gives no descriptor.
pub proof fn lemma_truncated_udp(frame: Seq<u8>, udp_len: u16)
    requires
        byte_at(frame, L3_START + 9) == Some(IP_P_UDP),
        be16_at(frame, L3_START + ip_header_len(frame[L3_START as int]) + 4) == Some(udp_len),
        L3_START + ip_header_len(frame[L3_START as int]) + udp_len > frame.len(),
    ensures
        frame_descriptors(frame) == Emission::Nothing,
{
}

/// An IP datagram that carries TCP and, by its total length, ends past the
/// captured bytes gives no descriptor.
pub proof fn lemma_truncated_tcp(frame: Seq<u8>, total: u16)
    requires
        byte_at(frame, L3_START + 9) == Some(IP_P_TCP),
        be16_at(frame, L3_START + 2) == Some(total),
        L3_START + total > frame.len(),
    ensures
        frame_descriptors(frame) == Emission::Nothing,
{
}

/// An IP datagram that carries TCP and is shorter than its IP header and its
/// TCP header together gives no descriptor: neither header length is ever
/// subtracted from less.
pub proof fn lemma_tcp_headers_exceed_datagram(frame: Seq<u8>, total: u16)
    requires
        byte_at(frame, L3_START + 9) == Some(IP_P_TCP),
        be16_at(frame, L3_START + 2) == Some(total),
        match byte_at(frame, L3_START + ip_header_len(frame[L3_START as int]) + 12) {
            Some(data_offset) => ip_header_len(frame[L3_START as int]) + tcp_header_len(data_offset) > total,
            None => true,
        },
    ensures
        frame_descriptors(frame) == Emission::Nothing,
{
}

/// Whatever a frame holds, each descriptor it gives lies inside the captured
/// bytes, and the two of a TCP frame end at the same place, the payload
/// inside the segment.
pub proof fn lemma_descriptors_within(frame: Seq<u8>)
    ensures
        frame_descriptors(frame).within(frame.len() as int),
        match frame_descriptors(frame) {
            Emission::SegmentAndPayload(segment, payload) => {
                &&& segment.start <= payload.start
                &&& payload.end() == segment.end()
            },
            _ => true,
        },
{
}

} // verus!
