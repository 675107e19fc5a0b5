use cetka::packet_log::PacketLog;
use cetka::walker::{
    get_data, load_be16, load_u8, try_ingress, Emission, ETH_P_IP, IP_P_TCP, IP_P_UDP, L3_START,
    UDP_HDR_SIZE,
};

fn put(frame: &mut Vec<u8>, offset: usize, value: u8) {
    if offset < frame.len() {
        frame[offset] = value;
    }
}

fn ipv4_frame(captured: usize, ihl_words: u8, total: u16, protocol: u8) -> Vec<u8> {
    let mut frame = vec![0xa5u8; captured];
    put(&mut frame, 12, 0x08);
    put(&mut frame, 13, 0x00);
    put(&mut frame, 14, 0x40 | ihl_words);
    put(&mut frame, 16, (total >> 8) as u8);
    put(&mut frame, 17, (total & 0xff) as u8);
    put(&mut frame, 23, protocol);
    frame
}

fn tcp_frame(captured: usize, ihl_words: u8, total: u16, data_offset_words: u8) -> Vec<u8> {
    let mut frame = ipv4_frame(captured, ihl_words, total, 6);
    let l4_start = 14 + 4 * ihl_words as usize;
    put(&mut frame, l4_start + 12, (data_offset_words << 4) | 0x0a);
    frame
}

fn udp_frame(captured: usize, ihl_words: u8, udp_len: u16) -> Vec<u8> {
    let mut frame = ipv4_frame(captured, ihl_words, 0, 17);
    let l4_start = 14 + 4 * ihl_words as usize;
    put(&mut frame, l4_start + 4, (udp_len >> 8) as u8);
    put(&mut frame, l4_start + 5, (udp_len & 0xff) as u8);
    frame
}

#[test]
fn constants_have_their_protocol_values() {
    assert_eq!(ETH_P_IP, 0x0800);
    assert_eq!(IP_P_TCP, 6);
    assert_eq!(IP_P_UDP, 17);
    assert_eq!(L3_START, 14);
    assert_eq!(UDP_HDR_SIZE, 8);
}

#[test]
fn load_u8_inside_and_outside() {
    let frame = [10u8, 20, 30];
    assert_eq!(load_u8(&frame, 0), Some(10));
    assert_eq!(load_u8(&frame, 2), Some(30));
    assert_eq!(load_u8(&frame, 3), None);
    assert_eq!(load_u8(&frame, usize::MAX), None);
    assert_eq!(load_u8(&[], 0), None);
}

#[test]
fn load_be16_inside_and_outside() {
    let frame = [0x08u8, 0x00, 0x12, 0x34];
    assert_eq!(load_be16(&frame, 0), Some(0x0800));
    assert_eq!(load_be16(&frame, 1), Some(0x0012));
    assert_eq!(load_be16(&frame, 2), Some(0x1234));
    assert_eq!(load_be16(&frame, 3), None);
    assert_eq!(load_be16(&frame, 4), None);
    assert_eq!(load_be16(&frame, usize::MAX), None);
    assert_eq!(load_be16(&[0xff, 0xff], 0), Some(65535));
}

#[test]
fn plain_tcp_frame_of_minimal_length() {
    let frame = tcp_frame(54, 5, 40, 5);
    assert_eq!(
        try_ingress(&frame),
        Emission::SegmentAndPayload(
            PacketLog { start: 34, len: 20 },
            PacketLog { start: 54, len: 0 }
        )
    );
}

#[test]
fn plain_tcp_frame_of_full_size() {
    let frame = tcp_frame(1514, 5, 1500, 5);
    assert_eq!(
        try_ingress(&frame),
        Emission::SegmentAndPayload(
            PacketLog { start: 34, len: 1480 },
            PacketLog { start: 54, len: 1460 }
        )
    );
}

#[test]
fn plain_tcp_frames_of_many_lengths() {
    let mut total: u16 = 40;
    while total < 2000 {
        let frame = tcp_frame(14 + total as usize, 5, total, 5);
        assert_eq!(
            try_ingress(&frame),
            Emission::SegmentAndPayload(
                PacketLog { start: 34, len: total - 20 },
                PacketLog { start: 54, len: total - 40 }
            )
        );
        total += 97;
    }
}

#[test]
fn tcp_frame_with_trailing_bytes() {
    let frame = tcp_frame(200, 5, 100, 5);
    assert_eq!(
        try_ingress(&frame),
        Emission::SegmentAndPayload(
            PacketLog { start: 34, len: 80 },
            PacketLog { start: 54, len: 60 }
        )
    );
}

#[test]
fn tcp_frame_with_options_in_both_headers() {
    let frame = tcp_frame(114, 6, 100, 8);
    assert_eq!(
        try_ingress(&frame),
        Emission::SegmentAndPayload(
            PacketLog { start: 38, len: 76 },
            PacketLog { start: 70, len: 44 }
        )
    );
}

#[test]
fn tcp_frame_of_the_largest_datagram() {
    let frame = tcp_frame(14 + 65535, 15, 65535, 15);
    assert_eq!(
        try_ingress(&frame),
        Emission::SegmentAndPayload(
            PacketLog { start: 74, len: 65475 },
            PacketLog { start: 134, len: 65415 }
        )
    );
}

#[test]
fn header_lengths_are_taken_as_written() {
    let frame = tcp_frame(54, 0, 40, 5);
    assert_eq!(
        try_ingress(&frame),
        Emission::SegmentAndPayload(
            PacketLog { start: 14, len: 40 },
            PacketLog { start: 34, len: 20 }
        )
    );
}

#[test]
fn tcp_payload_may_be_empty() {
    let frame = tcp_frame(74, 5, 60, 10);
    assert_eq!(
        try_ingress(&frame),
        Emission::SegmentAndPayload(
            PacketLog { start: 34, len: 40 },
            PacketLog { start: 74, len: 0 }
        )
    );
}

#[test]
fn tcp_datagram_shorter_than_ip_header() {
    let frame = tcp_frame(100, 5, 19, 5);
    assert_eq!(try_ingress(&frame), Emission::Nothing);
    let frame = tcp_frame(100, 5, 0, 5);
    assert_eq!(try_ingress(&frame), Emission::Nothing);
}

#[test]
fn tcp_datagram_shorter_than_both_headers() {
    let frame = tcp_frame(100, 5, 39, 5);
    assert_eq!(try_ingress(&frame), Emission::Nothing);
    let frame = tcp_frame(100, 5, 20, 5);
    assert_eq!(try_ingress(&frame), Emission::Nothing);
    let frame = tcp_frame(200, 5, 79, 15);
    assert_eq!(try_ingress(&frame), Emission::Nothing);
    let frame = tcp_frame(200, 5, 80, 15);
    assert_eq!(
        try_ingress(&frame),
        Emission::SegmentAndPayload(
            PacketLog { start: 34, len: 60 },
            PacketLog { start: 94, len: 0 }
        )
    );
}

#[test]
fn tcp_datagram_longer_than_captured() {
    let frame = tcp_frame(113, 5, 100, 5);
    assert_eq!(try_ingress(&frame), Emission::Nothing);
    let frame = tcp_frame(114, 5, 100, 5);
    assert_eq!(
        try_ingress(&frame),
        Emission::SegmentAndPayload(
            PacketLog { start: 34, len: 80 },
            PacketLog { start: 54, len: 60 }
        )
    );
    let frame = tcp_frame(60, 5, 65535, 5);
    assert_eq!(try_ingress(&frame), Emission::Nothing);
}

#[test]
fn tcp_frame_without_its_data_offset_byte() {
    let frame = tcp_frame(46, 5, 20, 5);
    assert_eq!(try_ingress(&frame), Emission::Nothing);
    let frame = tcp_frame(24, 5, 0, 5);
    assert_eq!(try_ingress(&frame), Emission::Nothing);
}

#[test]
fn plain_udp_frame_of_minimal_length() {
    let frame = udp_frame(42, 5, 8);
    assert_eq!(try_ingress(&frame), Emission::Payload(PacketLog { start: 42, len: 0 }));
}

#[test]
fn plain_udp_frame_with_payload() {
    let frame = udp_frame(134, 5, 100);
    assert_eq!(try_ingress(&frame), Emission::Payload(PacketLog { start: 42, len: 92 }));
}

#[test]
fn plain_udp_frames_of_many_lengths() {
    let mut udp_len: u16 = 8;
    while udp_len < 1500 {
        let frame = udp_frame(34 + udp_len as usize, 5, udp_len);
        assert_eq!(
            try_ingress(&frame),
            Emission::Payload(PacketLog { start: 42, len: udp_len - 8 })
        );
        udp_len += 53;
    }
}

#[test]
fn udp_frame_of_the_largest_datagram() {
    let frame = udp_frame(34 + 65535, 5, 65535);
    assert_eq!(try_ingress(&frame), Emission::Payload(PacketLog { start: 42, len: 65527 }));
}

#[test]
fn udp_frame_with_ip_options() {
    let frame = udp_frame(200, 15, 20);
    assert_eq!(try_ingress(&frame), Emission::Payload(PacketLog { start: 82, len: 12 }));
}

#[test]
fn udp_ignores_the_ip_total_length() {
    let mut frame = udp_frame(134, 5, 100);
    frame[16] = 0;
    frame[17] = 3;
    assert_eq!(try_ingress(&frame), Emission::Payload(PacketLog { start: 42, len: 92 }));
}

#[test]
fn udp_length_below_header_size() {
    for udp_len in 0..8u16 {
        let frame = udp_frame(200, 5, udp_len);
        assert_eq!(try_ingress(&frame), Emission::Nothing);
    }
}

#[test]
fn udp_datagram_longer_than_captured() {
    let frame = udp_frame(133, 5, 100);
    assert_eq!(try_ingress(&frame), Emission::Nothing);
    let frame = udp_frame(42, 5, 9);
    assert_eq!(try_ingress(&frame), Emission::Nothing);
    let frame = udp_frame(64, 5, 65535);
    assert_eq!(try_ingress(&frame), Emission::Nothing);
}

#[test]
fn udp_frame_without_its_length_field() {
    let frame = udp_frame(39, 5, 8);
    assert_eq!(try_ingress(&frame), Emission::Nothing);
    let frame = udp_frame(38, 5, 8);
    assert_eq!(try_ingress(&frame), Emission::Nothing);
}

#[test]
fn other_ether_types_give_nothing() {
    for ether_type in [0x86ddu16, 0x0806, 0x8100, 0x0008, 0x0000, 0xffff, 0x0801, 0x07ff] {
        let mut frame = tcp_frame(54, 5, 40, 5);
        frame[12] = (ether_type >> 8) as u8;
        frame[13] = (ether_type & 0xff) as u8;
        assert_eq!(try_ingress(&frame), Emission::Nothing);
        let mut frame = udp_frame(134, 5, 100);
        frame[12] = (ether_type >> 8) as u8;
        frame[13] = (ether_type & 0xff) as u8;
        assert_eq!(try_ingress(&frame), Emission::Nothing);
    }
}

#[test]
fn other_protocols_give_nothing() {
    for protocol in 0..=255u8 {
        if protocol == 6 || protocol == 17 {
            continue;
        }
        let mut frame = tcp_frame(200, 5, 100, 5);
        frame[23] = protocol;
        frame[38] = 0;
        frame[39] = 100;
        assert_eq!(try_ingress(&frame), Emission::Nothing);
    }
}

#[test]
fn frames_too_short_for_their_headers() {
    for captured in 0..24 {
        let frame = tcp_frame(captured, 5, 40, 5);
        assert_eq!(try_ingress(&frame), Emission::Nothing);
        let frame = udp_frame(captured, 5, 8);
        assert_eq!(try_ingress(&frame), Emission::Nothing);
    }
    assert_eq!(try_ingress(&[]), Emission::Nothing);
}

#[test]
fn get_data_does_not_look_at_the_ether_type() {
    let mut frame = udp_frame(134, 5, 100);
    frame[12] = 0x86;
    frame[13] = 0xdd;
    assert_eq!(get_data(&frame), Emission::Payload(PacketLog { start: 42, len: 92 }));
    assert_eq!(try_ingress(&frame), Emission::Nothing);
}

#[test]
fn descriptors_stay_inside_the_frame() {
    let mut seed: u32 = 0x2545_f491;
    for _ in 0..2000 {
        let mut frame = vec![0u8; 24 + (seed % 120) as usize];
        for byte in frame.iter_mut() {
            seed = seed.wrapping_mul(1_664_525).wrapping_add(1_013_904_223);
            *byte = (seed >> 24) as u8;
        }
        frame[12] = 0x08;
        frame[13] = 0x00;
        frame[16] = 0;
        frame[23] = if seed & 1 == 0 { 6 } else { 17 };
        let captured = frame.len();
        match try_ingress(&frame) {
            Emission::Nothing => {}
            Emission::Payload(payload) => {
                assert!(payload.start as usize + payload.len as usize <= captured);
            }
            Emission::SegmentAndPayload(segment, payload) => {
                assert!(segment.start as usize + segment.len as usize <= captured);
                assert!(payload.start as usize + payload.len as usize <= captured);
                assert!(segment.start <= payload.start);
                assert_eq!(
                    segment.start as usize + segment.len as usize,
                    payload.start as usize + payload.len as usize
                );
            }
        }
    }
}

#[test]
fn count_of_each_emission() {
    let log = PacketLog { start: 1, len: 2 };
    assert_eq!(Emission::Nothing.count(), 0);
    assert_eq!(Emission::Payload(log).count(), 1);
    assert_eq!(Emission::SegmentAndPayload(log, log).count(), 2);
    assert_eq!(try_ingress(&tcp_frame(54, 5, 40, 5)).count(), 2);
    assert_eq!(try_ingress(&udp_frame(42, 5, 8)).count(), 1);
    assert_eq!(try_ingress(&[0u8; 64]).count(), 0);
}
