use led_hub::packet::{
    color_group_packet, final_packet, init_packet, MODE_BLINK, MODE_FADE, MODE_SEQUENCE,
    MODE_STATIC,
};

/// Reads the nine fields back from the wire bytes, knowing only the layout.
fn decode(bytes: &[u8]) -> Option<(u8, u8, u8, u8, u8, u8, u8, u8, u8)> {
    if bytes.len() != 24 || bytes[0] != 0x35 || bytes[1] != 0x00 {
        return None;
    }
    Some((
        bytes[2], bytes[3], bytes[4], bytes[9], bytes[10], bytes[11], bytes[12], bytes[13],
        bytes[14],
    ))
}

#[test]
fn init_packet_is_three_fixed_bytes() {
    assert_eq!(init_packet().as_slice(), &[0x37u8, 0x00, 0x00][..]);
}

#[test]
fn final_packet_is_two_fixed_bytes() {
    assert_eq!(final_packet().as_slice(), &[0x33u8, 0xFF][..]);
}

#[test]
fn init_and_final_packets_never_change() {
    assert_eq!(init_packet(), init_packet());
    assert_eq!(final_packet(), final_packet());
    assert_ne!(init_packet(), final_packet());
}

#[test]
fn color_group_packet_has_the_exact_layout() {
    let packet = color_group_packet(6, 2, 4, 0, 127, 255, 255, 127, 0);
    let expected: [u8; 24] = [
        0x35, 0x00, 0x06, 0x02, 0x04, 0x02, 0x01, 0x00, 0xFF, 0x00, 0x7F, 0xFF, 0xFF, 0x7F, 0x00,
        0xFF, 0x00, 0x00, 0x09, 0xC4, 0x0D, 0xAC, 0x11, 0x94,
    ];
    assert_eq!(packet.as_slice(), &expected[..]);
}

#[test]
fn color_group_packet_places_every_argument() {
    let packet = color_group_packet(11, 22, 33, 44, 55, 66, 77, 88, 99);
    let bytes = packet.as_slice();
    assert_eq!(bytes.len(), 24);
    assert_eq!(bytes[0], 0x35);
    assert_eq!(bytes[1], 0x00);
    assert_eq!(bytes[2], 11);
    assert_eq!(bytes[3], 22);
    assert_eq!(bytes[4], 33);
    assert_eq!(bytes[8], 0xFF);
    assert_eq!(bytes[9], 44);
    assert_eq!(bytes[10], 55);
    assert_eq!(bytes[11], 66);
    assert_eq!(bytes[12], 77);
    assert_eq!(bytes[13], 88);
    assert_eq!(bytes[14], 99);
    assert_eq!(bytes[15], 0xFF);
}

#[test]
fn color_group_packet_fixes_speed_sequence_and_tail() {
    let packet = color_group_packet(0, 0, 0, 0, 0, 0, 0, 0, 0);
    let bytes = packet.as_slice();
    assert_eq!(bytes[5], 0x02);
    assert_eq!(bytes[6], 0x01);
    assert_eq!(bytes[7], 0x00);
    assert_eq!(&bytes[16..], &[0x00u8, 0x00, 0x09, 0xC4, 0x0D, 0xAC, 0x11, 0x94][..]);
}

#[test]
fn color_group_packet_accepts_the_whole_byte_range() {
    let low = color_group_packet(0, 0, 0, 0, 0, 0, 0, 0, 0);
    assert_eq!(decode(low.as_slice()), Some((0, 0, 0, 0, 0, 0, 0, 0, 0)));
    let high = color_group_packet(255, 255, 255, 255, 255, 255, 255, 255, 255);
    assert_eq!(
        decode(high.as_slice()),
        Some((255, 255, 255, 255, 255, 255, 255, 255, 255))
    );
    assert_eq!(high.as_slice().len(), 24);
}

#[test]
fn color_group_packet_takes_offsets_outside_the_hub() {
    let packet = color_group_packet(200, 9, MODE_STATIC, 1, 2, 3, 4, 5, 6);
    assert_eq!(packet.as_slice()[2], 200);
    assert_eq!(packet.as_slice()[3], 9);
}

#[test]
fn color_group_packet_round_trips_through_an_independent_decoder() {
    let offsets: [u8; 5] = [0, 2, 14, 100, 255];
    let modes: [u8; 4] = [MODE_FADE, MODE_STATIC, MODE_SEQUENCE, MODE_BLINK];
    let mut seed: u8 = 7;
    for offset in offsets.iter() {
        for mode in modes.iter() {
            let count = seed.wrapping_mul(3);
            let r1 = seed.wrapping_add(1);
            let g1 = seed.wrapping_mul(5);
            let b1 = seed.wrapping_add(90);
            let r2 = seed.wrapping_mul(7);
            let g2 = seed.wrapping_add(200);
            let b2 = seed.wrapping_mul(11);
            let packet = color_group_packet(*offset, count, *mode, r1, g1, b1, r2, g2, b2);
            assert_eq!(
                decode(packet.as_slice()),
                Some((*offset, count, *mode, r1, g1, b1, r2, g2, b2))
            );
            seed = seed.wrapping_mul(31).wrapping_add(17);
        }
    }
}

#[test]
fn color_group_packets_differ_where_a_field_differs() {
    let base = color_group_packet(2, 2, 4, 10, 20, 30, 40, 50, 60);
    assert_eq!(base, color_group_packet(2, 2, 4, 10, 20, 30, 40, 50, 60));
    assert_ne!(base, color_group_packet(4, 2, 4, 10, 20, 30, 40, 50, 60));
    assert_ne!(base, color_group_packet(2, 3, 4, 10, 20, 30, 40, 50, 60));
    assert_ne!(base, color_group_packet(2, 2, 8, 10, 20, 30, 40, 50, 60));
    assert_ne!(base, color_group_packet(2, 2, 4, 11, 20, 30, 40, 50, 60));
    assert_ne!(base, color_group_packet(2, 2, 4, 10, 21, 30, 40, 50, 60));
    assert_ne!(base, color_group_packet(2, 2, 4, 10, 20, 31, 40, 50, 60));
    assert_ne!(base, color_group_packet(2, 2, 4, 10, 20, 30, 41, 50, 60));
    assert_ne!(base, color_group_packet(2, 2, 4, 10, 20, 30, 40, 51, 60));
    assert_ne!(base, color_group_packet(2, 2, 4, 10, 20, 30, 40, 50, 61));
}

#[test]
fn lighting_modes_have_their_protocol_values() {
    assert_eq!(MODE_FADE, 0x01);
    assert_eq!(MODE_STATIC, 0x04);
    assert_eq!(MODE_SEQUENCE, 0x06);
    assert_eq!(MODE_BLINK, 0x08);
}
