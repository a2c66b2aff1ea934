use argb_core::openrgb::{
    classify_packet, client_name_payload, controller_count_from_reply, controller_data_request,
    decode_header, encode_header, encode_led_update, encode_resize_zone, encode_update_mode,
    encode_zone_update, negotiated_protocol, parse_controller_data, ControllerInfo, HeaderError,
    Incoming, ModeInfo, ParseError, DEVICE_TYPE_MOTHERBOARD, MAX_PAYLOAD, ZONE_TYPE_LINEAR,
};

fn put_str(buf: &mut Vec<u8>, s: &str) {
    let bytes = s.as_bytes();
    buf.extend_from_slice(&((bytes.len() + 1) as u16).to_le_bytes());
    buf.extend_from_slice(bytes);
    buf.push(0);
}

fn mk(names: &[&str]) -> ControllerInfo {
    ControllerInfo {
        controller_type: 0,
        name: "x".into(),
        active_mode: 0,
        modes: names
            .iter()
            .map(|n| ModeInfo { name: n.to_string(), ..ModeInfo::default() })
            .collect(),
        zones: Vec::new(),
        num_leds: 0,
    }
}

#[test]
fn header_layout() {
    let h = encode_header(2, 1051, 10);
    assert_eq!(&h[0..4], b"ORGB");
    assert_eq!(u32::from_le_bytes([h[4], h[5], h[6], h[7]]), 2);
    assert_eq!(u32::from_le_bytes([h[8], h[9], h[10], h[11]]), 1051);
    assert_eq!(u32::from_le_bytes([h[12], h[13], h[14], h[15]]), 10);
}

#[test]
fn zone_update_payload() {
    let colors = [[255u8, 0, 0], [0, 255, 0]];
    let p = encode_zone_update(3, &colors);
    // total(4) + zone(4) + count(2) + 2 colors * 4 = 18
    assert_eq!(p.len(), 18);
    assert_eq!(u32::from_le_bytes([p[0], p[1], p[2], p[3]]), 18);
    assert_eq!(u32::from_le_bytes([p[4], p[5], p[6], p[7]]), 3);
    assert_eq!(u16::from_le_bytes([p[8], p[9]]), 2);
    assert_eq!(&p[10..14], &[255, 0, 0, 0]);
    assert_eq!(&p[14..18], &[0, 255, 0, 0]);
}

#[test]
fn direct_mode_falls_back_to_custom_and_static() {
    assert_eq!(mk(&["Rainbow", " Direct "]).direct_mode().unwrap().0, 1);
    assert_eq!(mk(&["Rainbow", "Custom"]).direct_mode().unwrap().0, 1);
    assert_eq!(mk(&["Rainbow", "Static"]).direct_mode().unwrap().0, 1);
    assert!(mk(&["Rainbow", "Off"]).direct_mode().is_none());
    // "Direct" outranks an earlier "Static".
    assert_eq!(mk(&["Static", "Direct"]).direct_mode().unwrap().0, 1);
}

#[test]
fn update_mode_payload_layout() {
    let m = ModeInfo {
        name: "Direct".to_string(),
        value: 0xFFFF,
        flags: 0x20,
        colors_min: 0,
        colors_max: 0,
        color_mode: 1,
        ..ModeInfo::default()
    };
    let p = encode_update_mode(3, 5, &m);
    assert_eq!(p.len(), 67);
    assert_eq!(u32::from_le_bytes([p[0], p[1], p[2], p[3]]), 67);
    assert_eq!(i32::from_le_bytes([p[4], p[5], p[6], p[7]]), 5);
    assert_eq!(u16::from_le_bytes([p[8], p[9]]), 7); // "Direct\0"
    assert_eq!(&p[10..16], b"Direct");
    // Protocol 2 drops the three brightness fields (12 bytes).
    assert_eq!(encode_update_mode(2, 5, &m).len(), 55);
}

#[test]
fn parsed_modes_roundtrip_into_direct_lookup() {
    let mut b = Vec::new();
    b.extend_from_slice(&0u32.to_le_bytes());
    b.extend_from_slice(&0i32.to_le_bytes());
    put_str(&mut b, "Mobo");
    put_str(&mut b, "ASUS");
    put_str(&mut b, "desc");
    put_str(&mut b, "1.0");
    put_str(&mut b, "serial");
    put_str(&mut b, "loc");
    b.extend_from_slice(&2u16.to_le_bytes()); // num_modes
    b.extend_from_slice(&1i32.to_le_bytes()); // active_mode
    for (name, value) in [("Rainbow", 1i32), ("Direct", 0xFFFF)] {
        put_str(&mut b, name);
        b.extend_from_slice(&value.to_le_bytes());
        for _ in 0..11 {
            b.extend_from_slice(&0u32.to_le_bytes()); // flags..color_mode (p3)
        }
        b.extend_from_slice(&0u16.to_le_bytes()); // num_colors
    }
    b.extend_from_slice(&0u16.to_le_bytes()); // num_zones
    b.extend_from_slice(&0u16.to_le_bytes()); // num_leds

    let info = parse_controller_data(&b, 3).unwrap();
    assert_eq!(info.modes.len(), 2);
    assert_eq!(info.active_mode, 1);
    let (idx, direct) = info.direct_mode().expect("Direct mode present");
    assert_eq!(idx, 1);
    assert_eq!(direct.value, 0xFFFF);
}

#[test]
fn led_update_payload() {
    let colors = [[1u8, 2, 3]];
    let p = encode_led_update(&colors);
    assert_eq!(p.len(), 10);
    assert_eq!(u32::from_le_bytes([p[0], p[1], p[2], p[3]]), 10);
    assert_eq!(u16::from_le_bytes([p[4], p[5]]), 1);
    assert_eq!(&p[6..10], &[1, 2, 3, 0]);
}

fn minimal_blob() -> Vec<u8> {
    let mut b = Vec::new();
    b.extend_from_slice(&0u32.to_le_bytes()); // data_size (unused)
    b.extend_from_slice(&0i32.to_le_bytes()); // type = motherboard
    put_str(&mut b, "Mobo");
    put_str(&mut b, "ASUS"); // vendor (protocol >= 1)
    put_str(&mut b, "desc");
    put_str(&mut b, "1.0");
    put_str(&mut b, "serial");
    put_str(&mut b, "loc");
    b.extend_from_slice(&0u16.to_le_bytes()); // num_modes
    b.extend_from_slice(&0i32.to_le_bytes()); // active_mode
    b.extend_from_slice(&1u16.to_le_bytes()); // num_zones
    put_str(&mut b, "Addressable 2");
    b.extend_from_slice(&1i32.to_le_bytes()); // linear
    b.extend_from_slice(&0u32.to_le_bytes()); // leds_min
    b.extend_from_slice(&120u32.to_le_bytes()); // leds_max
    b.extend_from_slice(&72u32.to_le_bytes()); // leds_count
    b.extend_from_slice(&0u16.to_le_bytes()); // matrix_len
    b.extend_from_slice(&0u16.to_le_bytes()); // num_leds
    b
}

#[test]
fn parse_minimal_controller_blob() {
    let b = minimal_blob();
    let info = parse_controller_data(&b, 3).unwrap();
    assert_eq!(info.controller_type, DEVICE_TYPE_MOTHERBOARD);
    assert_eq!(info.name, "Mobo");
    assert_eq!(info.zones.len(), 1);
    assert_eq!(info.zones[0].name, "Addressable 2");
    assert_eq!(info.zones[0].zone_type, ZONE_TYPE_LINEAR);
    assert_eq!(info.zones[0].leds_count, 72);
}

#[test]
fn truncated_blob_is_rejected() {
    let b = minimal_blob();
    for cut in [0usize, 3, 10, b.len() - 1] {
        assert_eq!(parse_controller_data(&b[..cut], 3).unwrap_err(), ParseError::Truncated);
    }
}

#[test]
fn protocol_zero_has_no_vendor_field() {
    let mut b = Vec::new();
    b.extend_from_slice(&0u32.to_le_bytes());
    b.extend_from_slice(&2i32.to_le_bytes());
    put_str(&mut b, "Card");
    put_str(&mut b, "desc");
    put_str(&mut b, "1.0");
    put_str(&mut b, "serial");
    put_str(&mut b, "loc");
    b.extend_from_slice(&0u16.to_le_bytes()); // num_modes
    b.extend_from_slice(&0i32.to_le_bytes()); // active_mode
    b.extend_from_slice(&0u16.to_le_bytes()); // num_zones
    b.extend_from_slice(&0u16.to_le_bytes()); // num_leds
    let info = parse_controller_data(&b, 0).unwrap();
    assert_eq!(info.controller_type, 2);
    assert_eq!(info.name, "Card");
    assert!(info.modes.is_empty());
}

#[test]
fn header_decodes_what_was_encoded() {
    let h = encode_header(7, 1101, 67);
    assert_eq!(decode_header(&h), Ok((7, 1101, 67)));
    let mut bad = h;
    bad[0] = b'X';
    assert_eq!(decode_header(&bad), Err(HeaderError::BadMagic));
    let too_big = encode_header(0, 1, MAX_PAYLOAD + 1);
    assert_eq!(decode_header(&too_big), Err(HeaderError::TooLarge));
    let at_limit = encode_header(0, 1, MAX_PAYLOAD);
    assert_eq!(decode_header(&at_limit), Ok((0, 1, MAX_PAYLOAD)));
}

#[test]
fn client_name_is_nul_terminated() {
    assert_eq!(client_name_payload("ArgbProMaster"), b"ArgbProMaster\0".to_vec());
}

#[test]
fn protocol_negotiation_takes_the_lower_version() {
    assert_eq!(negotiated_protocol(&5u32.to_le_bytes()), Some(3));
    assert_eq!(negotiated_protocol(&2u32.to_le_bytes()), Some(2));
    assert_eq!(negotiated_protocol(&[1, 0]), None);
}

#[test]
fn controller_count_reply() {
    assert_eq!(controller_count_from_reply(&4u32.to_le_bytes()), Ok(4));
    assert_eq!(controller_count_from_reply(&[4, 0, 0]), Err(ParseError::Truncated));
}

#[test]
fn small_request_payloads() {
    assert_eq!(controller_data_request(3), 3u32.to_le_bytes().to_vec());
    let r = encode_resize_zone(2, 60);
    assert_eq!(r.len(), 8);
    assert_eq!(u32::from_le_bytes([r[0], r[1], r[2], r[3]]), 2);
    assert_eq!(u32::from_le_bytes([r[4], r[5], r[6], r[7]]), 60);
}

#[test]
fn packets_are_classified() {
    assert_eq!(classify_packet(0, 0), Incoming::Wanted);
    assert_eq!(classify_packet(100, 0), Incoming::DeviceListChanged);
    assert_eq!(classify_packet(40, 0), Incoming::Other);
}
