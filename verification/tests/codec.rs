use pixelping::codec::{dec_to_hex, hex_to_dec, pixel_to_ip_addr, Position, Rgb};
use pixelping::{IP_PREFIX_0, IP_PREFIX_1, IP_PREFIX_2};

#[test]
fn dec_to_hex_test() {
    for i in 0..=255 {
        assert_eq!(format!("{}", i), format!("{:x}", dec_to_hex(i)));
    }
}

#[test]
fn pixel_to_ip_addr_test() {
    let pos = Position { x: 160, y: 120 };
    let rgb = Rgb {
        r: 0xff,
        g: 0xff,
        b: 0xff,
    };

    assert_eq!(
        format!(
            "{:x}:{:x}:{:x}:{}:{}:{:x}:{:x}:{:x}",
            IP_PREFIX_0, IP_PREFIX_1, IP_PREFIX_2, pos.x, pos.y, rgb.r, rgb.g, rgb.b
        ),
        pixel_to_ip_addr(pos, rgb).to_text()
    )
}

#[test]
fn dec_to_hex_round_trip() {
    for n in 0..=255 {
        assert_eq!(n, hex_to_dec(dec_to_hex(n)));
    }
}

#[test]
fn encode_groups_exact() {
    let a = pixel_to_ip_addr(
        Position { x: 109, y: 75 },
        Rgb {
            r: 0xde,
            g: 0xad,
            b: 0xbe,
        },
    );
    assert_eq!(a.g0, 0x2001);
    assert_eq!(a.g1, 0x4c08);
    assert_eq!(a.g2, 0x2028);
    assert_eq!(a.g3, 0x109);
    assert_eq!(a.g4, 0x75);
    assert_eq!(a.g5, 0x00de);
    assert_eq!(a.g6, 0x00ad);
    assert_eq!(a.g7, 0x00be);
}

#[test]
fn encode_distinct_inputs_distinct_addresses() {
    let base = pixel_to_ip_addr(Position { x: 3, y: 7 }, Rgb { r: 1, g: 2, b: 3 });
    let other_pos = pixel_to_ip_addr(Position { x: 7, y: 3 }, Rgb { r: 1, g: 2, b: 3 });
    let other_color = pixel_to_ip_addr(Position { x: 3, y: 7 }, Rgb { r: 1, g: 2, b: 4 });
    assert_ne!(base, other_pos);
    assert_ne!(base, other_color);
    assert_ne!(other_pos, other_color);
}

#[test]
fn to_text_zero_groups() {
    let a = pixel_to_ip_addr(Position { x: 0, y: 0 }, Rgb { r: 0, g: 0, b: 0 });
    assert_eq!(a.to_text(), "2001:4c08:2028:0:0:0:0:0");
}
