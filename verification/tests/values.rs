use mediawiki_dump::ip::parse_ip;
use mediawiki_dump::values::{parse_i32, parse_u32};
use mediawiki_dump::IpAddr;

#[test]
fn unsigned_decimal_grammar() {
    assert_eq!(parse_u32("0"), Some(0));
    assert_eq!(parse_u32("+7"), Some(7));
    assert_eq!(parse_u32("4294967295"), Some(4294967295));
    assert_eq!(parse_u32("4294967296"), None);
    assert_eq!(parse_u32(""), None);
    assert_eq!(parse_u32("+"), None);
    assert_eq!(parse_u32("12 "), None);
    assert_eq!(parse_u32("-1"), None);
    assert_eq!(parse_u32("1_2"), None);
}

#[test]
fn signed_decimal_grammar() {
    assert_eq!(parse_i32("-2147483648"), Some(-2147483648));
    assert_eq!(parse_i32("2147483647"), Some(2147483647));
    assert_eq!(parse_i32("-2147483649"), None);
    assert_eq!(parse_i32("2147483648"), None);
    assert_eq!(parse_i32("-0"), Some(0));
    assert_eq!(parse_i32("+14"), Some(14));
    assert_eq!(parse_i32("-"), None);
    assert_eq!(parse_i32("1.0"), None);
}

#[test]
fn dotted_quad_addresses() {
    assert_eq!(parse_ip("1.2.3.4"), Some(IpAddr::V4 { a: 1, b: 2, c: 3, d: 4 }));
    assert_eq!(parse_ip("0.0.0.0"), Some(IpAddr::V4 { a: 0, b: 0, c: 0, d: 0 }));
    assert_eq!(parse_ip("255.255.255.255"), Some(IpAddr::V4 { a: 255, b: 255, c: 255, d: 255 }));
    assert_eq!(parse_ip("256.0.0.1"), None);
    assert_eq!(parse_ip("01.2.3.4"), None);
    assert_eq!(parse_ip("1.2.3"), None);
    assert_eq!(parse_ip("1.2.3.4.5"), None);
    assert_eq!(parse_ip("1.2.3.x"), None);
}

#[test]
fn colon_group_addresses() {
    assert_eq!(
        parse_ip("1:2:3:4:5:6:7:8"),
        Some(IpAddr::V6 { g0: 1, g1: 2, g2: 3, g3: 4, g4: 5, g5: 6, g6: 7, g7: 8 }),
    );
    assert_eq!(parse_ip("::"), Some(IpAddr::V6 { g0: 0, g1: 0, g2: 0, g3: 0, g4: 0, g5: 0, g6: 0, g7: 0 }));
    assert_eq!(parse_ip("::1"), Some(IpAddr::V6 { g0: 0, g1: 0, g2: 0, g3: 0, g4: 0, g5: 0, g6: 0, g7: 1 }));
    assert_eq!(parse_ip("fe80::"), Some(IpAddr::V6 { g0: 0xfe80, g1: 0, g2: 0, g3: 0, g4: 0, g5: 0, g6: 0, g7: 0 }));
    assert_eq!(
        parse_ip("2001:DB8::aB:7"),
        Some(IpAddr::V6 { g0: 0x2001, g1: 0xdb8, g2: 0, g3: 0, g4: 0, g5: 0, g6: 0xab, g7: 7 }),
    );
    assert_eq!(
        parse_ip("1:2:3:4:5:6:7::"),
        Some(IpAddr::V6 { g0: 1, g1: 2, g2: 3, g3: 4, g4: 5, g5: 6, g6: 7, g7: 0 }),
    );
    assert_eq!(parse_ip("1:2:3:4:5:6:7:8:9"), None);
    assert_eq!(parse_ip("1:2:3:4:5:6:7:8::"), None);
    assert_eq!(parse_ip("1:::2"), None);
    assert_eq!(parse_ip(":1"), None);
    assert_eq!(parse_ip("1:"), None);
    assert_eq!(parse_ip(":"), None);
    assert_eq!(parse_ip("12345::"), None);
    assert_eq!(parse_ip("g::1"), None);
    assert_eq!(parse_ip(""), None);
}

#[test]
fn embedded_dotted_quad_tails() {
    assert_eq!(
        parse_ip("::ffff:192.168.0.1"),
        Some(IpAddr::V6 { g0: 0, g1: 0, g2: 0, g3: 0, g4: 0, g5: 0xffff, g6: 0xc0a8, g7: 1 }),
    );
    assert_eq!(
        parse_ip("64:ff9b::1.2.3.4"),
        Some(IpAddr::V6 { g0: 0x64, g1: 0xff9b, g2: 0, g3: 0, g4: 0, g5: 0, g6: 0x102, g7: 0x304 }),
    );
    assert_eq!(
        parse_ip("1:2:3:4:5:6:7.8.9.10"),
        Some(IpAddr::V6 { g0: 1, g1: 2, g2: 3, g3: 4, g4: 5, g5: 6, g6: 0x708, g7: 0x90a }),
    );
    assert_eq!(
        parse_ip("::1.2.3.4"),
        Some(IpAddr::V6 { g0: 0, g1: 0, g2: 0, g3: 0, g4: 0, g5: 0, g6: 0x102, g7: 0x304 }),
    );
    // the dotted quad must be the very last piece
    assert_eq!(parse_ip("1.2.3.4::"), None);
    assert_eq!(parse_ip("1:1.2.3.4:5"), None);
    assert_eq!(parse_ip("::1.2.3.4.5"), None);
    assert_eq!(parse_ip("::ffff:1.2.3.256"), None);
    // too many groups once the quad's two are counted
    assert_eq!(parse_ip("1:2:3:4:5:6:7:1.2.3.4"), None);
    assert_eq!(parse_ip("1:2:3:4:5:6::1.2.3.4"), None);
}
