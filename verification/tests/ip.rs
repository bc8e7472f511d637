use mobilecode_connect::ip::{parse_ip_str, parse_socket_addr_str, IpAddr, SocketAddr};

fn v4(a: u8, b: u8, c: u8, d: u8) -> IpAddr {
    IpAddr::V4(u32::from_be_bytes([a, b, c, d]))
}

#[test]
fn socket_addresses_are_read_as_the_standard_library_reads_them() {
    let cases = [
        ("127.0.0.1:4443", SocketAddr { ip: v4(127, 0, 0, 1), port: 4443 }),
        ("0.0.0.0:0", SocketAddr { ip: v4(0, 0, 0, 0), port: 0 }),
        ("192.168.1.20:00080", SocketAddr { ip: v4(192, 168, 1, 20), port: 80 }),
        ("[::1]:443", SocketAddr { ip: IpAddr::V6(1), port: 443 }),
        (
            "[2001:db8::7]:65535",
            SocketAddr { ip: IpAddr::V6(0x2001_0db8_0000_0000_0000_0000_0000_0007), port: 65535 },
        ),
        (
            "[fe80::1%2]:8080",
            SocketAddr { ip: IpAddr::V6(0xfe80_0000_0000_0000_0000_0000_0000_0001), port: 8080 },
        ),
        (
            "[::ffff:10.0.0.1]:22",
            SocketAddr { ip: IpAddr::V6(0x0000_0000_0000_0000_0000_ffff_0a00_0001), port: 22 },
        ),
    ];
    for (text, expected) in cases {
        assert_eq!(parse_socket_addr_str(text), Some(expected), "{text}");
    }
}

#[test]
fn malformed_socket_addresses_are_refused() {
    let cases = [
        "",
        "127.0.0.1",
        "127.0.0.1:",
        "127.0.0.1:+80",
        "127.0.0.1:65536",
        "localhost:80",
        "::1:80",
        "[::1]80",
        "[::1]",
        "[::1:80",
        "[127.0.0.1]:80",
        "[::1%]:80",
        "[::1%x]:80",
        " 127.0.0.1:80",
        "1.2.3.4567:80",
    ];
    for text in cases {
        assert_eq!(parse_socket_addr_str(text), None, "{text}");
    }
}

#[test]
fn ip_addresses_are_read_as_the_standard_library_reads_them() {
    let cases = [
        ("10.0.0.1", v4(10, 0, 0, 1)),
        ("::", IpAddr::V6(0)),
        ("::1", IpAddr::V6(1)),
        ("fe80::1", IpAddr::V6(0xfe80_0000_0000_0000_0000_0000_0000_0001)),
        ("1:2:3:4:5:6:7:8", IpAddr::V6(0x0001_0002_0003_0004_0005_0006_0007_0008)),
        ("::ffff:1.2.3.4", IpAddr::V6(0x0000_0000_0000_0000_0000_ffff_0102_0304)),
        ("2001:db8::", IpAddr::V6(0x2001_0db8_0000_0000_0000_0000_0000_0000)),
    ];
    for (text, expected) in cases {
        assert_eq!(parse_ip_str(text), Some(expected), "{text}");
    }
    for text in ["", "1.2.3", "01.2.3.4", "256.0.0.1", "1::2::3", "12345::", "1.2.3.4.5", "::1%2"] {
        assert_eq!(parse_ip_str(text), None, "{text}");
    }
}
