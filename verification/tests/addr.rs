use multisock::AddrParseError;
use multisock::InetAddr;
use multisock::Ipv4;
use multisock::Ipv6;
use multisock::SocketAddr;

fn v6(g: [u16; 8], port: u16, scope_id: u32) -> InetAddr {
    InetAddr::V6 {
        ip: Ipv6 { a: g[0], b: g[1], c: g[2], d: g[3], e: g[4], f: g[5], g: g[6], h: g[7] },
        port,
        flowinfo: 0,
        scope_id,
    }
}

fn v4(o: [u8; 4], port: u16) -> InetAddr {
    InetAddr::V4 { ip: Ipv4 { a: o[0], b: o[1], c: o[2], d: o[3] }, port }
}

#[test]
fn test_socket_addr_inet() {
    let ip4 = InetAddr::parse("127.0.0.1:10").unwrap();
    let ip6 = InetAddr::parse("[::20]:10").unwrap();
    assert_eq!(ip4.to_string(), "127.0.0.1:10".parse::<SocketAddr>().unwrap().to_string());
    assert_eq!(ip4.to_string(), SocketAddr::from(ip4).to_string());
    assert_eq!(ip6.to_string(), "[::20]:10".parse::<SocketAddr>().unwrap().to_string());
    assert_eq!(ip6.to_string(), SocketAddr::from(ip6).to_string());
    assert_eq!(ip4.to_string(), "127.0.0.1:10");
    assert_eq!(ip6.to_string(), "[::20]:10");
    assert_eq!(ip4, v4([127, 0, 0, 1], 10));
    assert_eq!(ip6, v6([0, 0, 0, 0, 0, 0, 0, 0x20], 10, 0));
}

#[test]
fn test_socket_addr_unix() {
    assert_eq!("unix:/tmp/sock".parse::<SocketAddr>().unwrap().to_string(), "unix:/tmp/sock");
    assert!("/tmp/sock".parse::<SocketAddr>().is_err());
}

#[test]
fn unix_path_is_taken_verbatim() {
    assert_eq!(SocketAddr::parse("unix:"), Ok(SocketAddr::Unix(String::new())));
    assert_eq!(SocketAddr::parse("unix:unix:/x"), Ok(SocketAddr::Unix("unix:/x".to_string())));
    assert_eq!(SocketAddr::parse("unix: a b "), Ok(SocketAddr::Unix(" a b ".to_string())));
    assert_eq!(SocketAddr::parse("unix:/tmp/s\u{f6}ck"), Ok(SocketAddr::Unix("/tmp/s\u{f6}ck".to_string())));
    assert_eq!(SocketAddr::parse("unix:127.0.0.1:1"), Ok(SocketAddr::Unix("127.0.0.1:1".to_string())));
    assert_eq!(SocketAddr::Unix("relative/path".to_string()).to_string(), "unix:relative/path");
    assert_eq!(SocketAddr::Unix(String::new()).to_string(), "unix:");
}

#[test]
fn prefix_must_match_exactly() {
    assert_eq!(SocketAddr::parse("UNIX:/tmp/sock"), Err(AddrParseError));
    assert_eq!(SocketAddr::parse("unix"), Err(AddrParseError));
    assert_eq!(SocketAddr::parse(" unix:/tmp/sock"), Err(AddrParseError));
    assert_eq!(SocketAddr::parse("unix/tmp/sock"), Err(AddrParseError));
    assert_eq!(SocketAddr::parse(""), Err(AddrParseError));
    assert_eq!(SocketAddr::parse("/"), Err(AddrParseError));
    assert_eq!(SocketAddr::parse("localhost:80"), Err(AddrParseError));
}

#[test]
fn is_unix_tells_the_variants_apart() {
    assert!(SocketAddr::parse("unix:/run/x").unwrap().is_unix());
    assert!(SocketAddr::Unix(String::new()).is_unix());
    assert!(!SocketAddr::parse("10.0.0.1:80").unwrap().is_unix());
    assert!(!SocketAddr::parse("[::1]:80").unwrap().is_unix());
    assert!(!SocketAddr::from(v4([1, 2, 3, 4], 5)).is_unix());
}

#[test]
fn variants_are_never_equal() {
    let inet = SocketAddr::parse("1.2.3.4:5").unwrap();
    let unix = SocketAddr::Unix("1.2.3.4:5".to_string());
    assert_ne!(inet, unix);
    assert_eq!(inet, SocketAddr::Inet(v4([1, 2, 3, 4], 5)));
    assert_eq!(unix.clone(), unix);
    assert_ne!(unix, SocketAddr::Unix("1.2.3.4:6".to_string()));
    assert_ne!(inet, SocketAddr::Inet(v4([1, 2, 3, 4], 6)));
}

#[test]
fn unnamed_socket_gets_the_placeholder() {
    assert_eq!(SocketAddr::from_pathname(None), SocketAddr::Unix("unnamed".to_string()));
    assert_eq!(SocketAddr::from_pathname(None).to_string(), "unix:unnamed");
    assert_eq!(SocketAddr::from_pathname(Some("/run/a.sock")), SocketAddr::Unix("/run/a.sock".to_string()));
    assert_eq!(SocketAddr::from_pathname(Some("")), SocketAddr::Unix(String::new()));
}

#[test]
fn ipv4_forms() {
    assert_eq!(InetAddr::parse("0.0.0.0:0"), Some(v4([0, 0, 0, 0], 0)));
    assert_eq!(InetAddr::parse("255.255.255.255:65535"), Some(v4([255, 255, 255, 255], 65535)));
    assert_eq!(InetAddr::parse("192.168.1.20:8080"), Some(v4([192, 168, 1, 20], 8080)));
    assert_eq!(InetAddr::parse("1.2.3.4:0080"), Some(v4([1, 2, 3, 4], 80)));
    assert_eq!(InetAddr::parse("1.2.3.4:000000000000000000000000000007"), Some(v4([1, 2, 3, 4], 7)));
}

#[test]
fn ipv4_rejections() {
    for text in [
        "256.0.0.1:80",
        "1.2.3:80",
        "1.2.3.4.5:80",
        "1.2.3.4",
        "1.2.3.4:",
        "1.2.3.4:65536",
        "1.2.3.4:99999999999999999999",
        "1.2.3.4:-1",
        "1.2.3.4:80 ",
        " 1.2.3.4:80",
        "01.2.3.4:80",
        "1.02.3.4:80",
        "1.2.3.004:80",
        "00.0.0.0:1",
        "1..3.4:80",
        ".1.2.3:80",
        "1.2.3.4:8a",
        "1.2.3.4:80:90",
        "1.2.3.4;80",
        "a.b.c.d:80",
        "1.2.3.1000:80",
        "1.2.3.4:\u{663}",
        "\u{661}.2.3.4:80",
        ":80",
        "::1:80",
    ] {
        assert_eq!(InetAddr::parse(text), None, "{}", text);
        assert_eq!(SocketAddr::parse(text), Err(AddrParseError), "{}", text);
    }
}

#[test]
fn ipv6_forms() {
    assert_eq!(InetAddr::parse("[::]:0"), Some(v6([0; 8], 0, 0)));
    assert_eq!(InetAddr::parse("[::1]:8080"), Some(v6([0, 0, 0, 0, 0, 0, 0, 1], 8080, 0)));
    assert_eq!(InetAddr::parse("[1::]:1"), Some(v6([1, 0, 0, 0, 0, 0, 0, 0], 1, 0)));
    assert_eq!(
        InetAddr::parse("[1:2:3:4:5:6:7:8]:9"),
        Some(v6([1, 2, 3, 4, 5, 6, 7, 8], 9, 0))
    );
    assert_eq!(
        InetAddr::parse("[2001:DB8::Ff00:42:8329]:443"),
        Some(v6([0x2001, 0xdb8, 0, 0, 0, 0xff00, 0x42, 0x8329], 443, 0))
    );
    assert_eq!(
        InetAddr::parse("[0001:0002:0003:0004:0005:0006:0007:0008]:9"),
        Some(v6([1, 2, 3, 4, 5, 6, 7, 8], 9, 0))
    );
    assert_eq!(
        InetAddr::parse("[1:2:3:4:5:6:7::]:9"),
        Some(v6([1, 2, 3, 4, 5, 6, 7, 0], 9, 0))
    );
    assert_eq!(
        InetAddr::parse("[::2:3:4:5:6:7:8]:9"),
        Some(v6([0, 2, 3, 4, 5, 6, 7, 8], 9, 0))
    );
    assert_eq!(
        InetAddr::parse("[1:2:3::6:7:8]:9"),
        Some(v6([1, 2, 3, 0, 0, 6, 7, 8], 9, 0))
    );
    assert_eq!(
        InetAddr::parse("[ffff:ffff:ffff:ffff:ffff:ffff:ffff:ffff]:65535"),
        Some(v6([0xffff; 8], 65535, 0))
    );
}

#[test]
fn ipv6_with_dotted_tail() {
    assert_eq!(
        InetAddr::parse("[::ffff:192.168.0.1]:80"),
        Some(v6([0, 0, 0, 0, 0, 0xffff, 0xc0a8, 0x0001], 80, 0))
    );
    assert_eq!(
        InetAddr::parse("[::1.2.3.4]:80"),
        Some(v6([0, 0, 0, 0, 0, 0, 0x0102, 0x0304], 80, 0))
    );
    assert_eq!(
        InetAddr::parse("[1:2:3:4:5:6:7.8.9.10]:80"),
        Some(v6([1, 2, 3, 4, 5, 6, 0x0708, 0x090a], 80, 0))
    );
    assert_eq!(
        InetAddr::parse("[64:ff9b::255.255.255.255]:80"),
        Some(v6([0x64, 0xff9b, 0, 0, 0, 0, 0xffff, 0xffff], 80, 0))
    );
    assert_eq!(InetAddr::parse("[1.2.3.4::]:80"), None);
    assert_eq!(InetAddr::parse("[1.2.3.4::5]:80"), None);
    assert_eq!(InetAddr::parse("[::1.2.3.4:5]:80"), None);
    assert_eq!(InetAddr::parse("[1:2:3:4:5:6:7:1.2.3.4]:80"), None);
    assert_eq!(InetAddr::parse("[::1.2.3.256]:80"), None);
    assert_eq!(InetAddr::parse("[::01.2.3.4]:80"), None);
}

#[test]
fn ipv6_scope() {
    assert_eq!(InetAddr::parse("[fe80::1%3]:80"), Some(v6([0xfe80, 0, 0, 0, 0, 0, 0, 1], 80, 3)));
    assert_eq!(InetAddr::parse("[fe80::1%0]:80"), Some(v6([0xfe80, 0, 0, 0, 0, 0, 0, 1], 80, 0)));
    assert_eq!(
        InetAddr::parse("[fe80::1%4294967295]:80"),
        Some(v6([0xfe80, 0, 0, 0, 0, 0, 0, 1], 80, 4294967295))
    );
    assert_eq!(InetAddr::parse("[fe80::1%007]:80"), Some(v6([0xfe80, 0, 0, 0, 0, 0, 0, 1], 80, 7)));
    assert_eq!(InetAddr::parse("[fe80::1%4294967296]:80"), None);
    assert_eq!(InetAddr::parse("[fe80::1%]:80"), None);
    assert_eq!(InetAddr::parse("[fe80::1%eth0]:80"), None);
    assert_eq!(InetAddr::parse("[fe80::1%1%2]:80"), None);
}

#[test]
fn ipv6_rejections() {
    for text in [
        "::1",
        "[::1]",
        "[::1]:",
        "[::1]80",
        "::1:80",
        "[::1:80",
        "[:1]:80",
        "[1:]:80",
        "[:]:80",
        "[]:80",
        "[1:2:3:4:5:6:7]:80",
        "[1:2:3:4:5:6:7:8:9]:80",
        "[1::2::3]:80",
        "[:::]:80",
        "[12345::]:80",
        "[::g]:80",
        "[1:2:3:4:5:6:7:8::]:80",
        "[::1:2:3:4:5:6:7:8]:80",
        "[1:2:3:4::5:6:7:8]:80",
        "[::1]:65536",
        "[::1] :80",
        "[ ::1]:80",
        "[::1]:80x",
        "[[::1]]:80",
        "[::00001]:80",
    ] {
        assert_eq!(InetAddr::parse(text), None, "{}", text);
        assert_eq!(SocketAddr::parse(text), Err(AddrParseError), "{}", text);
    }
}

#[test]
fn ipv4_text() {
    assert_eq!(v4([0, 0, 0, 0], 0).to_string(), "0.0.0.0:0");
    assert_eq!(v4([255, 255, 255, 255], 65535).to_string(), "255.255.255.255:65535");
    assert_eq!(v4([10, 100, 9, 99], 1000).to_string(), "10.100.9.99:1000");
    assert_eq!(SocketAddr::Inet(v4([127, 0, 0, 1], 10)).to_string(), "127.0.0.1:10");
}

#[test]
fn ipv6_text_shortens_the_first_longest_run() {
    assert_eq!(v6([0; 8], 0, 0).to_string(), "[::]:0");
    assert_eq!(v6([0, 0, 0, 0, 0, 0, 0, 1], 80, 0).to_string(), "[::1]:80");
    assert_eq!(v6([1, 0, 0, 0, 0, 0, 0, 0], 80, 0).to_string(), "[1::]:80");
    assert_eq!(v6([1, 2, 3, 4, 5, 6, 7, 8], 80, 0).to_string(), "[1:2:3:4:5:6:7:8]:80");
    assert_eq!(v6([1, 0, 3, 4, 5, 6, 7, 8], 80, 0).to_string(), "[1:0:3:4:5:6:7:8]:80");
    assert_eq!(v6([1, 0, 0, 4, 5, 0, 0, 8], 80, 0).to_string(), "[1::4:5:0:0:8]:80");
    assert_eq!(v6([1, 0, 0, 4, 0, 0, 0, 8], 80, 0).to_string(), "[1:0:0:4::8]:80");
    assert_eq!(v6([0, 0, 3, 0, 0, 0, 7, 0], 80, 0).to_string(), "[0:0:3::7:0]:80");
    assert_eq!(v6([0, 2, 3, 4, 5, 6, 0, 0], 80, 0).to_string(), "[0:2:3:4:5:6::]:80");
    assert_eq!(v6([0, 0, 3, 4, 5, 6, 7, 0], 80, 0).to_string(), "[::3:4:5:6:7:0]:80");
    assert_eq!(
        v6([0x2001, 0xdb8, 0, 0, 0, 0xff00, 0x42, 0x8329], 443, 0).to_string(),
        "[2001:db8::ff00:42:8329]:443"
    );
    assert_eq!(
        v6([0xffff; 8], 65535, 0).to_string(),
        "[ffff:ffff:ffff:ffff:ffff:ffff:ffff:ffff]:65535"
    );
    assert_eq!(v6([0xabcd, 0xef0, 0x10, 0xa, 0, 0x100, 0x1000, 0xf], 1, 0).to_string(), "[abcd:ef0:10:a:0:100:1000:f]:1");
}

#[test]
fn ipv6_text_of_mapped_and_scoped() {
    assert_eq!(v6([0, 0, 0, 0, 0, 0xffff, 0xc0a8, 1], 80, 0).to_string(), "[::ffff:192.168.0.1]:80");
    assert_eq!(v6([0, 0, 0, 0, 0, 0xffff, 0, 0], 80, 0).to_string(), "[::ffff:0.0.0.0]:80");
    assert_eq!(v6([0, 0, 0, 0, 0, 0, 0x0102, 0x0304], 80, 0).to_string(), "[::102:304]:80");
    assert_eq!(v6([0, 0, 0, 0, 1, 0xffff, 0x0102, 0x0304], 80, 0).to_string(), "[::1:ffff:102:304]:80");
    assert_eq!(v6([0xfe80, 0, 0, 0, 0, 0, 0, 1], 80, 3).to_string(), "[fe80::1%3]:80");
    assert_eq!(v6([0xfe80, 0, 0, 0, 0, 0, 0, 1], 80, 4294967295).to_string(), "[fe80::1%4294967295]:80");
    assert_eq!(v6([0, 0, 0, 0, 0, 0xffff, 0x7f00, 1], 80, 12).to_string(), "[::ffff:127.0.0.1%12]:80");
}

#[test]
fn flow_information_is_not_written() {
    let with_flow = InetAddr::V6 {
        ip: Ipv6 { a: 0, b: 0, c: 0, d: 0, e: 0, f: 0, g: 0, h: 1 },
        port: 80,
        flowinfo: 9,
        scope_id: 0,
    };
    assert_eq!(with_flow.to_string(), "[::1]:80");
    assert_eq!(InetAddr::parse("[::1]:80"), Some(v6([0, 0, 0, 0, 0, 0, 0, 1], 80, 0)));
    assert_ne!(InetAddr::parse("[::1]:80"), Some(with_flow));
}

#[test]
fn text_of_a_parsed_address_is_the_text() {
    for text in [
        "127.0.0.1:10",
        "[::20]:10",
        "unix:/tmp/sock",
        "unix:",
        "unix:unix:",
        "0.0.0.0:0",
        "[::]:0",
        "[1::]:1",
        "[::ffff:10.0.0.1]:22",
        "[1:2:3:4:5:6:7:8]:9",
        "[a:b::c:0:0:d]:65535",
        "[fe80::1%2]:3",
    ] {
        assert_eq!(SocketAddr::parse(text).unwrap().to_string(), text);
    }
}

#[test]
fn parsing_the_text_gives_the_address_back() {
    let mut addrs = vec![
        SocketAddr::Unix("/tmp/sock".to_string()),
        SocketAddr::Unix(String::new()),
        SocketAddr::Unix("unix:".to_string()),
        SocketAddr::Unix("[::1]:80".to_string()),
        SocketAddr::Inet(v4([0, 0, 0, 0], 0)),
        SocketAddr::Inet(v4([255, 0, 10, 200], 65535)),
    ];
    let values: [u16; 5] = [0, 1, 0xffff, 0x10, 0xabc];
    let mut n: usize = 0;
    while n < 4000 {
        let mut g = [0u16; 8];
        let mut k = n * 7919 + 13;
        for slot in g.iter_mut() {
            *slot = values[k % 5];
            k /= 5;
        }
        addrs.push(SocketAddr::Inet(v6(g, (n % 65536) as u16, (n % 3) as u32)));
        n += 1;
    }
    for addr in addrs {
        assert_eq!(SocketAddr::parse(&addr.to_string()), Ok(addr));
    }
}

#[test]
fn segments_come_in_order() {
    let ip = Ipv6 { a: 1, b: 2, c: 3, d: 4, e: 5, f: 6, g: 7, h: 8 };
    assert_eq!(ip.segments(), [1, 2, 3, 4, 5, 6, 7, 8]);
}

#[test]
fn long_texts_are_read() {
    let zeros = "0".repeat(300000);
    assert_eq!(InetAddr::parse(&format!("1.2.3.4:{}7", zeros)), Some(v4([1, 2, 3, 4], 7)));
    assert_eq!(InetAddr::parse(&format!("1.2.3.4:{}70000", zeros)), None);
    assert_eq!(InetAddr::parse(&format!("[::1%{}5]:{}6", zeros, zeros)), Some(v6([0, 0, 0, 0, 0, 0, 0, 1], 6, 5)));
    let path = "/x".repeat(200000);
    let text = format!("unix:{}", path);
    assert_eq!(SocketAddr::parse(&text), Ok(SocketAddr::Unix(path)));
    assert_eq!(SocketAddr::parse(&text).unwrap().to_string(), text);
    assert_eq!(SocketAddr::parse(&text[5..]), Err(AddrParseError));
}

#[test]
fn push_text_appends() {
    let mut out = String::from("at ");
    Ipv4 { a: 10, b: 0, c: 0, d: 1 }.push_text(&mut out);
    assert_eq!(out, "at 10.0.0.1");
    out.push_str(" or ");
    Ipv6 { a: 0xfe80, b: 0, c: 0, d: 0, e: 0, f: 0, g: 0xa, h: 0 }.push_text(&mut out);
    assert_eq!(out, "at 10.0.0.1 or fe80::a:0");
    out.push_str(", ");
    v6([0, 0, 0, 0, 0, 0xffff, 0x0a00, 0x0001], 443, 7).push_text(&mut out);
    assert_eq!(out, "at 10.0.0.1 or fe80::a:0, [::ffff:10.0.0.1%7]:443");
    out.push_str(", ");
    v4([8, 8, 4, 4], 53).push_text(&mut out);
    assert_eq!(out, "at 10.0.0.1 or fe80::a:0, [::ffff:10.0.0.1%7]:443, 8.8.4.4:53");
}
