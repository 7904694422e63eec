use open_sockets::network::{parse_ipv4, parse_octet, parse_port, Connection, Ipv4Address, Protocol};
use open_sockets::text::{contains_text, find_char, parse_number, split_lines, to_chars};

fn chars(text: &str) -> Vec<char> {
    text.chars().collect()
}

#[test]
fn protocol_tokens_are_read_in_any_case() {
    assert_eq!(Protocol::from_string("TCP"), Some(Protocol::Tcp));
    assert_eq!(Protocol::from_string("tcp"), Some(Protocol::Tcp));
    assert_eq!(Protocol::from_string("Udp"), Some(Protocol::Udp));
    assert_eq!(Protocol::from_string("uDP"), Some(Protocol::Udp));
}

#[test]
fn other_protocol_tokens_are_rejected() {
    assert_eq!(Protocol::from_string(""), None);
    assert_eq!(Protocol::from_string("TC"), None);
    assert_eq!(Protocol::from_string("TCPP"), None);
    assert_eq!(Protocol::from_string("TDP"), None);
    assert_eq!(Protocol::from_string("UCP"), None);
    assert_eq!(Protocol::from_string("ICMP"), None);
    assert_eq!(Protocol::from_string(" TCP"), None);
}

#[test]
fn dotted_decimal_addresses_are_read() {
    assert_eq!(
        parse_ipv4(&chars("198.252.206.25")),
        Some(Ipv4Address { first: 198, second: 252, third: 206, fourth: 25 })
    );
    assert_eq!(
        parse_ipv4(&chars("0.0.0.0")),
        Some(Ipv4Address { first: 0, second: 0, third: 0, fourth: 0 })
    );
    assert_eq!(
        parse_ipv4(&chars("255.255.255.255")),
        Some(Ipv4Address { first: 255, second: 255, third: 255, fourth: 255 })
    );
}

#[test]
fn malformed_addresses_are_rejected() {
    let samples = [
        "256.1.1.1", "1.2.3", "1.2.3.4.5", "01.2.3.4", "1..2.3", "", "...", "1.2.3.", ".1.2.3",
        "1.2.3.4 ", "a.b.c.d", "1.2.3.0004", "00.0.0.0", "+1.2.3.4", "1.2.3.-4", "999.0.0.1",
        "1.2.3.04", "fe80::1", "[::1]",
    ];
    for sample in samples {
        assert_eq!(parse_ipv4(&chars(sample)), None);
    }
}

#[test]
fn octets_have_no_leading_zero() {
    let text = chars("007");
    assert_eq!(parse_octet(&text, 0, 3), None);
    assert_eq!(parse_octet(&text, 2, 3), Some(7));
    assert_eq!(parse_octet(&text, 1, 2), Some(0));
    assert_eq!(parse_octet(&text, 1, 1), None);
}

#[test]
fn ports_are_read() {
    assert_eq!(parse_port(&chars("2222")), Some(2222));
    assert_eq!(parse_port(&chars("0")), Some(0));
    assert_eq!(parse_port(&chars("65535")), Some(65535));
    assert_eq!(parse_port(&chars("+80")), Some(80));
    assert_eq!(parse_port(&chars("00080")), Some(80));
}

#[test]
fn bad_ports_are_rejected() {
    assert_eq!(parse_port(&chars("")), None);
    assert_eq!(parse_port(&chars("+")), None);
    assert_eq!(parse_port(&chars("65536")), None);
    assert_eq!(parse_port(&chars("99999999999999999999")), None);
    assert_eq!(parse_port(&chars("-1")), None);
    assert_eq!(parse_port(&chars("http")), None);
    assert_eq!(parse_port(&chars("80 ")), None);
    assert_eq!(parse_port(&chars("8 0")), None);
}

#[test]
fn ports_agree_with_the_standard_reader() {
    let samples = ["0", "1", "65535", "65536", "+1", "++1", "-0", "", "+", "000001", "12a", "٣"];
    for sample in samples {
        assert_eq!(parse_port(&chars(sample)), sample.parse::<u16>().ok());
    }
}

#[test]
fn numbers_respect_the_limit() {
    let text = chars("x255y");
    assert_eq!(parse_number(&text, 1, 4, 255), Some(255));
    assert_eq!(parse_number(&text, 1, 4, 254), None);
    assert_eq!(parse_number(&text, 0, 4, 255), None);
    assert_eq!(parse_number(&text, 2, 2, 255), None);
    let large = chars("429496728");
    assert_eq!(parse_number(&large, 0, 9, 429496728), Some(429496728));
    assert_eq!(parse_number(&large, 0, 9, 429496727), None);
    let larger = chars("4294967289");
    assert_eq!(parse_number(&larger, 0, 10, 429496728), None);
}

#[test]
fn find_char_stops_at_the_first_occurrence() {
    let text = chars("a.b.c");
    assert_eq!(find_char(&text, 0, 5, '.'), 1);
    assert_eq!(find_char(&text, 2, 5, '.'), 3);
    assert_eq!(find_char(&text, 4, 5, '.'), 5);
    assert_eq!(find_char(&text, 0, 1, '.'), 1);
}

#[test]
fn to_chars_keeps_every_character() {
    assert_eq!(to_chars("a→b"), vec!['a', '→', 'b']);
    assert_eq!(to_chars(""), Vec::<char>::new());
}

#[test]
fn lines_are_split_at_line_feeds() {
    assert_eq!(split_lines("a\nb\r\nc"), vec!["a", "b", "c"]);
    assert_eq!(split_lines("a\n"), vec!["a"]);
    assert_eq!(split_lines(""), Vec::<&str>::new());
    assert_eq!(split_lines("\n\n"), vec!["", ""]);
    assert_eq!(split_lines("a\rb\n"), vec!["a\rb"]);
    assert_eq!(split_lines("é\nü"), vec!["é", "ü"]);
}

#[test]
fn lines_agree_with_the_standard_splitter() {
    let samples = ["", "a", "a\n", "a\nb", "a\r\nb\r\n", "\n", "\r\n", "a\n\nb", "a\r\n\r\n", "x\ry\nz"];
    for sample in samples {
        let expected: Vec<&str> = sample.lines().collect();
        assert_eq!(split_lines(sample), expected);
    }
}

#[test]
fn connection_holds_what_it_was_made_of() {
    let ip = Ipv4Address { first: 10, second: 0, third: 0, fourth: 1 };
    let connection = Connection::new(ip, 443, 50000, Protocol::Tcp);
    assert_eq!(connection.remote_ip, ip);
    assert_eq!(connection.remote_port, 443);
    assert_eq!(connection.local_port, 50000);
    assert_eq!(connection.protocol, Protocol::Tcp);
    assert_ne!(connection, Connection::new(ip, 443, 50000, Protocol::Udp));
    assert_ne!(connection, Connection::new(ip, 443, 50001, Protocol::Tcp));
}

#[test]
fn addresses_are_written_in_dotted_decimal() {
    let zero = Ipv4Address { first: 0, second: 0, third: 0, fourth: 0 };
    assert_eq!(zero.to_text(), "0.0.0.0");
    let top = Ipv4Address { first: 255, second: 255, third: 255, fourth: 255 };
    assert_eq!(top.to_text(), "255.255.255.255");
    let mixed = Ipv4Address { first: 10, second: 9, third: 100, fourth: 99 };
    assert_eq!(mixed.to_text(), "10.9.100.99");
    let tens = Ipv4Address { first: 101, second: 110, third: 200, fourth: 7 };
    assert_eq!(tens.to_text(), "101.110.200.7");
}

#[test]
fn written_addresses_read_back() {
    let samples = [(0u8, 1u8, 9u8, 10u8), (11, 99, 100, 101), (109, 110, 199, 200), (249, 250, 254, 255)];
    for (first, second, third, fourth) in samples {
        let address = Ipv4Address { first, second, third, fourth };
        assert_eq!(parse_ipv4(&chars(&address.to_text())), Some(address));
    }
}

#[test]
fn contains_text_finds_a_run_of_characters() {
    assert!(contains_text(&chars("abcabd"), &chars("abd")));
    assert!(contains_text(&chars("abcabd"), &chars("abc")));
    assert!(contains_text(&chars("abcabd"), &chars("")));
    assert!(contains_text(&chars(""), &chars("")));
    assert!(!contains_text(&chars("abcabd"), &chars("abe")));
    assert!(!contains_text(&chars("ab"), &chars("abc")));
    assert!(!contains_text(&chars(""), &chars("a")));
    assert!(contains_text(&chars("aab"), &chars("ab")));
}
