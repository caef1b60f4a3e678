use shovel::phase::SocketAddr;
use shovel::proxy_protocol::{
    finish_header, parse_proxy_protocol, parse_v1_protocol, parse_v2_protocol, read_head,
    read_ports, read_to, starts_binary, HeaderStart, ProxyAddresses, ProxyError, ProxyHeader,
};

const V2: [u8; 12] = [0x0D, 0x0A, 0x0D, 0x0A, 0x00, 0x0D, 0x0A, 0x51, 0x55, 0x49, 0x54, 0x0A];

fn v4(text: &str) -> Option<u32> {
    let parts: Option<Vec<u8>> = text.split('.').map(|part| part.parse().ok()).collect();
    match parts?[..] {
        [a, b, c, d] => Some(u32::from_be_bytes([a, b, c, d])),
        _ => None,
    }
}

fn v6(text: &str) -> Option<u128> {
    match text {
        "::1" => Some(1),
        "2001:db8::ff" => Some(0x2001_0db8_0000_0000_0000_0000_0000_00ff),
        _ => None,
    }
}

fn parse(input: &[u8]) -> Result<(ProxyHeader, usize), ProxyError> {
    parse_proxy_protocol(input, v4, v6)
}

#[test]
fn short_addresses_are_read() {
    let input = b"PROXY TCP4 127.0.0.1 192.168.1.1 65535 +443 \r\nrest";
    let expected = ProxyHeader::Version1 {
        addresses: ProxyAddresses::Ipv4 {
            source: SocketAddr::V4 { ip: 0x7f00_0001, port: 65535 },
            destination: SocketAddr::V4 { ip: 0xc0a8_0101, port: 443 },
        },
    };
    assert_eq!(parse(input), Ok((expected, input.len() - 4)));
}

#[test]
fn long_addresses_are_read() {
    let input = b"PROXY TCP6 ::1 2001:db8::ff 1 2 \r\n";
    let expected = ProxyHeader::Version1 {
        addresses: ProxyAddresses::Ipv6 {
            source: SocketAddr::V6 { ip: 1, port: 1, flowinfo: 0, scope_id: 0 },
            destination: SocketAddr::V6 {
                ip: 0x2001_0db8_0000_0000_0000_0000_0000_00ff,
                port: 2,
                flowinfo: 0,
                scope_id: 0,
            },
        },
    };
    assert_eq!(parse(input), Ok((expected, input.len())));
}

#[test]
fn unknown_addresses_are_skipped() {
    let input = b"PROXY UNKNOWN whatever \r stands \n here\r\nrest";
    let expected = ProxyHeader::Version1 { addresses: ProxyAddresses::Unknown };
    assert_eq!(parse(input), Ok((expected, input.len() - 4)));
    let shortest = b"PROXY UNKNOWN\r\n";
    assert_eq!(parse(shortest), Ok((expected, shortest.len())));
}

#[test]
fn what_follows_the_header_changes_nothing() {
    let input = b"PROXY TCP4 1.2.3.4 5.6.7.8 9 10 \r\n";
    let alone = parse(input);
    let mut longer = input.to_vec();
    longer.extend_from_slice(b"PROXY TCP6");
    assert_eq!(parse(&longer), alone);
    for end in 0..input.len() {
        assert_eq!(parse(&input[..end]), Err(ProxyError::EndOfInput), "{end}");
    }
}

#[test]
fn other_signatures_are_refused() {
    assert_eq!(parse(b"GET / HTTP/1.1"), Err(ProxyError::InvalidHeader));
    assert_eq!(parse(b"GET / "), Err(ProxyError::EndOfInput));
}

#[test]
fn other_families_are_refused() {
    assert_eq!(parse(b"PROXY XCP4 1.2.3.4 "), Err(ProxyError::InvalidFamily));
    assert_eq!(parse(b"PROXY TCP5 1.2.3.4 "), Err(ProxyError::InvalidFamilyAfterT));
}

#[test]
fn addresses_of_another_family_are_refused() {
    assert_eq!(
        parse(b"PROXY TCP4 ::1 1.2.3.4 1 2 \r\n"),
        Err(ProxyError::InvalidSourceAddress)
    );
    assert_eq!(
        parse(b"PROXY TCP4 1.2.3.4 1.2.3.400 1 2 \r\n"),
        Err(ProxyError::InvalidDestinationAddress)
    );
    assert_eq!(
        parse(b"PROXY TCP6 1.2.3.4 ::1 1 2 \r\n"),
        Err(ProxyError::InvalidSourceAddress)
    );
    assert_eq!(
        parse(b"PROXY TCP6 ::1 1.2.3.4 01 2 \r\n"),
        Err(ProxyError::InvalidDestinationAddress)
    );
}

#[test]
fn parts_that_are_no_text_are_refused() {
    assert_eq!(parse(b"PROXY TCP4 \xff 1.2.3.4 1 2 \r\n"), Err(ProxyError::NotUtf8));
    assert_eq!(parse(b"PROXY TCP4 1.2.3.4 1.2.3.4 1 \xc3 \r\n"), Err(ProxyError::NotUtf8));
}

#[test]
fn ports_that_are_no_ports_are_refused() {
    let with_ports = |source: &str, destination: &str| {
        parse(format!("PROXY TCP4 1.2.3.4 5.6.7.8 {source} {destination} \r\n").as_bytes())
            .map(|_| ())
    };
    assert_eq!(with_ports("1", "2"), Ok(()));
    assert_eq!(with_ports("+0", "+00065535"), Ok(()));
    assert_eq!(with_ports("01", "x"), Err(ProxyError::PortStartsWithZero));
    assert_eq!(with_ports("x", "0"), Err(ProxyError::PortStartsWithZero));
    for wrong in ["65536", "-1", "", "+", "1a", "++1", "99999999999999999999"] {
        assert_eq!(with_ports(wrong, "2"), Err(ProxyError::InvalidSourcePort), "{wrong}");
        assert_eq!(with_ports("1", wrong), Err(ProxyError::InvalidDestinationPort), "{wrong}");
    }
}

#[test]
fn ports_are_read_as_std_reads_them() {
    for text in ["1", "9", "10", "65535", "65536", "+7", "+", "-7", "7 ", "\u{665}", "1_0"] {
        let input = format!("{text} 1 \r\n");
        let expected = text.parse::<u16>().ok();
        match read_ports(input.as_bytes(), 0) {
            Ok((port, 1, _)) => assert_eq!(Some(port), expected),
            other => assert!(expected.is_none(), "{text} {other:?}"),
        }
    }
}

#[test]
fn headers_end_in_a_line_feed() {
    assert_eq!(
        parse(b"PROXY TCP4 1.2.3.4 5.6.7.8 1 2 \n\r"),
        Err(ProxyError::InvalidExit)
    );
}

#[test]
fn binary_headers_of_other_versions_are_refused() {
    let mut input = V2.to_vec();
    assert_eq!(parse(&input), Err(ProxyError::EndOfInput));
    assert!(!starts_binary(&input));
    input.push(0x11);
    assert_eq!(parse(&input), Err(ProxyError::InvalidVersion));
    assert_eq!(parse_v2_protocol(&[0x31], 0), Err(ProxyError::InvalidVersion));
    assert_eq!(parse_v2_protocol(&[], 0), Err(ProxyError::EndOfInput));
    input[12] = 0x21;
    assert!(starts_binary(&input));
}

#[test]
fn parts_of_headers_are_read() {
    assert_eq!(read_to(b"abc def", 1, b' '), Ok((b"bc".to_vec(), 4)));
    assert_eq!(read_to(b"abc", 0, b' '), Err(ProxyError::EndOfInput));
    assert_eq!(
        read_head(b"TCP4 1.1.1.1 2.2.2.2 3", 0),
        Ok(HeaderStart::Tcp {
            six: false,
            source: b"1.1.1.1".to_vec(),
            destination: b"2.2.2.2".to_vec(),
            end: 21,
        })
    );
    assert_eq!(read_ports(b"x 3 4 \r\n", 2), Ok((3, 4, 8)));
    assert_eq!(
        parse_v1_protocol(b"UNKNOWN\r\n", 0, v4, v6).map(|(_, end)| end),
        Ok(9)
    );
    assert_eq!(
        finish_header(false, None, None, Err(ProxyError::EndOfInput)),
        Err(ProxyError::InvalidSourceAddress)
    );
    assert_eq!(
        finish_header(true, Some(1), None, Err(ProxyError::EndOfInput)),
        Err(ProxyError::InvalidDestinationAddress)
    );
    assert_eq!(
        finish_header(true, Some(1), Some(2), Err(ProxyError::NotUtf8)),
        Err(ProxyError::NotUtf8)
    );
}
