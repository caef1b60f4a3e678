//! The header with which a proxy says on whose behalf it connects.
use crate::phase::SocketAddr;
use vstd::prelude::*;
use vstd::utf8::{decode_utf8, valid_utf8};

verus! {

/// Why a header is refused.
#[derive(Clone, Copy, Debug, PartialEq, Eq, Structural)]
pub enum ProxyError {
    /// The input ends within the header.
    EndOfInput,
    /// The input starts with neither signature.
    InvalidHeader,
    /// The address family starts with a `T`, but is not one that is known.
    InvalidFamilyAfterT,
    /// The address family is not one that is known.
    InvalidFamily,
    /// A part of the header is no text.
    NotUtf8,
    /// The address of the source is none of its family.
    InvalidSourceAddress,
    /// The address of the destination is none of its family.
    InvalidDestinationAddress,
    /// A port starts with a zero.
    PortStartsWithZero,
    /// The port of the source is no number below 65536.
    InvalidSourcePort,
    /// The port of the destination is no number below 65536.
    InvalidDestinationPort,
    /// The header does not end in a line feed.
    InvalidExit,
    /// The binary header has another version.
    InvalidVersion,
}

/// On whose behalf a proxy connects, and to whom.
#[derive(Clone, Copy, Debug, PartialEq, Eq, Structural)]
pub enum ProxyAddresses {
    Unknown,
    Ipv4 { source: SocketAddr, destination: SocketAddr },
    Ipv6 { source: SocketAddr, destination: SocketAddr },
}

/// What a header says.
#[derive(Clone, Copy, Debug, PartialEq, Eq, Structural)]
pub enum ProxyHeader {
    Version1 { addresses: ProxyAddresses },
}

/// The bytes that end a line.
pub const CR: u8 = 0x0D;

pub const LF: u8 = 0x0A;

/// The byte that ends a part of the header.
pub const SPACE: u8 = 0x20;

/// The first place, from `at` on, where a byte stands.
pub open spec fn find(s: Seq<u8>, at: int, byte: u8) -> Option<int>
    decreases s.len() - at,
{
    if at < 0 || at >= s.len() {
        None
    } else if s[at] == byte {
        Some(at)
    } else {
        find(s, at + 1, byte)
    }
}

/// The first place, from `at` on, where a line ends.
pub open spec fn find_line_end(s: Seq<u8>, at: int) -> Option<int>
    decreases s.len() - at,
{
    if at < 0 || at + 1 >= s.len() {
        None
    } else if s[at] == CR && s[at + 1] == LF {
        Some(at)
    } else {
        find_line_end(s, at + 1)
    }
}

/// The byte at a place.
pub open spec fn byte_at(s: Seq<u8>, at: int) -> Result<u8, ProxyError> {
    if at < s.len() {
        Ok(s[at])
    } else {
        Err(ProxyError::EndOfInput)
    }
}

/// The place `n` bytes further on, or the end where there are fewer.
pub open spec fn skipped(s: Seq<u8>, at: int, n: int) -> int {
    if at + n <= s.len() {
        at + n
    } else {
        s.len() as int
    }
}

/// The text up to the next space, and the place behind that space.
pub open spec fn token(s: Seq<u8>, at: int) -> Result<(Seq<u8>, int), ProxyError> {
    match find(s, at, SPACE) {
        None => Err(ProxyError::EndOfInput),
        Some(end) => if valid_utf8(s.subrange(at, end)) {
            Ok((s.subrange(at, end), end + 1))
        } else {
            Err(ProxyError::NotUtf8)
        },
    }
}

/// The part of a textual header before the ports.
pub enum Head {
    Unknown { end: int },
    Tcp { six: bool, source: Seq<u8>, destination: Seq<u8>, end: int },
}

/// The two addresses behind the address family.
pub open spec fn tcp_head(s: Seq<u8>, at: int, six: bool) -> Result<Head, ProxyError> {
    match token(s, skipped(s, at, 1)) {
        Err(e) => Err(e),
        Ok((source, p)) => match token(s, p) {
            Err(e) => Err(e),
            Ok((destination, end)) => Ok(Head::Tcp { six, source, destination, end }),
        },
    }
}

/// The part of a textual header before the ports.
pub open spec fn head(s: Seq<u8>, at: int) -> Result<Head, ProxyError> {
    match byte_at(s, at) {
        Err(e) => Err(e),
        Ok(step) => if step == 0x54 {
            let p = skipped(s, at + 1, 2);
            match byte_at(s, p) {
                Err(e) => Err(e),
                Ok(version) => if version == 0x34 {
                    tcp_head(s, p + 1, false)
                } else if version == 0x36 {
                    tcp_head(s, p + 1, true)
                } else {
                    Err(ProxyError::InvalidFamilyAfterT)
                },
            }
        } else if step == 0x55 {
            match find_line_end(s, skipped(s, at + 1, 6)) {
                Some(i) => Ok(Head::Unknown { end: i + 2 }),
                None => Err(ProxyError::EndOfInput),
            }
        } else {
            Err(ProxyError::InvalidFamily)
        },
    }
}

/// The number that decimal digits stand for; nothing where there are other bytes.
pub open spec fn decimal(digits: Seq<u8>) -> Option<nat>
    decreases digits.len(),
{
    if digits.len() == 0 {
        Some(0)
    } else {
        match decimal(digits.drop_last()) {
            Some(n) if 0x30 <= digits.last() <= 0x39 => Some(
                n * 10 + (digits.last() - 0x30) as nat,
            ),
            _ => None,
        }
    }
}

/// The port that a text stands for: decimal digits, with or without a plus sign in front.
pub open spec fn port_of(text: Seq<u8>) -> Option<u16> {
    let digits = if text.len() > 0 && text[0] == 0x2B {
        text.skip(1)
    } else {
        text
    };
    match decimal(digits) {
        Some(n) if digits.len() > 0 && n <= u16::MAX => Some(n as u16),
        _ => None,
    }
}

/// Whether a text starts with a zero.
pub open spec fn starts_with_zero(text: Seq<u8>) -> bool {
    text.len() > 0 && text[0] == 0x30
}

/// The two ports, and the place behind the end of the header.
pub open spec fn ports(s: Seq<u8>, at: int) -> Result<(u16, u16, int), ProxyError> {
    match token(s, at) {
        Err(e) => Err(e),
        Ok((source, p)) => match token(s, p) {
            Err(e) => Err(e),
            Ok((destination, q)) => if starts_with_zero(source) || starts_with_zero(destination) {
                Err(ProxyError::PortStartsWithZero)
            } else {
                match (port_of(source), port_of(destination)) {
                    (None, _) => Err(ProxyError::InvalidSourcePort),
                    (_, None) => Err(ProxyError::InvalidDestinationPort),
                    (Some(source_port), Some(destination_port)) => if q + 2 > s.len() {
                        Err(ProxyError::EndOfInput)
                    } else if s[q] != CR || s[q + 1] != LF {
                        Err(ProxyError::InvalidExit)
                    } else {
                        Ok((source_port, destination_port, q + 2))
                    },
                }
            },
        },
    }
}

/// Reads a byte.
fn read_u8(input: &[u8], at: usize) -> (r: Result<u8, ProxyError>)
    ensures
        r == byte_at(input@, at as int),
{
    if at < input.len() {
        Ok(input[at])
    } else {
        Err(ProxyError::EndOfInput)
    }
}

/// Skips bytes.
fn skip(input: &[u8], at: usize, n: usize) -> (to: usize)
    requires
        at <= input@.len(),
    ensures
        to == skipped(input@, at as int, n as int),
{
    let total: usize = input.len();
    if n <= total - at {
        at + n
    } else {
        total
    }
}

/// The part of the input before the next `byte`, and the place behind it.
pub fn read_to(input: &[u8], at: usize, byte: u8) -> (r: Result<(Vec<u8>, usize), ProxyError>)
    requires
        at <= input@.len(),
    ensures
        match (find(input@, at as int, byte), r) {
            (None, Err(e)) => e == ProxyError::EndOfInput,
            (Some(end), Ok((bytes, behind))) => {
                &&& bytes@ == input@.subrange(at as int, end)
                &&& behind == end + 1
                &&& behind <= input@.len()
            },
            _ => false,
        },
{
    let total: usize = input.len();
    let mut bytes: Vec<u8> = Vec::new();
    let mut i: usize = at;
    while i < total
        invariant
            at <= i <= total,
            total == input@.len(),
            bytes@ == input@.subrange(at as int, i as int),
            find(input@, at as int, byte) == find(input@, i as int, byte),
        decreases total - i,
    {
        let next: u8 = input[i];
        if next == byte {
            return Ok((bytes, i + 1));
        }
        bytes.push(next);
        assert(bytes@ =~= input@.subrange(at as int, i + 1));
        i = i + 1;
    }
    Err(ProxyError::EndOfInput)
}

/// `std::str::from_utf8`: the text that bytes encode, where they encode one.
#[verifier::external_body]
fn as_text(bytes: &[u8]) -> (text: Option<&str>)
    ensures
        match text {
            Some(t) => valid_utf8(bytes@) && t@ == decode_utf8(bytes@),
            None => !valid_utf8(bytes@),
        },
{
    std::str::from_utf8(bytes).ok()
}

/// Reads the text up to the next space.
fn read_token(input: &[u8], at: usize) -> (r: Result<(Vec<u8>, usize), ProxyError>)
    requires
        at <= input@.len(),
    ensures
        match (token(input@, at as int), r) {
            (Err(e), Err(f)) => e == f,
            (Ok((bytes, behind)), Ok((read, to))) => {
                &&& read@ == bytes
                &&& to == behind
                &&& to <= input@.len()
                &&& valid_utf8(bytes)
            },
            _ => false,
        },
{
    match read_to(input, at, SPACE) {
        Err(e) => Err(e),
        Ok((bytes, behind)) => match as_text(&bytes) {
            Some(_) => Ok((bytes, behind)),
            None => Err(ProxyError::NotUtf8),
        },
    }
}

fn decimal_below(digits: &[u8], from: usize, limit: u32) -> (r: Option<u32>)
    requires
        from <= digits@.len(),
        limit <= 100_000_000,
    ensures
        r == (match decimal(digits@.skip(from as int)) {
            Some(n) if n < limit => Some(n as u32),
            _ => None,
        }),
{
    let total: usize = digits.len();
    let ghost all = digits@.skip(from as int);
    let mut n: u32 = 0;
    let mut i: usize = from;
    let mut fits: bool = true;
    if limit == 0 {
        return None;
    }
    while i < total
        invariant
            from <= i <= total,
            total == digits@.len(),
            all == digits@.skip(from as int),
            limit <= 100_000_000,
            fits ==> n < limit && decimal(all.take(i - from)) == Some(n as nat),
            !fits ==> (match decimal(all.take(i - from)) {
                Some(m) => m >= limit,
                None => true,
            }),
        decreases total - i,
    {
        let digit: u8 = digits[i];
        let ghost next = all.take(i - from + 1);
        proof {
            assert(next.drop_last() =~= all.take(i - from));
            assert(next.last() == digit);
        }
        if fits {
            if digit < 0x30 || digit > 0x39 {
                fits = false;
            } else {
                n = n * 10 + (digit - 0x30) as u32;
                if n >= limit {
                    fits = false;
                }
            }
        }
        i = i + 1;
    }
    assert(all.take(i - from) =~= all);
    if fits {
        Some(n)
    } else {
        None
    }
}

/// Reads a port.
fn parse_port(text: &[u8]) -> (port: Option<u16>)
    ensures
        port == port_of(text@),
{
    let from: usize = if text.len() > 0 && text[0] == 0x2B {
        1
    } else {
        0
    };
    assert(text@.skip(0) =~= text@);
    if from == text.len() {
        return None;
    }
    match decimal_below(text, from, 65536) {
        Some(n) => Some(n as u16),
        None => None,
    }
}

fn has_leading_zero(text: &[u8]) -> (r: bool)
    ensures
        r == starts_with_zero(text@),
{
    text.len() > 0 && text[0] == 0x30
}

/// The part of a textual header before the ports, as it was read.
#[derive(Debug, PartialEq)]
pub enum HeaderStart {
    /// The proxy does not say on whose behalf it connects, and the header ends here.
    Unknown { end: usize },
    /// The two addresses, and where the ports start.
    Tcp { six: bool, source: Vec<u8>, destination: Vec<u8>, end: usize },
}

impl HeaderStart {
    /// What was read.
    pub open spec fn parts(&self) -> Head {
        match *self {
            HeaderStart::Unknown { end } => Head::Unknown { end: end as int },
            HeaderStart::Tcp { six, source, destination, end } => Head::Tcp {
                six,
                source: source@,
                destination: destination@,
                end: end as int,
            },
        }
    }

    /// The place behind what was read.
    pub open spec fn behind(&self) -> usize {
        match *self {
            HeaderStart::Unknown { end } => end,
            HeaderStart::Tcp { end, .. } => end,
        }
    }
}

fn read_addresses(input: &[u8], at: usize, six: bool) -> (r: Result<HeaderStart, ProxyError>)
    requires
        at <= input@.len(),
    ensures
        match (tcp_head(input@, at as int, six), r) {
            (Err(e), Err(f)) => e == f,
            (Ok(parts), Ok(start)) => {
                &&& start.parts() == parts
                &&& start.behind() <= input@.len()
                &&& start matches HeaderStart::Tcp { source, destination, .. } && valid_utf8(
                    source@,
                ) && valid_utf8(destination@)
            },
            _ => false,
        },
{
    match read_token(input, skip(input, at, 1)) {
        Err(e) => Err(e),
        Ok((source, p)) => match read_token(input, p) {
            Err(e) => Err(e),
            Ok((destination, end)) => Ok(HeaderStart::Tcp { six, source, destination, end }),
        },
    }
}

fn skip_line(input: &[u8], at: usize) -> (r: Result<usize, ProxyError>)
    requires
        at <= input@.len(),
    ensures
        match (find_line_end(input@, at as int), r) {
            (Some(end), Ok(behind)) => behind == end + 2 && behind <= input@.len(),
            (None, Err(e)) => e == ProxyError::EndOfInput,
            _ => false,
        },
{
    let total: usize = input.len();
    let mut cr: bool = false;
    let mut i: usize = at;
    while i < total
        invariant
            at <= i <= total,
            total == input@.len(),
            cr ==> at < i && input@[i - 1] == CR,
            !cr ==> at == i || input@[i - 1] != CR,
            find_line_end(input@, at as int) == (if at < i {
                find_line_end(input@, i - 1)
            } else {
                find_line_end(input@, i as int)
            }),
        decreases total - i,
    {
        let next: u8 = input[i];
        if cr && next == LF {
            return Ok(i + 1);
        }
        cr = next == CR;
        i = i + 1;
    }
    Err(ProxyError::EndOfInput)
}

/// Reads the part of a textual header before the ports. The text starts at `at`.
pub fn read_head(input: &[u8], at: usize) -> (r: Result<HeaderStart, ProxyError>)
    requires
        at <= input@.len(),
    ensures
        match (head(input@, at as int), r) {
            (Err(e), Err(f)) => e == f,
            (Ok(parts), Ok(start)) => {
                &&& start.parts() == parts
                &&& start.behind() <= input@.len()
                &&& start matches HeaderStart::Tcp { source, destination, .. } ==> valid_utf8(
                    source@,
                ) && valid_utf8(destination@)
            },
            _ => false,
        },
{
    let total: usize = input.len();
    assert(total == input@.len());
    match read_u8(input, at) {
        Err(e) => Err(e),
        Ok(step) => match step {
            0x54 => {
                let p: usize = skip(input, at + 1, 2);
                match read_u8(input, p) {
                    Err(e) => Err(e),
                    Ok(version) => match version {
                        0x34 => read_addresses(input, p + 1, false),
                        0x36 => read_addresses(input, p + 1, true),
                        _ => Err(ProxyError::InvalidFamilyAfterT),
                    },
                }
            },
            0x55 => match skip_line(input, skip(input, at + 1, 6)) {
                Err(e) => Err(e),
                Ok(end) => Ok(HeaderStart::Unknown { end }),
            },
            _ => Err(ProxyError::InvalidFamily),
        },
    }
}

/// Reads the two ports and the end of a textual header.
pub fn read_ports(input: &[u8], at: usize) -> (r: Result<(u16, u16, usize), ProxyError>)
    requires
        at <= input@.len(),
    ensures
        match (ports(input@, at as int), r) {
            (Err(e), Err(f)) => e == f,
            (Ok((source, destination, end)), Ok((a, b, to))) => {
                &&& a == source
                &&& b == destination
                &&& to == end
                &&& to <= input@.len()
            },
            _ => false,
        },
{
    match read_token(input, at) {
        Err(e) => Err(e),
        Ok((source, p)) => match read_token(input, p) {
            Err(e) => Err(e),
            Ok((destination, q)) => {
                if has_leading_zero(&source) || has_leading_zero(&destination) {
                    return Err(ProxyError::PortStartsWithZero);
                }
                match (parse_port(&source), parse_port(&destination)) {
                    (None, _) => Err(ProxyError::InvalidSourcePort),
                    (_, None) => Err(ProxyError::InvalidDestinationPort),
                    (Some(source_port), Some(destination_port)) => {
                        if input.len() - q < 2 {
                            Err(ProxyError::EndOfInput)
                        } else if input[q] != CR || input[q + 1] != LF {
                            Err(ProxyError::InvalidExit)
                        } else {
                            Ok((source_port, destination_port, q + 2))
                        }
                    },
                }
            },
        },
    }
}

/// A header and the place behind it, as a place in the input.
pub open spec fn placed(r: Result<(ProxyHeader, int), ProxyError>) -> Result<
    (ProxyHeader, usize),
    ProxyError,
> {
    match r {
        Ok((header, end)) => Ok((header, end as usize)),
        Err(e) => Err(e),
    }
}

/// The header with the given addresses, of which the first that is none is complained of.
pub open spec fn tcp_header(
    six: bool,
    source: Option<u128>,
    destination: Option<u128>,
    ports: Result<(u16, u16, int), ProxyError>,
) -> Result<(ProxyHeader, int), ProxyError> {
    match (source, destination, ports) {
        (None, _, _) => Err(ProxyError::InvalidSourceAddress),
        (_, None, _) => Err(ProxyError::InvalidDestinationAddress),
        (_, _, Err(e)) => Err(e),
        (Some(source), Some(destination), Ok((source_port, destination_port, end))) => {
            let addresses = if six {
                ProxyAddresses::Ipv6 {
                    source: SocketAddr::V6 {
                        ip: source,
                        port: source_port,
                        flowinfo: 0,
                        scope_id: 0,
                    },
                    destination: SocketAddr::V6 {
                        ip: destination,
                        port: destination_port,
                        flowinfo: 0,
                        scope_id: 0,
                    },
                }
            } else {
                ProxyAddresses::Ipv4 {
                    source: SocketAddr::V4 { ip: source as u32, port: source_port },
                    destination: SocketAddr::V4 { ip: destination as u32, port: destination_port },
                }
            };
            Ok((ProxyHeader::Version1 { addresses }, end))
        },
    }
}

/// What a textual header says, where `source` and `destination` are its addresses, and the
/// place behind it.
pub open spec fn textual_header(
    s: Seq<u8>,
    at: int,
    source: Option<u128>,
    destination: Option<u128>,
) -> Result<(ProxyHeader, int), ProxyError> {
    match head(s, at) {
        Err(e) => Err(e),
        Ok(Head::Unknown { end }) => Ok(
            (ProxyHeader::Version1 { addresses: ProxyAddresses::Unknown }, end),
        ),
        Ok(Head::Tcp { six, end, .. }) => tcp_header(six, source, destination, ports(s, end)),
    }
}

/// Whether a function for short addresses can make an address of a text.
pub open spec fn reads_v4<F: Fn(&str) -> Option<u32>>(
    parse: F,
    text: Seq<u8>,
    address: Option<u128>,
) -> bool {
    exists|t: &str, ip: Option<u32>|
        {
            &&& t@ == decode_utf8(text)
            &&& #[trigger] parse.ensures((t,), ip)
            &&& address == (match ip {
                Some(ip) => Some(ip as u128),
                None => None,
            })
        }
}

/// Whether a function for long addresses can make an address of a text.
pub open spec fn reads_v6<F: Fn(&str) -> Option<u128>>(
    parse: F,
    text: Seq<u8>,
    address: Option<u128>,
) -> bool {
    exists|t: &str| t@ == decode_utf8(text) && #[trigger] parse.ensures((t,), address)
}

fn parse_address<F: Fn(&str) -> Option<u32>, G: Fn(&str) -> Option<u128>>(
    six: bool,
    bytes: &Vec<u8>,
    parse_v4: &F,
    parse_v6: &G,
) -> (address: Option<u128>)
    requires
        valid_utf8(bytes@),
        forall|t: &str| parse_v4.requires((t,)),
        forall|t: &str| parse_v6.requires((t,)),
    ensures
        six ==> reads_v6(*parse_v6, bytes@, address),
        !six ==> reads_v4(*parse_v4, bytes@, address),
{
    match as_text(bytes) {
        Some(text) => if six {
            parse_v6(text)
        } else {
            match parse_v4(text) {
                Some(ip) => Some(ip as u128),
                None => None,
            }
        },
        None => None,
    }
}

/// Whether addresses can be those of a textual header.
pub open spec fn addresses_read<F: Fn(&str) -> Option<u32>, G: Fn(&str) -> Option<u128>>(
    s: Seq<u8>,
    at: int,
    parse_v4: F,
    parse_v6: G,
    source: Option<u128>,
    destination: Option<u128>,
) -> bool {
    match head(s, at) {
        Ok(Head::Tcp { six: false, source: a, destination: b, .. }) => {
            &&& reads_v4(parse_v4, a, source)
            &&& source is Some ==> reads_v4(parse_v4, b, destination)
        },
        Ok(Head::Tcp { six: true, source: a, destination: b, .. }) => {
            &&& reads_v6(parse_v6, a, source)
            &&& source is Some ==> reads_v6(parse_v6, b, destination)
        },
        _ => true,
    }
}

/// Reads a textual header. The text starts at `at`; the addresses in it are read by the
/// given functions.
pub fn parse_v1_protocol<F: Fn(&str) -> Option<u32>, G: Fn(&str) -> Option<u128>>(
    input: &[u8],
    at: usize,
    parse_v4: F,
    parse_v6: G,
) -> (r: Result<(ProxyHeader, usize), ProxyError>)
    requires
        at <= input@.len(),
        forall|t: &str| parse_v4.requires((t,)),
        forall|t: &str| parse_v6.requires((t,)),
    ensures
        exists|source: Option<u128>, destination: Option<u128>|
            {
                &&& r == placed(
                    #[trigger] textual_header(input@, at as int, source, destination),
                )
                &&& addresses_read(input@, at as int, parse_v4, parse_v6, source, destination)
            },
{
    let start: HeaderStart = match read_head(input, at) {
        Err(e) => {
            assert(textual_header(input@, at as int, None, None) == Err::<
                (ProxyHeader, int),
                ProxyError,
            >(e));
            return Err(e);
        },
        Ok(start) => start,
    };
    match start {
        HeaderStart::Unknown { end } => {
            let header: ProxyHeader = ProxyHeader::Version1 { addresses: ProxyAddresses::Unknown };
            assert(textual_header(input@, at as int, None, None) == Ok::<
                (ProxyHeader, int),
                ProxyError,
            >((header, end as int)));
            Ok((header, end))
        },
        HeaderStart::Tcp { six, source, destination, end } => {
            let source_ip: Option<u128> = parse_address(six, &source, &parse_v4, &parse_v6);
            if source_ip.is_none() {
                assert(textual_header(input@, at as int, source_ip, None) == Err::<
                    (ProxyHeader, int),
                    ProxyError,
                >(ProxyError::InvalidSourceAddress));
                return Err(ProxyError::InvalidSourceAddress);
            }
            let destination_ip: Option<u128> = parse_address(
                six,
                &destination,
                &parse_v4,
                &parse_v6,
            );
            let ports_read: Result<(u16, u16, usize), ProxyError> = read_ports(input, end);
            let r: Result<(ProxyHeader, usize), ProxyError> = finish_header(
                six,
                source_ip,
                destination_ip,
                ports_read,
            );
            assert(r == placed(textual_header(input@, at as int, source_ip, destination_ip)));
            r
        },
    }
}

/// Puts a textual header together.
pub fn finish_header(
    six: bool,
    source: Option<u128>,
    destination: Option<u128>,
    ports: Result<(u16, u16, usize), ProxyError>,
) -> (r: Result<(ProxyHeader, usize), ProxyError>)
    ensures
        r == placed(
            tcp_header(
                six,
                source,
                destination,
                match ports {
                    Ok((a, b, end)) => Ok((a, b, end as int)),
                    Err(e) => Err(e),
                },
            ),
        ),
{
    let source_ip: u128 = match source {
        Some(ip) => ip,
        None => return Err(ProxyError::InvalidSourceAddress),
    };
    let destination_ip: u128 = match destination {
        Some(ip) => ip,
        None => return Err(ProxyError::InvalidDestinationAddress),
    };
    let (source_port, destination_port, end): (u16, u16, usize) = match ports {
        Ok(read) => read,
        Err(e) => return Err(e),
    };
    let addresses: ProxyAddresses = if six {
        ProxyAddresses::Ipv6 {
            source: SocketAddr::V6 { ip: source_ip, port: source_port, flowinfo: 0, scope_id: 0 },
            destination: SocketAddr::V6 {
                ip: destination_ip,
                port: destination_port,
                flowinfo: 0,
                scope_id: 0,
            },
        }
    } else {
        ProxyAddresses::Ipv4 {
            source: SocketAddr::V4 { ip: source_ip as u32, port: source_port },
            destination: SocketAddr::V4 { ip: destination_ip as u32, port: destination_port },
        }
    };
    Ok((ProxyHeader::Version1 { addresses }, end))
}

/// The bytes that a textual header starts with.
pub open spec fn v1_signature() -> Seq<u8> {
    seq![0x50u8, 0x52, 0x4F, 0x58, 0x59, 0x20]
}

/// The bytes that a binary header starts with.
pub open spec fn v2_signature() -> Seq<u8> {
    seq![0x0Du8, 0x0A, 0x0D, 0x0A, 0x00, 0x0D, 0x0A, 0x51, 0x55, 0x49, 0x54, 0x0A]
}

fn has_v1_signature(input: &[u8]) -> (r: bool)
    requires
        input@.len() >= 6,
    ensures
        r == (input@.take(6) == v1_signature()),
{
    let r: bool = input[0] == 0x50 && input[1] == 0x52 && input[2] == 0x4F && input[3] == 0x58
        && input[4] == 0x59 && input[5] == 0x20;
    proof {
        let (a, b) = (input@.take(6), v1_signature());
        if r {
            assert(a =~= b);
        } else {
            assert(b[0] == 0x50 && b[1] == 0x52 && b[2] == 0x4F && b[3] == 0x58 && b[4] == 0x59
                && b[5] == 0x20);
            assert(a[0] == input@[0] && a[1] == input@[1] && a[2] == input@[2] && a[3] == input@[3]
                && a[4] == input@[4] && a[5] == input@[5]);
        }
    }
    r
}

fn has_v2_signature(input: &[u8]) -> (r: bool)
    requires
        input@.len() >= 12,
    ensures
        r == (input@.take(12) == v2_signature()),
{
    let r: bool = input[0] == 0x0D && input[1] == 0x0A && input[2] == 0x0D && input[3] == 0x0A
        && input[4] == 0x00 && input[5] == 0x0D && input[6] == 0x0A && input[7] == 0x51 && input[8]
        == 0x55 && input[9] == 0x49 && input[10] == 0x54 && input[11] == 0x0A;
    proof {
        let (a, b) = (input@.take(12), v2_signature());
        if r {
            assert(a =~= b);
        } else {
            assert(b[0] == 0x0D && b[1] == 0x0A && b[2] == 0x0D && b[3] == 0x0A && b[4] == 0x00
                && b[5] == 0x0D && b[6] == 0x0A && b[7] == 0x51 && b[8] == 0x55 && b[9] == 0x49
                && b[10] == 0x54 && b[11] == 0x0A);
            assert(a[0] == input@[0] && a[1] == input@[1] && a[2] == input@[2] && a[3] == input@[3]
                && a[4] == input@[4] && a[5] == input@[5] && a[6] == input@[6] && a[7] == input@[7]
                && a[8] == input@[8] && a[9] == input@[9] && a[10] == input@[10] && a[11]
                == input@[11]);
        }
    }
    r
}

/// Reads a binary header. Version 2, the only one there is, is not read.
pub fn parse_v2_protocol(input: &[u8], at: usize) -> (r: Result<(ProxyHeader, usize), ProxyError>)
    requires
        at < input@.len() ==> input@[at as int] / 16 != 2,
    ensures
        r == Err::<(ProxyHeader, usize), ProxyError>(
            if at < input@.len() {
                ProxyError::InvalidVersion
            } else {
                ProxyError::EndOfInput
            },
        ),
{
    match read_u8(input, at) {
        Err(e) => Err(e),
        Ok(_) => Err(ProxyError::InvalidVersion),
    }
}

/// Whether the input starts with a binary header of version 2.
pub open spec fn is_binary(s: Seq<u8>) -> bool {
    s.len() > 12 && s.take(12) == v2_signature() && s[12] / 16 == 2
}

/// Tests whether the input starts with a binary header of version 2.
pub fn starts_binary(input: &[u8]) -> (r: bool)
    ensures
        r == is_binary(input@),
{
    input.len() > 12 && has_v2_signature(input) && input[12] / 16 == 2
}

/// What the header at the start of the input says, where `source` and `destination` are the
/// addresses in it, and the place behind it.
pub open spec fn proxy_header(
    s: Seq<u8>,
    source: Option<u128>,
    destination: Option<u128>,
) -> Result<(ProxyHeader, int), ProxyError> {
    if s.len() < 6 {
        Err(ProxyError::EndOfInput)
    } else if s.take(6) == v1_signature() {
        textual_header(s, 6, source, destination)
    } else if s.len() < 12 {
        Err(ProxyError::EndOfInput)
    } else if s.take(12) != v2_signature() {
        Err(ProxyError::InvalidHeader)
    } else if s.len() == 12 {
        Err(ProxyError::EndOfInput)
    } else {
        Err(ProxyError::InvalidVersion)
    }
}

/// Reads the header at the start of the input; addresses in it are read by the given
/// functions. With it comes the place behind it.
pub fn parse_proxy_protocol<F: Fn(&str) -> Option<u32>, G: Fn(&str) -> Option<u128>>(
    input: &[u8],
    parse_v4: F,
    parse_v6: G,
) -> (r: Result<(ProxyHeader, usize), ProxyError>)
    requires
        !is_binary(input@),
        forall|t: &str| parse_v4.requires((t,)),
        forall|t: &str| parse_v6.requires((t,)),
    ensures
        exists|source: Option<u128>, destination: Option<u128>|
            {
                &&& r == placed(#[trigger] proxy_header(input@, source, destination))
                &&& input@.len() >= 6 && input@.take(6) == v1_signature() ==> addresses_read(
                    input@,
                    6,
                    parse_v4,
                    parse_v6,
                    source,
                    destination,
                )
            },
{
    let total: usize = input.len();
    if total < 6 {
        assert(proxy_header(input@, None, None) == Err::<(ProxyHeader, int), ProxyError>(
            ProxyError::EndOfInput,
        ));
        return Err(ProxyError::EndOfInput);
    }
    if has_v1_signature(input) {
        let r: Result<(ProxyHeader, usize), ProxyError> = parse_v1_protocol(
            input,
            6,
            parse_v4,
            parse_v6,
        );
        proof {
            let (source, destination) = choose|source: Option<u128>, destination: Option<u128>|
                {
                    &&& r == placed(#[trigger] textual_header(input@, 6, source, destination))
                    &&& addresses_read(input@, 6, parse_v4, parse_v6, source, destination)
                };
            assert(r == placed(proxy_header(input@, source, destination)));
        }
        return r;
    }
    let ghost refused = proxy_header(input@, None, None);
    assert(refused is Err);
    if total < 12 {
        return Err(ProxyError::EndOfInput);
    }
    if has_v2_signature(input) {
        return parse_v2_protocol(input, 12);
    }
    Err(ProxyError::InvalidHeader)
}

proof fn lemma_find(s: Seq<u8>, more: Seq<u8>, at: int, byte: u8)
    requires
        0 <= at <= s.len(),
    ensures
        find(s, at, byte) matches Some(end) ==> at <= end < s.len() && find(s + more, at, byte)
            == Some(end),
    decreases s.len() - at,
{
    if at < s.len() && s[at] != byte {
        lemma_find(s, more, at + 1, byte);
    }
}

proof fn lemma_find_line_end(s: Seq<u8>, more: Seq<u8>, at: int)
    requires
        0 <= at <= s.len(),
    ensures
        find_line_end(s, at) matches Some(end) ==> find_line_end(s + more, at) == Some(end),
    decreases s.len() - at,
{
    if at + 1 < s.len() && !(s[at] == CR && s[at + 1] == LF) {
        lemma_find_line_end(s, more, at + 1);
    }
}

proof fn lemma_token(s: Seq<u8>, more: Seq<u8>, at: int)
    requires
        0 <= at <= s.len(),
    ensures
        token(s, at) != Err::<(Seq<u8>, int), ProxyError>(ProxyError::EndOfInput) ==> token(
            s + more,
            at,
        ) == token(s, at),
        token(s, at) matches Ok((_, behind)) ==> at < behind <= s.len(),
{
    lemma_find(s, more, at, SPACE);
    if let Some(end) = find(s, at, SPACE) {
        assert((s + more).subrange(at, end) =~= s.subrange(at, end));
    }
}

proof fn lemma_tcp_head(s: Seq<u8>, more: Seq<u8>, at: int, six: bool)
    requires
        0 <= at <= s.len(),
    ensures
        tcp_head(s, at, six) != Err::<Head, ProxyError>(ProxyError::EndOfInput) ==> tcp_head(
            s + more,
            at,
            six,
        ) == tcp_head(s, at, six),
        tcp_head(s, at, six) matches Ok(Head::Tcp { end, .. }) ==> 0 <= end <= s.len(),
{
    let p = skipped(s, at, 1);
    lemma_token(s, more, p);
    if let Ok((_, q)) = token(s, p) {
        lemma_token(s, more, q);
    }
}

proof fn lemma_head(s: Seq<u8>, more: Seq<u8>, at: int)
    requires
        0 <= at <= s.len(),
    ensures
        head(s, at) != Err::<Head, ProxyError>(ProxyError::EndOfInput) ==> head(s + more, at)
            == head(s, at),
        head(s, at) matches Ok(Head::Tcp { end, .. }) ==> 0 <= end <= s.len(),
{
    if at < s.len() {
        let p = skipped(s, at + 1, 2);
        if p < s.len() {
            lemma_tcp_head(s, more, p + 1, false);
            lemma_tcp_head(s, more, p + 1, true);
        }
        lemma_find_line_end(s, more, skipped(s, at + 1, 6));
    }
}

proof fn lemma_ports(s: Seq<u8>, more: Seq<u8>, at: int)
    requires
        0 <= at <= s.len(),
    ensures
        ports(s, at) != Err::<(u16, u16, int), ProxyError>(ProxyError::EndOfInput) ==> ports(
            s + more,
            at,
        ) == ports(s, at),
{
    lemma_token(s, more, at);
    if let Ok((_, p)) = token(s, at) {
        lemma_token(s, more, p);
    }
}

/// Once the input says what its header is, or that it has none, what follows it changes
/// nothing: only where the input ends too early can more of it help.
pub proof fn header_ignores_what_follows(
    s: Seq<u8>,
    more: Seq<u8>,
    source: Option<u128>,
    destination: Option<u128>,
)
    requires
        proxy_header(s, source, destination) != Err::<(ProxyHeader, int), ProxyError>(
            ProxyError::EndOfInput,
        ),
    ensures
        proxy_header(s + more, source, destination) == proxy_header(s, source, destination),
{
    assert((s + more).take(6) =~= s.take(6));
    if s.len() >= 12 {
        assert((s + more).take(12) =~= s.take(12));
    }
    lemma_head(s, more, 6);
    if let Ok(Head::Tcp { end, .. }) = head(s, 6) {
        lemma_ports(s, more, end);
    }
}

/// A number in decimal digits, without zeros in front.
pub open spec fn decimal_text(n: nat) -> Seq<u8>
    decreases n,
{
    if n < 10 {
        seq![(0x30 + n) as u8]
    } else {
        decimal_text(n / 10).push((0x30 + n % 10) as u8)
    }
}

proof fn lemma_decimal_text(n: nat)
    ensures
        decimal(decimal_text(n)) == Some(n),
        decimal_text(n).len() > 0,
        n > 0 ==> decimal_text(n)[0] != 0x30,
        forall|i: int|
            0 <= i < decimal_text(n).len() ==> 0x30 <= #[trigger] decimal_text(n)[i] <= 0x39,
    decreases n,
{
    let text = decimal_text(n);
    if n < 10 {
        assert(text.drop_last() =~= Seq::<u8>::empty());
        assert(decimal(text.drop_last()) == Some(0nat));
    } else {
        lemma_decimal_text(n / 10);
        assert(text.drop_last() =~= decimal_text(n / 10));
        assert(text[0] == decimal_text(n / 10)[0]);
    }
}

/// A port reads back from its decimal digits, and a number that is too great for a port is
/// none.
pub proof fn ports_read_back(n: nat)
    ensures
        n <= 65535 ==> port_of(decimal_text(n)) == Some(n as u16),
        n > 65535 ==> port_of(decimal_text(n)) is None,
        port_of(seq![0x2Bu8] + decimal_text(n)) == port_of(decimal_text(n)),
{
    lemma_decimal_text(n);
    assert((seq![0x2Bu8] + decimal_text(n)).skip(1) =~= decimal_text(n));
    assert(decimal_text(n)[0] >= 0x30);
}

/// Whether no space stands in a text.
pub open spec fn spaceless(text: Seq<u8>) -> bool {
    forall|i: int| 0 <= i < text.len() ==> #[trigger] text[i] != 0x20
}

/// A textual header for two addresses and two ports, as a proxy writes it: `PROXY TCP4` or
/// `PROXY TCP6`, the address of the source and that of the destination, their ports, each
/// followed by a space, and the end of the line.
pub open spec fn written_header(
    six: bool,
    source: Seq<u8>,
    destination: Seq<u8>,
    source_port: Seq<u8>,
    destination_port: Seq<u8>,
) -> Seq<u8> {
    seq![
        0x50u8,
        0x52,
        0x4F,
        0x58,
        0x59,
        0x20,
        0x54,
        0x43,
        0x50,
        if six {
            0x36u8
        } else {
            0x34
        },
        0x20,
    ] + source + seq![0x20u8] + destination + seq![0x20u8] + source_port + seq![0x20u8]
        + destination_port + seq![0x20u8, 0x0D, 0x0A]
}

proof fn lemma_find_here(s: Seq<u8>, at: int, end: int, byte: u8)
    requires
        0 <= at <= end < s.len(),
        s[end] == byte,
        forall|i: int| at <= i < end ==> #[trigger] s[i] != byte,
    ensures
        find(s, at, byte) == Some(end),
    decreases end - at,
{
    if at < end {
        lemma_find_here(s, at + 1, end, byte);
    }
}

proof fn lemma_token_here(s: Seq<u8>, at: int, text: Seq<u8>)
    requires
        0 <= at,
        at + text.len() < s.len(),
        s.subrange(at, at + text.len()) == text,
        s[at + text.len()] == 0x20,
        spaceless(text),
        valid_utf8(text),
    ensures
        token(s, at) == Ok::<(Seq<u8>, int), ProxyError>((text, at + text.len() + 1)),
{
    let end = at + text.len();
    assert forall|i: int| at <= i < end implies #[trigger] s[i] != 0x20 by {
        assert(s.subrange(at, end)[i - at] == s[i]);
    }
    lemma_find_here(s, at, end, 0x20);
}

proof fn lemma_digits_are_text(n: nat)
    ensures
        valid_utf8(decimal_text(n)),
        spaceless(decimal_text(n)),
{
    let text = decimal_text(n);
    lemma_decimal_text(n);
    assert(text.subrange(0, 0) =~= Seq::<u8>::empty());
    assert(vstd::utf8::partial_valid_utf8(text, 0));
    vstd::utf8::partial_valid_utf8_extend_ascii_block(text, 0, text.len() as int);
    assert(text.subrange(0, text.len() as int) =~= text);
}

/// A header reads back, whatever follows it: the first address and the first port are those
/// of the source, the second ones those of the destination, and what follows starts right
/// behind the line.
pub proof fn headers_read_back(
    six: bool,
    source: Seq<u8>,
    destination: Seq<u8>,
    source_ip: u128,
    destination_ip: u128,
    source_port: u16,
    destination_port: u16,
    rest: Seq<u8>,
)
    requires
        spaceless(source),
        spaceless(destination),
        valid_utf8(source),
        valid_utf8(destination),
        source_port > 0,
        destination_port > 0,
        !six ==> source_ip <= 0xFFFF_FFFF && destination_ip <= 0xFFFF_FFFF,
    ensures
        ({
            let line = written_header(
                six,
                source,
                destination,
                decimal_text(source_port as nat),
                decimal_text(destination_port as nat),
            );
            let s = line + rest;
            &&& head(s, 6) matches Ok(Head::Tcp { six: long, source: a, destination: b, .. }) && {
                &&& long == six
                &&& a == source
                &&& b == destination
            }
            &&& proxy_header(s, Some(source_ip), Some(destination_ip)) matches Ok((header, end)) && {
                &&& end == line.len()
                &&& header matches ProxyHeader::Version1 { addresses } && match addresses {
                    ProxyAddresses::Unknown => false,
                    ProxyAddresses::Ipv4 { source: from, destination: to } => {
                        &&& !six
                        &&& from matches SocketAddr::V4 { ip, port } && ip == source_ip && port
                            == source_port
                        &&& to matches SocketAddr::V4 { ip, port } && ip == destination_ip && port
                            == destination_port
                    },
                    ProxyAddresses::Ipv6 { source: from, destination: to } => {
                        &&& six
                        &&& from matches SocketAddr::V6 { ip, port, flowinfo, scope_id } && ip
                            == source_ip && port == source_port && flowinfo == 0 && scope_id == 0
                        &&& to matches SocketAddr::V6 { ip, port, flowinfo, scope_id } && ip
                            == destination_ip && port == destination_port && flowinfo == 0
                            && scope_id == 0
                    },
                }
            }
            &&& proxy_header(s, None, Some(destination_ip)) == Err::<
                (ProxyHeader, int),
                ProxyError,
            >(ProxyError::InvalidSourceAddress)
            &&& proxy_header(s, Some(source_ip), None) == Err::<(ProxyHeader, int), ProxyError>(
                ProxyError::InvalidDestinationAddress,
            )
        }),
{
    let p = decimal_text(source_port as nat);
    let q = decimal_text(destination_port as nat);
    lemma_digits_are_text(source_port as nat);
    lemma_digits_are_text(destination_port as nat);
    lemma_decimal_text(source_port as nat);
    lemma_decimal_text(destination_port as nat);
    ports_read_back(source_port as nat);
    ports_read_back(destination_port as nat);
    lemma_written_header(six, source, destination, p, q, rest);
}

/// The parts of a header are found where they were written.
proof fn lemma_written_header(
    six: bool,
    source: Seq<u8>,
    destination: Seq<u8>,
    p: Seq<u8>,
    q: Seq<u8>,
    rest: Seq<u8>,
)
    requires
        spaceless(source),
        spaceless(destination),
        spaceless(p),
        spaceless(q),
        valid_utf8(source),
        valid_utf8(destination),
        valid_utf8(p),
        valid_utf8(q),
    ensures
        ({
            let line = written_header(six, source, destination, p, q);
            let s = line + rest;
            let c = 11 + source.len() as int + 1 + destination.len() as int + 1;
            let d = c + p.len() as int + 1;
            let e = d + q.len() as int + 1;
            &&& s.len() >= 12
            &&& s.take(6) == v1_signature()
            &&& head(s, 6) == Ok::<Head, ProxyError>(Head::Tcp { six, source, destination, end: c })
            &&& token(s, c) == Ok::<(Seq<u8>, int), ProxyError>((p, d))
            &&& token(s, d) == Ok::<(Seq<u8>, int), ProxyError>((q, e))
            &&& s[e] == 0x0D
            &&& s[e + 1] == 0x0A
            &&& line.len() == e + 2
        }),
{
    let line = written_header(six, source, destination, p, q);
    let s = line + rest;
    let a = 11 + source.len() as int;
    let b = a + 1;
    let c = b + destination.len() as int + 1;
    let d = c + p.len() as int + 1;
    let e = d + q.len() as int + 1;
    assert(s.take(6) =~= v1_signature());
    assert(s.subrange(11, a) =~= source);
    assert(s[a] == 0x20);
    assert(s.subrange(b, b + destination.len()) =~= destination);
    assert(s[b + destination.len()] == 0x20);
    assert(s.subrange(c, c + p.len()) =~= p);
    assert(s[c + p.len()] == 0x20);
    assert(s.subrange(d, d + q.len()) =~= q);
    assert(s[d + q.len()] == 0x20);
    assert(s[e] == 0x0D && s[e + 1] == 0x0A);
    assert(line.len() == e + 2);
    lemma_token_here(s, 11, source);
    lemma_token_here(s, b, destination);
    lemma_token_here(s, c, p);
    lemma_token_here(s, d, q);
    assert(s[6] == 0x54);
    assert(s[9] == (if six {
        0x36u8
    } else {
        0x34
    }));
    assert(skipped(s, 7, 2) == 9);
    assert(skipped(s, 10, 1) == 11);
    assert(tcp_head(s, 10, six) == Ok::<Head, ProxyError>(
        Head::Tcp { six, source, destination, end: c },
    ));
    assert(head(s, 6) == tcp_head(s, 10, six));
}

/// A port is one or more decimal digits, with or without a plus sign in front.
pub proof fn ports_are_digits(text: Seq<u8>)
    requires
        port_of(text) is Some,
    ensures
        ({
            let from: int = if text.len() > 0 && text[0] == 0x2B {
                1
            } else {
                0
            };
            &&& text.len() > from
            &&& forall|i: int| from <= i < text.len() ==> 0x30 <= #[trigger] text[i] <= 0x39
        }),
{
    if text[0] == 0x2B {
        lemma_decimal_digits(text.skip(1));
        assert forall|i: int| 1 <= i < text.len() implies 0x30 <= #[trigger] text[i] <= 0x39 by {
            assert(text.skip(1)[i - 1] == text[i]);
        }
    } else {
        lemma_decimal_digits(text);
    }
}

proof fn lemma_decimal_digits(digits: Seq<u8>)
    requires
        decimal(digits) is Some,
    ensures
        forall|i: int| 0 <= i < digits.len() ==> 0x30 <= #[trigger] digits[i] <= 0x39,
    decreases digits.len(),
{
    if digits.len() > 0 {
        lemma_decimal_digits(digits.drop_last());
        assert forall|i: int| 0 <= i < digits.len() implies 0x30 <= #[trigger] digits[i] <= 0x39 by {
            if i < digits.len() - 1 {
                assert(digits.drop_last()[i] == digits[i]);
            }
        }
    }
}

/// A header whose addresses are in order is refused for its ports: where one of them starts
/// with a zero, and else where the first, or then the second, is no port.
pub proof fn bad_ports_are_refused(
    six: bool,
    source: Seq<u8>,
    destination: Seq<u8>,
    source_ip: u128,
    destination_ip: u128,
    source_port: Seq<u8>,
    destination_port: Seq<u8>,
    rest: Seq<u8>,
)
    requires
        spaceless(source),
        spaceless(destination),
        spaceless(source_port),
        spaceless(destination_port),
        valid_utf8(source),
        valid_utf8(destination),
        valid_utf8(source_port),
        valid_utf8(destination_port),
    ensures
        ({
            let s = written_header(six, source, destination, source_port, destination_port) + rest;
            let r = proxy_header(s, Some(source_ip), Some(destination_ip));
            let zero = source_port.len() > 0 && source_port[0] == 0x30 || destination_port.len() > 0
                && destination_port[0] == 0x30;
            if zero {
                r == Err::<(ProxyHeader, int), ProxyError>(ProxyError::PortStartsWithZero)
            } else if port_of(source_port) is None {
                r == Err::<(ProxyHeader, int), ProxyError>(ProxyError::InvalidSourcePort)
            } else if port_of(destination_port) is None {
                r == Err::<(ProxyHeader, int), ProxyError>(ProxyError::InvalidDestinationPort)
            } else {
                r is Ok
            }
        }),
{
    lemma_written_header(six, source, destination, source_port, destination_port, rest);
}

/// A header that is accepted is whole: it starts with its signature and its family, and the
/// place behind it is behind the end of a line.
pub proof fn accepted_headers_are_whole(
    s: Seq<u8>,
    source: Option<u128>,
    destination: Option<u128>,
)
    requires
        proxy_header(s, source, destination) is Ok,
    ensures
        ({
            let (header, end) = proxy_header(s, source, destination)->Ok_0;
            &&& 10 < end <= s.len()
            &&& s[0] == 0x50 && s[1] == 0x52 && s[2] == 0x4F && s[3] == 0x58 && s[4] == 0x59
            &&& s[5] == 0x20
            &&& s[end - 2] == 0x0D
            &&& s[end - 1] == 0x0A
            &&& match header->addresses {
                ProxyAddresses::Unknown => s[6] == 0x55,
                ProxyAddresses::Ipv4 { .. } => s[6] == 0x54 && s[9] == 0x34 && s[end - 3] == 0x20,
                ProxyAddresses::Ipv6 { .. } => s[6] == 0x54 && s[9] == 0x36 && s[end - 3] == 0x20,
            }
        }),
{
    let a = s.take(6);
    let v1 = v1_signature();
    assert(a[0] == s[0] && a[1] == s[1] && a[2] == s[2] && a[3] == s[3] && a[4] == s[4] && a[5]
        == s[5]);
    assert(v1[0] == 0x50 && v1[1] == 0x52 && v1[2] == 0x4F && v1[3] == 0x58 && v1[4] == 0x59
        && v1[5] == 0x20);
    match head(s, 6) {
        Ok(Head::Unknown { end }) => {
            lemma_line_end_is_one(s, skipped(s, 7, 6));
        },
        Ok(Head::Tcp { end, .. }) => {
            let p = skipped(s, 7, 2);
            let first = skipped(s, p + 1, 1);
            lemma_token_ends(s, first);
            let second = token(s, first)->Ok_0.1;
            lemma_token_ends(s, second);
            lemma_token_ends(s, end);
            let last = token(s, end)->Ok_0.1;
            lemma_token_ends(s, last);
        },
        Err(_) => {},
    }
}

proof fn lemma_line_end_is_one(s: Seq<u8>, at: int)
    requires
        0 <= at,
    ensures
        find_line_end(s, at) matches Some(end) ==> at <= end && end + 1 < s.len() && s[end] == 0x0D
            && s[end + 1] == 0x0A,
    decreases s.len() - at,
{
    if at + 1 < s.len() && !(s[at] == CR && s[at + 1] == LF) {
        lemma_line_end_is_one(s, at + 1);
    }
}

proof fn lemma_token_ends(s: Seq<u8>, at: int)
    requires
        0 <= at,
    ensures
        token(s, at) matches Ok((_, behind)) ==> at < behind <= s.len() && s[behind - 1] == 0x20,
{
    lemma_found(s, at, SPACE);
}

proof fn lemma_found(s: Seq<u8>, at: int, byte: u8)
    requires
        0 <= at,
    ensures
        find(s, at, byte) matches Some(end) ==> at <= end < s.len() && s[end] == byte,
    decreases s.len() - at,
{
    if at < s.len() && s[at] != byte {
        lemma_found(s, at + 1, byte);
    }
}

/// A proxy that does not say on whose behalf it connects is understood by the first letter of
/// `UNKNOWN`, whatever stands in the place of the other six, in the rest of the line and behind
/// it.
pub proof fn unknown_headers_read_back(
    letters: Seq<u8>,
    text: Seq<u8>,
    rest: Seq<u8>,
    source: Option<u128>,
    destination: Option<u128>,
)
    requires
        letters.len() == 6,
        forall|i: int| 0 <= i < text.len() ==> #[trigger] text[i] != 0x0D,
    ensures
        ({
            let line = seq![0x50u8, 0x52, 0x4F, 0x58, 0x59, 0x20, 0x55] + letters + text + seq![
                0x0Du8,
                0x0A,
            ];
            proxy_header(line + rest, source, destination) == Ok::<(ProxyHeader, int), ProxyError>(
                (
                    ProxyHeader::Version1 { addresses: ProxyAddresses::Unknown },
                    line.len() as int,
                ),
            )
        }),
{
    let line = seq![0x50u8, 0x52, 0x4F, 0x58, 0x59, 0x20, 0x55] + letters + text + seq![
        0x0Du8,
        0x0A,
    ];
    let s = line + rest;
    assert(s.take(6) =~= v1_signature());
    let end = 13 + text.len() as int;
    assert(s[end] == 0x0D && s[end + 1] == 0x0A);
    assert forall|i: int| 13 <= i < end implies #[trigger] s[i] != 0x0D by {
        assert(s[i] == text[i - 13]);
    }
    lemma_line_end_here(s, 13, end);
    assert(s[6] == 0x55);
    assert(skipped(s, 7, 6) == 13);
}

/// Of `TCP4` and `TCP6` only the first letter and the digit are looked at, and neither the two
/// letters between nor what stands behind the digit.
pub proof fn family_is_told_by_letter_and_digit(
    s: Seq<u8>,
    a: u8,
    b: u8,
    c: u8,
    source: Option<u128>,
    destination: Option<u128>,
)
    requires
        s.len() > 10,
        s[0] == 0x50 && s[1] == 0x52 && s[2] == 0x4F && s[3] == 0x58 && s[4] == 0x59 && s[5]
            == 0x20,
        s[6] == 0x54,
    ensures
        proxy_header(s.update(7, a).update(8, b).update(10, c), source, destination)
            == proxy_header(s, source, destination),
{
    let t = s.update(7, a).update(8, b).update(10, c);
    assert(s.take(6) =~= v1_signature());
    assert(t.take(6) =~= s.take(6));
    assert(skipped(s, 7, 2) == 9 && skipped(t, 7, 2) == 9);
    assert(s[9] == t[9] && s[6] == t[6]);
    assert(skipped(s, 10, 1) == 11 && skipped(t, 10, 1) == 11);
    lemma_same_token(s, t, 11);
    lemma_token_ends(s, 11);
    if let Ok((_, p)) = token(s, 11) {
        lemma_same_token(s, t, p);
        lemma_token_ends(s, p);
        if let Ok((_, end)) = token(s, p) {
            lemma_same_token(s, t, end);
            lemma_token_ends(s, end);
            if let Ok((_, q)) = token(s, end) {
                lemma_same_token(s, t, q);
                lemma_token_ends(s, q);
                if let Ok((_, last)) = token(s, q) {
                    if last + 2 <= s.len() {
                        assert(s[last] == t[last] && s[last + 1] == t[last + 1]);
                    }
                }
            }
        }
    }
}

proof fn lemma_same_token(s: Seq<u8>, t: Seq<u8>, at: int)
    requires
        s.len() == t.len(),
        11 <= at,
        forall|i: int| 11 <= i < s.len() ==> #[trigger] s[i] == t[i],
    ensures
        token(s, at) == token(t, at),
{
    lemma_same_find(s, t, at, SPACE);
    lemma_found(s, at, SPACE);
    if let Some(end) = find(s, at, SPACE) {
        assert(s.subrange(at, end) =~= t.subrange(at, end));
    }
}

proof fn lemma_same_find(s: Seq<u8>, t: Seq<u8>, at: int, byte: u8)
    requires
        s.len() == t.len(),
        11 <= at,
        forall|i: int| 11 <= i < s.len() ==> #[trigger] s[i] == t[i],
    ensures
        find(s, at, byte) == find(t, at, byte),
    decreases s.len() - at,
{
    if at < s.len() && s[at] != byte {
        lemma_same_find(s, t, at + 1, byte);
    }
}

proof fn lemma_line_end_here(s: Seq<u8>, at: int, end: int)
    requires
        0 <= at <= end,
        end + 1 < s.len(),
        s[end] == 0x0D,
        s[end + 1] == 0x0A,
        forall|i: int| at <= i < end ==> #[trigger] s[i] != 0x0D,
    ensures
        find_line_end(s, at) == Some(end),
    decreases end - at,
{
    if at < end {
        lemma_line_end_here(s, at + 1, end);
    }
}

/// Input that starts with neither `PROXY` and a space nor the twelve bytes of a binary header
/// has no header, once it is long enough to tell.
pub proof fn other_input_is_no_header(
    s: Seq<u8>,
    source: Option<u128>,
    destination: Option<u128>,
)
    requires
        s.len() >= 12,
        !(s[0] == 0x50 && s[1] == 0x52 && s[2] == 0x4F && s[3] == 0x58 && s[4] == 0x59 && s[5]
            == 0x20),
    ensures
        proxy_header(s, source, destination) is Err,
        proxy_header(s, source, destination)->Err_0 is InvalidHeader <==> !(s[0] == 0x0D && s[1]
            == 0x0A && s[2] == 0x0D && s[3] == 0x0A && s[4] == 0x00 && s[5] == 0x0D && s[6] == 0x0A
            && s[7] == 0x51 && s[8] == 0x55 && s[9] == 0x49 && s[10] == 0x54 && s[11] == 0x0A),
        !(proxy_header(s, source, destination)->Err_0 is InvalidHeader) ==> proxy_header(
            s,
            source,
            destination,
        )->Err_0 == (if s.len() == 12 {
            ProxyError::EndOfInput
        } else {
            ProxyError::InvalidVersion
        }),
{
    let v1 = v1_signature();
    let v2 = v2_signature();
    let a = s.take(6);
    let b = s.take(12);
    assert(a[0] == s[0] && a[1] == s[1] && a[2] == s[2] && a[3] == s[3] && a[4] == s[4] && a[5]
        == s[5]);
    assert(v1[0] == 0x50 && v1[1] == 0x52 && v1[2] == 0x4F && v1[3] == 0x58 && v1[4] == 0x59
        && v1[5] == 0x20);
    assert(b[0] == s[0] && b[1] == s[1] && b[2] == s[2] && b[3] == s[3] && b[4] == s[4] && b[5]
        == s[5] && b[6] == s[6] && b[7] == s[7] && b[8] == s[8] && b[9] == s[9] && b[10] == s[10]
        && b[11] == s[11]);
    assert(v2[0] == 0x0D && v2[1] == 0x0A && v2[2] == 0x0D && v2[3] == 0x0A && v2[4] == 0x00
        && v2[5] == 0x0D && v2[6] == 0x0A && v2[7] == 0x51 && v2[8] == 0x55 && v2[9] == 0x49
        && v2[10] == 0x54 && v2[11] == 0x0A);
    if s[0] == 0x0D && s[1] == 0x0A && s[2] == 0x0D && s[3] == 0x0A && s[4] == 0x00 && s[5] == 0x0D
        && s[6] == 0x0A && s[7] == 0x51 && s[8] == 0x55 && s[9] == 0x49 && s[10] == 0x54 && s[11]
        == 0x0A {
        assert(b =~= v2);
    }
}

/// Of the two addresses of a header the first is read as the source and, where that is one,
/// the second as the destination, each by the function for its family.
pub proof fn addresses_are_read_in_order<
    F: Fn(&str) -> Option<u32>,
    G: Fn(&str) -> Option<u128>,
>(
    s: Seq<u8>,
    parse_v4: F,
    parse_v6: G,
    source: Option<u128>,
    destination: Option<u128>,
)
    requires
        head(s, 6) matches Ok(Head::Tcp { .. }),
        addresses_read(s, 6, parse_v4, parse_v6, source, destination),
    ensures
        ({
            let first = decode_utf8(head(s, 6)->Ok_0->source);
            let second = decode_utf8(head(s, 6)->Ok_0->destination);
            if head(s, 6)->Ok_0->six {
                &&& exists|t: &str| t@ == first && #[trigger] parse_v6.ensures((t,), source)
                &&& source is Some ==> exists|t: &str|
                    t@ == second && #[trigger] parse_v6.ensures((t,), destination)
            } else {
                &&& exists|t: &str, ip: Option<u32>|
                    t@ == first && #[trigger] parse_v4.ensures((t,), ip) && (match ip {
                        Some(a) => source is Some && source->0 == a,
                        None => source is None,
                    })
                &&& source is Some ==> exists|t: &str, ip: Option<u32>|
                    t@ == second && #[trigger] parse_v4.ensures((t,), ip) && (match ip {
                        Some(a) => destination is Some && destination->0 == a,
                        None => destination is None,
                    })
            }
        }),
{
}

/// A part of a header is what stands before the next space, and the next part begins right
/// behind that. Without a space the input ends too early, and a part has to be text.
pub proof fn parts_end_at_a_space(s: Seq<u8>, at: int)
    requires
        0 <= at <= s.len(),
    ensures
        match token(s, at) {
            Ok((text, behind)) => {
                &&& at < behind <= s.len()
                &&& s[behind - 1] == 0x20
                &&& text.len() == behind - 1 - at
                &&& forall|i: int|
                    0 <= i < text.len() ==> #[trigger] text[i] == s[at + i] && text[i] != 0x20
                &&& valid_utf8(text)
            },
            Err(ProxyError::EndOfInput) => forall|i: int|
                at <= i < s.len() ==> #[trigger] s[i] != 0x20,
            Err(e) => {
                &&& e is NotUtf8
                &&& exists|i: int| at <= i < s.len() && #[trigger] s[i] == 0x20
            },
        },
{
    lemma_first_found(s, at, SPACE);
    if let Some(end) = find(s, at, SPACE) {
        assert(s[end] == 0x20);
        let text = s.subrange(at, end);
        assert forall|i: int| 0 <= i < text.len() implies #[trigger] text[i] == s[at + i]
            && text[i] != 0x20 by {
            assert(s[at + i] != 0x20);
        }
    }
}

proof fn lemma_first_found(s: Seq<u8>, at: int, byte: u8)
    requires
        0 <= at <= s.len(),
    ensures
        match find(s, at, byte) {
            Some(end) => {
                &&& at <= end < s.len()
                &&& s[end] == byte
                &&& forall|i: int| at <= i < end ==> #[trigger] s[i] != byte
            },
            None => forall|i: int| at <= i < s.len() ==> #[trigger] s[i] != byte,
        },
    decreases s.len() - at,
{
    if at < s.len() && s[at] != byte {
        lemma_first_found(s, at + 1, byte);
    }
}

/// Behind two ports that are in order the line has to end at once.
pub proof fn lines_end_behind_the_ports(s: Seq<u8>, at: int)
    requires
        0 <= at <= s.len(),
        token(s, at) is Ok,
        token(s, token(s, at)->Ok_0.1) is Ok,
    ensures
        ({
            let (source, p) = token(s, at)->Ok_0;
            let (destination, q) = token(s, p)->Ok_0;
            let in_order = {
                &&& port_of(source) is Some
                &&& port_of(destination) is Some
                &&& source[0] != 0x30
                &&& destination[0] != 0x30
            };
            match ports(s, at) {
                Ok((source_port, destination_port, end)) => {
                    &&& in_order
                    &&& port_of(source) == Some(source_port)
                    &&& port_of(destination) == Some(destination_port)
                    &&& end == q + 2
                    &&& end <= s.len()
                    &&& s[q] == 0x0D
                    &&& s[q + 1] == 0x0A
                },
                Err(ProxyError::EndOfInput) => in_order && s.len() < q + 2,
                Err(ProxyError::InvalidExit) => in_order && s.len() >= q + 2 && (s[q] != 0x0D || s[q
                    + 1] != 0x0A),
                Err(_) => !in_order,
            }
        }),
{
}

/// The family of a textual header is told by its first letter and, behind a `T`, by the digit
/// that comes third after it. Others than `TCP4`, `TCP6` and `UNKNOWN` are refused.
pub proof fn other_families_are_refused(
    s: Seq<u8>,
    source: Option<u128>,
    destination: Option<u128>,
)
    requires
        s.len() > 9,
        s[0] == 0x50 && s[1] == 0x52 && s[2] == 0x4F && s[3] == 0x58 && s[4] == 0x59 && s[5]
            == 0x20,
    ensures
        s[6] != 0x54 && s[6] != 0x55 <==> proxy_header(s, source, destination) == Err::<
            (ProxyHeader, int),
            ProxyError,
        >(ProxyError::InvalidFamily),
        s[6] == 0x54 && s[9] != 0x34 && s[9] != 0x36 <==> proxy_header(s, source, destination)
            == Err::<(ProxyHeader, int), ProxyError>(ProxyError::InvalidFamilyAfterT),
{
    assert(s.take(6) =~= v1_signature());
    assert(skipped(s, 7, 2) == 9);
}

/// Of a header that is accepted, no part that is cut short is enough, and what is missing is
/// the rest of the input.
pub proof fn cut_headers_want_more(
    s: Seq<u8>,
    source: Option<u128>,
    destination: Option<u128>,
    kept: int,
)
    requires
        proxy_header(s, source, destination) is Ok,
        0 <= kept < proxy_header(s, source, destination)->Ok_0.1,
    ensures
        proxy_header(s.take(kept), source, destination) == Err::<(ProxyHeader, int), ProxyError>(
            ProxyError::EndOfInput,
        ),
{
    let cut = s.take(kept);
    accepted_headers_are_whole(s, source, destination);
    if proxy_header(cut, source, destination) != Err::<(ProxyHeader, int), ProxyError>(
        ProxyError::EndOfInput,
    ) {
        header_ignores_what_follows(cut, s.skip(kept), source, destination);
        assert(cut + s.skip(kept) =~= s);
        accepted_headers_are_whole(cut, source, destination);
    }
}

/// What is read of a header is handed out as it is, and the place behind it as a place in the
/// input.
pub proof fn headers_are_handed_out(r: Result<(ProxyHeader, int), ProxyError>, start: HeaderStart)
    ensures
        match r {
            Ok((header, end)) => placed(r) matches Ok((handed, behind)) && handed == header && (0
                <= end <= usize::MAX ==> behind == end),
            Err(e) => placed(r) == Err::<(ProxyHeader, usize), ProxyError>(e),
        },
        match start {
            HeaderStart::Unknown { end } => start.behind() == end && start.parts() == (
            Head::Unknown { end: end as int }),
            HeaderStart::Tcp { six, source, destination, end } => start.behind() == end && (
            start.parts() matches Head::Tcp { six: s, source: a, destination: b, end: e } && s
                == six && a == source@ && b == destination@ && e == end),
        },
{
}

/// Input starts a binary header of version 2 exactly where its first twelve bytes are those
/// of one and the upper half of the next byte is two.
pub proof fn binary_headers_are_told_by_their_start(s: Seq<u8>)
    ensures
        is_binary(s) <==> s.len() >= 13 && s[0] == 0x0D && s[1] == 0x0A && s[2] == 0x0D && s[3]
            == 0x0A && s[4] == 0x00 && s[5] == 0x0D && s[6] == 0x0A && s[7] == 0x51 && s[8] == 0x55
            && s[9] == 0x49 && s[10] == 0x54 && s[11] == 0x0A && 0x20 <= s[12] <= 0x2F,
{
    if s.len() >= 13 {
        let b = s.take(12);
        let v2 = v2_signature();
        assert(b[0] == s[0] && b[1] == s[1] && b[2] == s[2] && b[3] == s[3] && b[4] == s[4] && b[5]
            == s[5] && b[6] == s[6] && b[7] == s[7] && b[8] == s[8] && b[9] == s[9] && b[10]
            == s[10] && b[11] == s[11]);
        assert(v2[0] == 0x0D && v2[1] == 0x0A && v2[2] == 0x0D && v2[3] == 0x0A && v2[4] == 0x00
            && v2[5] == 0x0D && v2[6] == 0x0A && v2[7] == 0x51 && v2[8] == 0x55 && v2[9] == 0x49
            && v2[10] == 0x54 && v2[11] == 0x0A);
        if s[0] == 0x0D && s[1] == 0x0A && s[2] == 0x0D && s[3] == 0x0A && s[4] == 0x00 && s[5]
            == 0x0D && s[6] == 0x0A && s[7] == 0x51 && s[8] == 0x55 && s[9] == 0x49 && s[10] == 0x54
            && s[11] == 0x0A {
            assert(b =~= v2);
        }
    }
}

} // verus!
