//! Value types that identify a network connection, and the readers that
//! turn text into them.

use vstd::prelude::*;
use vstd::string::StringExecFns;
use crate::text::{
    decimal_value, digit_value, find_char, first_index, is_digit, lemma_first_index, number_of,
    parse_number,
};

verus! {

/// A transport protocol.
#[derive(Clone, Copy, Debug, PartialEq, Eq, Hash, Structural)]
pub enum Protocol {
    Tcp,
    Udp,
}

/// `c` is the given letter, in either case.
pub open spec fn is_letter(c: char, upper: char, lower: char) -> bool {
    c == upper || c == lower
}

/// The protocol that a token names: `TCP` or `UDP`, in any mix of cases.
pub open spec fn protocol_of(s: Seq<char>) -> Option<Protocol> {
    if s.len() == 3 && is_letter(s[0], 'T', 't') && is_letter(s[1], 'C', 'c') && is_letter(
        s[2],
        'P',
        'p',
    ) {
        Some(Protocol::Tcp)
    } else if s.len() == 3 && is_letter(s[0], 'U', 'u') && is_letter(s[1], 'D', 'd') && is_letter(
        s[2],
        'P',
        'p',
    ) {
        Some(Protocol::Udp)
    } else {
        None
    }
}

impl Protocol {
    /// Reads a protocol token, ignoring case. Any other token is rejected.
    pub fn from_string(text: &str) -> (protocol: Option<Protocol>)
        ensures
            protocol == protocol_of(text@),
    {
        let chars = crate::text::to_chars(text);
        if chars.len() != 3 {
            return None;
        }
        let c0: char = chars[0];
        let c1: char = chars[1];
        let c2: char = chars[2];
        if !(c2 == 'P' || c2 == 'p') {
            None
        } else if (c0 == 'T' || c0 == 't') && (c1 == 'C' || c1 == 'c') {
            Some(Protocol::Tcp)
        } else if (c0 == 'U' || c0 == 'u') && (c1 == 'D' || c1 == 'd') {
            Some(Protocol::Udp)
        } else {
            None
        }
    }
}

/// An IPv4 address, as its four octets from the most significant down.
#[derive(Clone, Copy, Debug, PartialEq, Eq, Hash, Structural)]
pub struct Ipv4Address {
    pub first: u8,
    pub second: u8,
    pub third: u8,
    pub fourth: u8,
}

/// The octet that `s` writes: one to three decimal digits, at most 255, with
/// no leading zero before another digit.
pub open spec fn octet_of(s: Seq<char>) -> Option<u8> {
    if s.len() <= 3 && (s.len() == 1 || s[0] != '0') {
        match number_of(s, 255) {
            Some(v) => Some(v as u8),
            None => None,
        }
    } else {
        None
    }
}

/// The address that `s` writes in dotted-decimal form: exactly four octets
/// with a single dot between neighbours.
pub open spec fn ipv4_of(s: Seq<char>) -> Option<Ipv4Address> {
    let p1 = first_index(s, '.');
    let r1 = s.skip(p1 + 1);
    let p2 = first_index(r1, '.');
    let r2 = r1.skip(p2 + 1);
    let p3 = first_index(r2, '.');
    let r3 = r2.skip(p3 + 1);
    if 0 <= p1 < s.len() && 0 <= p2 < r1.len() && 0 <= p3 < r2.len() {
        match (octet_of(s.take(p1)), octet_of(r1.take(p2)), octet_of(r2.take(p3)), octet_of(r3)) {
            (Some(first), Some(second), Some(third), Some(fourth)) => Some(
                Ipv4Address { first, second, third, fourth },
            ),
            _ => None,
        }
    } else {
        None
    }
}

/// The port that `s` writes: decimal digits after an optional `+`, with a
/// value of at most 65535.
pub open spec fn port_of(s: Seq<char>) -> Option<u16> {
    let digits = if s.len() > 0 && s[0] == '+' {
        s.skip(1)
    } else {
        s
    };
    match number_of(digits, 65535) {
        Some(v) => Some(v as u16),
        None => None,
    }
}

/// Reads `chars[from..to]` as one octet of a dotted-decimal address.
pub fn parse_octet(chars: &Vec<char>, from: usize, to: usize) -> (octet: Option<u8>)
    requires
        from <= to <= chars.len(),
    ensures
        octet == octet_of(chars@.subrange(from as int, to as int)),
{
    if to - from > 3 {
        return None;
    }
    if to - from != 1 && to > from && chars[from] == '0' {
        return None;
    }
    match parse_number(chars, from, to, 255) {
        Some(v) => Some(v as u8),
        None => None,
    }
}

/// Reads a dotted-decimal IPv4 address.
pub fn parse_ipv4(chars: &Vec<char>) -> (address: Option<Ipv4Address>)
    ensures
        address == ipv4_of(chars@),
{
    let n: usize = chars.len();
    let ghost s = chars@;
    let d1: usize = find_char(chars, 0, n, '.');
    assert(s.subrange(0, n as int) =~= s);
    if d1 == n {
        return None;
    }
    let ghost r1 = s.skip(d1 + 1);
    let d2: usize = find_char(chars, d1 + 1, n, '.');
    assert(s.subrange(d1 + 1, n as int) =~= r1);
    if d2 == n {
        return None;
    }
    let ghost r2 = r1.skip(d2 - d1);
    let d3: usize = find_char(chars, d2 + 1, n, '.');
    assert(s.subrange(d2 + 1, n as int) =~= r2);
    if d3 == n {
        return None;
    }
    proof {
        assert(s.take(d1 as int) =~= s.subrange(0, d1 as int));
        assert(r1.take(d2 - d1 - 1) =~= s.subrange(d1 + 1, d2 as int));
        assert(r2.take(d3 - d2 - 1) =~= s.subrange(d2 + 1, d3 as int));
        assert(r2.skip(d3 - d2) =~= s.subrange(d3 + 1, n as int));
    }
    let first = parse_octet(chars, 0, d1);
    let second = parse_octet(chars, d1 + 1, d2);
    let third = parse_octet(chars, d2 + 1, d3);
    let fourth = parse_octet(chars, d3 + 1, n);
    match (first, second, third, fourth) {
        (Some(first), Some(second), Some(third), Some(fourth)) => Some(
            Ipv4Address { first, second, third, fourth },
        ),
        _ => None,
    }
}

/// Reads a port number.
pub fn parse_port(chars: &Vec<char>) -> (port: Option<u16>)
    ensures
        port == port_of(chars@),
{
    let n: usize = chars.len();
    let from: usize = if n > 0 && chars[0] == '+' {
        1
    } else {
        0
    };
    assert(chars@.subrange(from as int, n as int) =~= chars@.skip(from as int));
    assert(chars@.skip(0) =~= chars@);
    match parse_number(chars, from, n, 65535) {
        Some(v) => Some(v as u16),
        None => None,
    }
}

/// The character that writes the digit `d`.
pub open spec fn digit_char(d: int) -> char {
    if d == 0 {
        '0'
    } else if d == 1 {
        '1'
    } else if d == 2 {
        '2'
    } else if d == 3 {
        '3'
    } else if d == 4 {
        '4'
    } else if d == 5 {
        '5'
    } else if d == 6 {
        '6'
    } else if d == 7 {
        '7'
    } else if d == 8 {
        '8'
    } else {
        '9'
    }
}

/// The decimal digits of `v`, without leading zeros.
pub open spec fn octet_digits(v: u8) -> Seq<char> {
    if v >= 100 {
        seq![digit_char(v as int / 100), digit_char((v as int / 10) % 10), digit_char(v as int % 10)]
    } else if v >= 10 {
        seq![digit_char(v as int / 10), digit_char(v as int % 10)]
    } else {
        seq![digit_char(v as int)]
    }
}

/// The dotted-decimal text of an address.
pub open spec fn address_text(address: Ipv4Address) -> Seq<char> {
    octet_digits(address.first) + seq!['.'] + octet_digits(address.second) + seq!['.']
        + octet_digits(address.third) + seq!['.'] + octet_digits(address.fourth)
}

/// The digits of an octet read back as that octet, and none of them is a dot.
pub proof fn lemma_octet_digits(v: u8)
    ensures
        octet_of(octet_digits(v)) == Some(v),
        forall|j: int| 0 <= j < octet_digits(v).len() ==> octet_digits(v)[j] != '.',
{
    let s = octet_digits(v);
    assert forall|d: int| 0 <= d <= 9 implies is_digit(#[trigger] digit_char(d)) && digit_value(
        digit_char(d),
    ) == d by {}
    if v >= 100 {
        let two = s.drop_last();
        let one = two.drop_last();
        assert(one.drop_last() =~= Seq::<char>::empty());
        assert(decimal_value(one.drop_last()) == 0);
        assert(decimal_value(one) == v as int / 100);
        assert(decimal_value(two) == (v as int / 100) * 10 + (v as int / 10) % 10);
        assert(decimal_value(s) == v);
    } else if v >= 10 {
        let one = s.drop_last();
        assert(one.drop_last() =~= Seq::<char>::empty());
        assert(decimal_value(one.drop_last()) == 0);
        assert(decimal_value(one) == v as int / 10);
        assert(decimal_value(s) == v);
    } else {
        assert(s.drop_last() =~= Seq::<char>::empty());
        assert(decimal_value(s.drop_last()) == 0);
        assert(decimal_value(s) == v);
    }
}

/// A text that starts with dot-free `head` and a dot splits there.
pub proof fn lemma_split_at_dot(head: Seq<char>, tail: Seq<char>)
    requires
        forall|j: int| 0 <= j < head.len() ==> head[j] != '.',
    ensures
        first_index(head + seq!['.'] + tail, '.') == head.len(),
        (head + seq!['.'] + tail).take(head.len() as int) == head,
        (head + seq!['.'] + tail).skip(head.len() as int + 1) == tail,
{
    let s = head + seq!['.'] + tail;
    assert forall|j: int| 0 <= j < head.len() implies s[j] != '.' by {
        assert(s[j] == head[j]);
    }
    assert(s[head.len() as int] == '.');
    lemma_first_index(s, '.', head.len() as int);
    assert(s.take(head.len() as int) =~= head);
    assert(s.skip(head.len() as int + 1) =~= tail);
}

/// Writing an address and reading the text back gives the address.
pub proof fn lemma_address_text_reads_back(address: Ipv4Address)
    ensures
        ipv4_of(address_text(address)) == Some(address),
{
    let a = octet_digits(address.first);
    let b = octet_digits(address.second);
    let c = octet_digits(address.third);
    let d = octet_digits(address.fourth);
    let dot = seq!['.'];
    lemma_octet_digits(address.first);
    lemma_octet_digits(address.second);
    lemma_octet_digits(address.third);
    lemma_octet_digits(address.fourth);
    let r2 = c + dot + d;
    let r1 = b + dot + r2;
    let s = a + dot + r1;
    assert(s =~= address_text(address));
    lemma_split_at_dot(a, r1);
    lemma_split_at_dot(b, r2);
    lemma_split_at_dot(c, d);
}

fn digit_text(d: u8) -> (text: &'static str)
    requires
        d <= 9,
    ensures
        text@ == seq![digit_char(d as int)],
{
    proof {
        reveal_strlit("0");
        reveal_strlit("1");
        reveal_strlit("2");
        reveal_strlit("3");
        reveal_strlit("4");
        reveal_strlit("5");
        reveal_strlit("6");
        reveal_strlit("7");
        reveal_strlit("8");
        reveal_strlit("9");
    }
    let text = if d == 0 {
        "0"
    } else if d == 1 {
        "1"
    } else if d == 2 {
        "2"
    } else if d == 3 {
        "3"
    } else if d == 4 {
        "4"
    } else if d == 5 {
        "5"
    } else if d == 6 {
        "6"
    } else if d == 7 {
        "7"
    } else if d == 8 {
        "8"
    } else {
        "9"
    };
    assert(text@ =~= seq![digit_char(d as int)]);
    text
}

fn push_octet(text: &mut String, v: u8)
    ensures
        final(text)@ == old(text)@ + octet_digits(v),
{
    if v >= 100 {
        text.append(digit_text(v / 100));
        text.append(digit_text((v / 10) % 10));
        text.append(digit_text(v % 10));
    } else if v >= 10 {
        text.append(digit_text(v / 10));
        text.append(digit_text(v % 10));
    } else {
        text.append(digit_text(v));
    }
    assert(text@ =~= old(text)@ + octet_digits(v));
}

impl Ipv4Address {
    /// The address in dotted-decimal form, which `parse_ipv4` reads back.
    pub fn to_text(&self) -> (text: String)
        ensures
            text@ == address_text(*self),
            ipv4_of(text@) == Some(*self),
    {
        proof {
            reveal_strlit(".");
            lemma_address_text_reads_back(*self);
        }
        let mut text = String::new();
        push_octet(&mut text, self.first);
        text.append(".");
        push_octet(&mut text, self.second);
        text.append(".");
        push_octet(&mut text, self.third);
        text.append(".");
        push_octet(&mut text, self.fourth);
        assert(text@ =~= address_text(*self));
        text
    }
}

/// The identity of one socket as seen from this host: the remote end, the
/// local port and the protocol.
#[derive(Clone, Copy, Debug, PartialEq, Eq, Hash, Structural)]
pub struct Connection {
    pub remote_ip: Ipv4Address,
    pub remote_port: u16,
    pub local_port: u16,
    pub protocol: Protocol,
}

impl Connection {
    /// The connection with these four parts.
    pub fn new(
        remote_ip: Ipv4Address,
        remote_port: u16,
        local_port: u16,
        protocol: Protocol,
    ) -> (connection: Connection)
        ensures
            connection == (Connection { remote_ip, remote_port, local_port, protocol }),
    {
        Connection { remote_ip, remote_port, local_port, protocol }
    }
}

} // verus!
