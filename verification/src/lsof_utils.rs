//! Reading one row of a socket listing into its raw, textual fields.

use vstd::prelude::*;
use crate::network::{
    ipv4_of, parse_ipv4, parse_port, port_of, protocol_of, Connection, Ipv4Address, Protocol,
};
use crate::text::{contains_text, occurs_in, to_chars};

verus! {

/// The pattern that a row of the listing must contain: a process name, later
/// a protocol token, a local port after a colon, an arrow, the remote
/// address, a colon and the digits of the remote port at the end of the row
/// or before white space. The pattern alone would let the run of digits be
/// empty; a match with no digit there gives no record (see `raw_of_groups`).
pub const CONNECTIONS_PATTERN: &'static str =
    "([^\\s]+).*(TCP|UDP).*:(.*)->(.*):(\\d*)(\\s|$)";

/// The utility that lists the open sockets.
pub const LISTING_COMMAND: &'static str = "lsof";

/// The arguments that make the utility print rows the pattern fits: hosts
/// as numbers, ports as numbers, IPv4 only.
pub fn listing_arguments() -> (arguments: Vec<&'static str>)
    ensures
        arguments@.len() == 3,
        arguments@[0]@ == "-n"@,
        arguments@[1]@ == "-P"@,
        arguments@[2]@ == "-i4"@,
{
    let mut arguments: Vec<&'static str> = Vec::new();
    arguments.push("-n");
    arguments.push("-P");
    arguments.push("-i4");
    arguments
}

/// What the regular-expression engine finds for the leftmost match of
/// `pattern` in `haystack`: the text of every capture group, the whole match
/// first, where a group that took no part in the match is `None`. The value
/// is `None` when `pattern` is not a valid expression or matches nowhere.
pub uninterp spec fn regex_first_captures(pattern: Seq<char>, haystack: Seq<char>) -> Option<
    Seq<Option<Seq<char>>>,
>;

/// The text of each capture group in `groups`.
pub open spec fn group_texts(groups: Seq<Option<String>>) -> Seq<Option<Seq<char>>> {
    Seq::new(
        groups.len(),
        |i: int|
            match groups[i] {
                Some(group) => Some(group@),
                None => None,
            },
    )
}

/// Every group that is present is a run of consecutive characters of
/// `haystack`.
pub open spec fn groups_lie_in(groups: Seq<Option<String>>, haystack: Seq<char>) -> bool {
    forall|i: int|
        0 <= i < groups.len() ==> ((#[trigger] groups[i]) matches Some(group) ==> occurs_in(
            haystack,
            group@,
        ))
}

/// Compiles `pattern` with `regex::Regex::new` and takes the first item of
/// `Regex::captures_iter` on `haystack`, turning each group of it into an
/// owned string. Trusted: the result is what `regex_first_captures` names
/// for the same pattern and haystack; the whole match comes first and is
/// present; and each group that is present is a piece of the haystack, as
/// `Match::as_str` slices it out of there.
#[verifier::external_body]
fn first_captures(pattern: &str, haystack: &str) -> (groups: Option<Vec<Option<String>>>)
    ensures
        match groups {
            Some(found) => regex_first_captures(pattern@, haystack@) == Some(
                group_texts(found@),
            ),
            None => regex_first_captures(pattern@, haystack@) is None,
        },
        groups matches Some(found) ==> found@.len() > 0 && found@[0] is Some,
        groups matches Some(found) ==> groups_lie_in(found@, haystack@),
{
    let expression = regex::Regex::new(pattern).ok()?;
    let captures = expression.captures_iter(haystack).next()?;
    Some(captures.iter().map(|group| group.map(|found| String::from(found.as_str()))).collect())
}

/// The textual fields of one row of the listing, before any of them is
/// interpreted.
#[derive(Debug, Clone)]
pub struct RawConnection {
    ip: String,
    local_port: String,
    remote_port: String,
    protocol: String,
    pub process_name: String,
}

/// The fields of a `RawConnection` as sequences of characters.
pub struct RawConnectionView {
    pub process_name: Seq<char>,
    pub protocol: Seq<char>,
    pub local_port: Seq<char>,
    pub ip: Seq<char>,
    pub remote_port: Seq<char>,
}

impl View for RawConnection {
    type V = RawConnectionView;

    closed spec fn view(&self) -> RawConnectionView {
        RawConnectionView {
            process_name: self.process_name@,
            protocol: self.protocol@,
            local_port: self.local_port@,
            ip: self.ip@,
            remote_port: self.remote_port@,
        }
    }
}

/// The text of a group, empty for one that took no part in the match.
pub open spec fn text_of_group(group: Option<Seq<char>>) -> Seq<char> {
    match group {
        Some(text) => text,
        None => Seq::empty(),
    }
}

/// The record that a match's capture groups give: groups one to five are the
/// process name, the protocol, the local port, the remote address and the
/// remote port. There is no record unless all five took part in the match,
/// and none where the remote port has no digit at all.
pub open spec fn raw_of_groups(groups: Seq<Option<Seq<char>>>) -> Option<RawConnectionView> {
    if groups.len() >= 6 && groups[1] is Some && groups[2] is Some && groups[3] is Some
        && groups[4] is Some && groups[5] is Some && text_of_group(groups[5]).len() > 0 {
        Some(
            RawConnectionView {
                process_name: groups[1]->0,
                protocol: groups[2]->0,
                local_port: groups[3]->0,
                ip: groups[4]->0,
                remote_port: groups[5]->0,
            },
        )
    } else {
        None
    }
}

/// The two spellings of the protocol token, and the arrow between the local
/// and the remote end.
pub open spec fn tcp_token() -> Seq<char> {
    seq!['T', 'C', 'P']
}

pub open spec fn udp_token() -> Seq<char> {
    seq!['U', 'D', 'P']
}

pub open spec fn arrow() -> Seq<char> {
    seq!['-', '>']
}

/// What every matching row holds: a protocol token and an arrow.
pub open spec fn has_literals(line: Seq<char>) -> bool {
    (occurs_in(line, tcp_token()) || occurs_in(line, udp_token())) && occurs_in(line, arrow())
}

/// The record that a row gives: none for a row without a protocol token or
/// without an arrow; else that of the first match of the pattern, and none
/// where the pattern matches nowhere in the row or matches with an empty
/// remote port.
pub open spec fn raw_of_line(line: Seq<char>) -> Option<RawConnectionView> {
    if has_literals(line) {
        match regex_first_captures(CONNECTIONS_PATTERN@, line) {
            Some(groups) => raw_of_groups(groups),
            None => None,
        }
    } else {
        None
    }
}

/// The connection that a record's fields describe, if each of them reads as
/// what it should be.
pub open spec fn connection_of(raw: RawConnectionView) -> Option<Connection> {
    match (protocol_of(raw.protocol), ipv4_of(raw.ip), port_of(raw.remote_port), port_of(
        raw.local_port,
    )) {
        (Some(protocol), Some(remote_ip), Some(remote_port), Some(local_port)) => Some(
            Connection { remote_ip, remote_port, local_port, protocol },
        ),
        _ => None,
    }
}

impl RawConnection {
    /// Reads one row of the listing. A row that does not match the pattern
    /// gives no record; in particular a row without a protocol token, and a
    /// row without an arrow, give none. Each field of a record is a piece of
    /// the row, and its remote port is not empty.
    pub fn new(raw_line: &str) -> (raw: Option<RawConnection>)
        ensures
            match raw {
                Some(found) => raw_of_line(raw_line@) == Some(found@),
                None => raw_of_line(raw_line@) is None,
            },
            !occurs_in(raw_line@, tcp_token()) && !occurs_in(raw_line@, udp_token())
                ==> raw is None,
            !occurs_in(raw_line@, arrow()) ==> raw is None,
            raw matches Some(found) ==> {
                &&& occurs_in(raw_line@, found@.process_name)
                &&& occurs_in(raw_line@, found@.protocol)
                &&& occurs_in(raw_line@, found@.local_port)
                &&& occurs_in(raw_line@, found@.ip)
                &&& occurs_in(raw_line@, found@.remote_port)
                &&& found@.remote_port.len() > 0
            },
    {
        if !RawConnection::has_literals(raw_line) {
            return None;
        }
        match first_captures(CONNECTIONS_PATTERN, raw_line) {
            Some(groups) => {
                let raw = RawConnection::from_captures(&groups);
                proof {
                    if raw is Some {
                        let texts = group_texts(groups@);
                        assert(texts[1] is Some && texts[2] is Some && texts[3] is Some);
                        assert(texts[4] is Some && texts[5] is Some);
                        assert(groups@[1] is Some && groups@[2] is Some && groups@[3] is Some);
                        assert(groups@[4] is Some && groups@[5] is Some);
                    }
                }
                raw
            },
            None => None,
        }
    }

    /// Whether the row holds a protocol token and an arrow, without which
    /// the pattern cannot match.
    pub fn has_literals(raw_line: &str) -> (possible: bool)
        ensures
            possible == has_literals(raw_line@),
    {
        let chars = to_chars(raw_line);
        let tcp = to_chars("TCP");
        let udp = to_chars("UDP");
        let arrow = to_chars("->");
        proof {
            reveal_strlit("TCP");
            reveal_strlit("UDP");
            reveal_strlit("->");
            assert(tcp@ =~= tcp_token());
            assert(udp@ =~= udp_token());
            assert(arrow@ =~= self::arrow());
        }
        (contains_text(&chars, &tcp) || contains_text(&chars, &udp)) && contains_text(
            &chars,
            &arrow,
        )
    }

    /// Builds the record from the capture groups of a match. There is none
    /// where one of the five groups is missing or the remote port is empty.
    pub fn from_captures(groups: &Vec<Option<String>>) -> (raw: Option<RawConnection>)
        ensures
            match raw {
                Some(found) => raw_of_groups(group_texts(groups@)) == Some(found@),
                None => raw_of_groups(group_texts(groups@)) is None,
            },
    {
        if groups.len() < 6 {
            return None;
        }
        match (&groups[1], &groups[2], &groups[3], &groups[4], &groups[5]) {
            (Some(process_name), Some(protocol), Some(local_port), Some(ip), Some(remote_port)) => {
                if remote_port.as_str().is_empty() {
                    return None;
                }
                Some(
                    RawConnection {
                        process_name: process_name.clone(),
                        protocol: protocol.clone(),
                        local_port: local_port.clone(),
                        ip: ip.clone(),
                        remote_port: remote_port.clone(),
                    },
                )
            },
            _ => None,
        }
    }

    /// The display name of the owning process.
    pub fn get_process_name(&self) -> (name: &str)
        ensures
            name@ == self@.process_name,
    {
        self.process_name.as_str()
    }

    /// The protocol, if the protocol field names one.
    pub fn get_protocol(&self) -> (protocol: Option<Protocol>)
        ensures
            protocol == protocol_of(self@.protocol),
    {
        Protocol::from_string(self.protocol.as_str())
    }

    /// The remote address, if the address field is a dotted-decimal IPv4
    /// address.
    pub fn get_ip_address(&self) -> (address: Option<Ipv4Address>)
        ensures
            address == ipv4_of(self@.ip),
    {
        let chars = to_chars(self.ip.as_str());
        parse_ipv4(&chars)
    }

    /// The remote port, if the remote-port field is a port number.
    pub fn get_remote_port(&self) -> (port: Option<u16>)
        ensures
            port == port_of(self@.remote_port),
    {
        let chars = to_chars(self.remote_port.as_str());
        parse_port(&chars)
    }

    /// The local port, if the local-port field is a port number.
    pub fn get_local_port(&self) -> (port: Option<u16>)
        ensures
            port == port_of(self@.local_port),
    {
        let chars = to_chars(self.local_port.as_str());
        parse_port(&chars)
    }

    /// The connection that this record describes, if all four fields read
    /// as what they should be.
    pub fn to_connection(&self) -> (connection: Option<Connection>)
        ensures
            connection == connection_of(self@),
    {
        let protocol = self.get_protocol();
        let remote_ip = self.get_ip_address();
        let remote_port = self.get_remote_port();
        let local_port = self.get_local_port();
        match (protocol, remote_ip, remote_port, local_port) {
            (Some(protocol), Some(remote_ip), Some(remote_port), Some(local_port)) => Some(
                Connection::new(remote_ip, remote_port, local_port, protocol),
            ),
            _ => None,
        }
    }
}

} // verus!
