//! The map from open connection to owning process, and how one pass over a
//! socket listing fills it.

use vstd::prelude::*;
use crate::lsof_utils::{connection_of, raw_of_line, RawConnection};
use crate::network::Connection;
use crate::text::{lines_of, split_lines, texts_of};

verus! {

/// One open socket and the process that owns it.
#[derive(Debug, Clone)]
pub struct SocketEntry {
    pub connection: Connection,
    pub process_name: String,
}

/// Each entry as a pair of connection and process name.
pub open spec fn entry_pairs(entries: Seq<SocketEntry>) -> Seq<(Connection, Seq<char>)> {
    Seq::new(entries.len(), |i: int| (entries[i].connection, entries[i].process_name@))
}

/// No connection occurs in two pairs.
pub open spec fn distinct_keys(pairs: Seq<(Connection, Seq<char>)>) -> bool {
    forall|i: int, j: int| 0 <= i < j < pairs.len() ==> pairs[i].0 != pairs[j].0
}

/// The map that results from inserting the pairs in order.
pub open spec fn map_of(pairs: Seq<(Connection, Seq<char>)>) -> Map<Connection, Seq<char>>
    decreases pairs.len(),
{
    if pairs.len() == 0 {
        Map::empty()
    } else {
        map_of(pairs.drop_last()).insert(pairs.last().0, pairs.last().1)
    }
}

/// A connection that no pair holds is not in the map.
pub proof fn lemma_map_of_absent(pairs: Seq<(Connection, Seq<char>)>, key: Connection)
    requires
        forall|i: int| 0 <= i < pairs.len() ==> pairs[i].0 != key,
    ensures
        !map_of(pairs).contains_key(key),
    decreases pairs.len(),
{
    if pairs.len() > 0 {
        lemma_map_of_absent(pairs.drop_last(), key);
    }
}

/// With distinct connections, the map sends each pair's connection to that
/// pair's name.
pub proof fn lemma_map_of_present(pairs: Seq<(Connection, Seq<char>)>, i: int)
    requires
        distinct_keys(pairs),
        0 <= i < pairs.len(),
    ensures
        map_of(pairs).contains_key(pairs[i].0),
        map_of(pairs)[pairs[i].0] == pairs[i].1,
    decreases pairs.len(),
{
    if i < pairs.len() - 1 {
        lemma_map_of_present(pairs.drop_last(), i);
    }
}

/// With distinct connections, replacing the name in one pair is an insert
/// into the map.
pub proof fn lemma_map_of_update(pairs: Seq<(Connection, Seq<char>)>, i: int, name: Seq<char>)
    requires
        distinct_keys(pairs),
        0 <= i < pairs.len(),
    ensures
        map_of(pairs.update(i, (pairs[i].0, name))) =~= map_of(pairs).insert(pairs[i].0, name),
    decreases pairs.len(),
{
    let updated = pairs.update(i, (pairs[i].0, name));
    if i == pairs.len() - 1 {
        assert(updated.drop_last() =~= pairs.drop_last());
    } else {
        assert(updated.drop_last() =~= pairs.drop_last().update(i, (pairs[i].0, name)));
        lemma_map_of_update(pairs.drop_last(), i, name);
    }
}

/// With distinct connections, the map has one key for each pair.
pub proof fn lemma_map_of_len(pairs: Seq<(Connection, Seq<char>)>)
    requires
        distinct_keys(pairs),
    ensures
        map_of(pairs).dom().finite(),
        map_of(pairs).dom().len() == pairs.len(),
    decreases pairs.len(),
{
    if pairs.len() > 0 {
        lemma_map_of_len(pairs.drop_last());
        lemma_map_of_absent(pairs.drop_last(), pairs.last().0);
    }
}

/// The open sockets of the host, by connection. A connection has at most one
/// owner: a later insert for the same connection replaces the earlier one.
pub struct OpenSockets {
    entries: Vec<SocketEntry>,
}

impl View for OpenSockets {
    type V = Map<Connection, Seq<char>>;

    closed spec fn view(&self) -> Map<Connection, Seq<char>> {
        map_of(entry_pairs(self.entries@))
    }
}

impl OpenSockets {
    /// No connection is stored twice.
    pub closed spec fn wf(&self) -> bool {
        distinct_keys(entry_pairs(self.entries@))
    }

    pub fn new() -> (sockets: OpenSockets)
        ensures
            sockets.wf(),
            sockets@ == Map::<Connection, Seq<char>>::empty(),
    {
        OpenSockets { entries: Vec::new() }
    }

    /// The number of connections.
    pub fn len(&self) -> (n: usize)
        requires
            self.wf(),
        ensures
            self@.dom().finite(),
            n == self@.dom().len(),
    {
        proof {
            lemma_map_of_len(entry_pairs(self.entries@));
        }
        self.entries.len()
    }

    /// The owner of `connection`, if it is open.
    pub fn get(&self, connection: &Connection) -> (owner: Option<&str>)
        requires
            self.wf(),
        ensures
            match owner {
                Some(name) => self@.contains_key(*connection) && self@[*connection] == name@,
                None => !self@.contains_key(*connection),
            },
    {
        let ghost pairs = entry_pairs(self.entries@);
        let mut i: usize = 0;
        while i < self.entries.len()
            invariant
                i <= self.entries.len(),
                pairs == entry_pairs(self.entries@),
                distinct_keys(pairs),
                forall|j: int| 0 <= j < i ==> pairs[j].0 != *connection,
            decreases self.entries.len() - i,
        {
            if self.entries[i].connection == *connection {
                proof {
                    lemma_map_of_present(pairs, i as int);
                }
                return Some(self.entries[i].process_name.as_str());
            }
            i += 1;
        }
        proof {
            lemma_map_of_absent(pairs, *connection);
        }
        None
    }

    /// Records that `process_name` owns `connection`, replacing an earlier
    /// owner of the same connection.
    pub fn insert(&mut self, connection: Connection, process_name: String)
        requires
            old(self).wf(),
        ensures
            final(self).wf(),
            final(self)@ == old(self)@.insert(connection, process_name@),
    {
        let ghost pairs = entry_pairs(self.entries@);
        let ghost name = process_name@;
        let mut i: usize = 0;
        while i < self.entries.len()
            invariant
                i <= self.entries.len(),
                *self == *old(self),
                pairs == entry_pairs(self.entries@),
                name == process_name@,
                distinct_keys(pairs),
                forall|j: int| 0 <= j < i ==> pairs[j].0 != connection,
            decreases self.entries.len() - i,
        {
            if self.entries[i].connection == connection {
                self.entries.set(i, SocketEntry { connection, process_name });
                proof {
                    let after = entry_pairs(self.entries@);
                    assert(after =~= pairs.update(i as int, (pairs[i as int].0, name)));
                    assert forall|j: int, k: int| 0 <= j < k < after.len() implies after[j].0
                        != after[k].0 by {
                        assert(after[j].0 == pairs[j].0);
                        assert(after[k].0 == pairs[k].0);
                    }
                    lemma_map_of_update(pairs, i as int, name);
                }
                return ;
            }
            i += 1;
        }
        self.entries.push(SocketEntry { connection, process_name });
        proof {
            let after = entry_pairs(self.entries@);
            assert(after.drop_last() =~= pairs);
            assert(after.last() == (connection, name));
            assert forall|j: int, k: int| 0 <= j < k < after.len() implies after[j].0
                != after[k].0 by {
                assert(after[j] == pairs[j]);
                if k < pairs.len() {
                    assert(after[k] == pairs[k]);
                }
            }
        }
    }

    /// The entries, one for each connection.
    pub fn entries(&self) -> (entries: &Vec<SocketEntry>)
        requires
            self.wf(),
        ensures
            distinct_keys(entry_pairs(entries@)),
            map_of(entry_pairs(entries@)) == self@,
    {
        &self.entries
    }
}

/// What a row of the listing contributes: the connection that its record
/// describes and the name of the owning process. A row that does not match,
/// or whose fields do not all read as they should, contributes nothing.
pub open spec fn entry_of_line(line: Seq<char>) -> Option<(Connection, Seq<char>)> {
    match raw_of_line(line) {
        Some(raw) => match connection_of(raw) {
            Some(connection) => Some((connection, raw.process_name)),
            None => None,
        },
        None => None,
    }
}

/// The map after the rows have been taken in, first to last.
pub open spec fn sockets_of_lines(lines: Seq<Seq<char>>) -> Map<Connection, Seq<char>>
    decreases lines.len(),
{
    if lines.len() == 0 {
        Map::empty()
    } else {
        let before = sockets_of_lines(lines.drop_last());
        match entry_of_line(lines.last()) {
            Some((connection, name)) => before.insert(connection, name),
            None => before,
        }
    }
}

/// The map that a whole listing gives.
pub open spec fn sockets_of_listing(listing: Seq<char>) -> Map<Connection, Seq<char>> {
    sockets_of_lines(lines_of(listing))
}

/// Takes one row of the listing into `sockets`.
pub fn record_line(sockets: &mut OpenSockets, line: &str)
    requires
        old(sockets).wf(),
    ensures
        final(sockets).wf(),
        final(sockets)@ == (match entry_of_line(line@) {
            Some((connection, name)) => old(sockets)@.insert(connection, name),
            None => old(sockets)@,
        }),
{
    match RawConnection::new(line) {
        Some(raw) => match raw.to_connection() {
            Some(connection) => {
                sockets.insert(connection, raw.get_process_name().to_owned());
            },
            None => {},
        },
        None => {},
    }
}

/// Builds the map of open sockets from the text of a socket listing, made
/// with numeric hosts and ports and restricted to IPv4. Every row is tried;
/// rows that give no connection are passed over.
pub fn get_open_sockets(listing: &str) -> (sockets: OpenSockets)
    ensures
        sockets.wf(),
        sockets@ == sockets_of_listing(listing@),
{
    let lines = split_lines(listing);
    let ghost rows = texts_of(lines@);
    let mut sockets = OpenSockets::new();
    let mut i: usize = 0;
    while i < lines.len()
        invariant
            i <= lines.len(),
            rows == texts_of(lines@),
            sockets.wf(),
            sockets@ == sockets_of_lines(rows.take(i as int)),
        decreases lines.len() - i,
    {
        record_line(&mut sockets, lines[i]);
        proof {
            assert(rows.take(i + 1).drop_last() =~= rows.take(i as int));
            assert(rows.take(i + 1).last() == lines[i as int]@);
        }
        i += 1;
    }
    proof {
        assert(rows.take(lines.len() as int) =~= rows);
    }
    sockets
}

/// Two rows that describe the same connection leave one entry for it, and
/// the entry names the process of the row that came later.
pub proof fn lemma_later_row_wins(
    rows: Seq<Seq<char>>,
    earlier: Seq<char>,
    later: Seq<char>,
    connection: Connection,
    earlier_name: Seq<char>,
    later_name: Seq<char>,
)
    requires
        entry_of_line(earlier) == Some((connection, earlier_name)),
        entry_of_line(later) == Some((connection, later_name)),
    ensures
        sockets_of_lines(rows.push(earlier).push(later)) == sockets_of_lines(rows).insert(
            connection,
            later_name,
        ),
        sockets_of_lines(rows.push(earlier).push(later)).dom() == sockets_of_lines(
            rows.push(earlier),
        ).dom(),
        sockets_of_lines(rows.push(earlier).push(later))[connection] == later_name,
{
    let first = rows.push(earlier);
    let both = first.push(later);
    assert(first.drop_last() =~= rows);
    assert(both.drop_last() =~= first);
    assert(first.last() == earlier);
    assert(both.last() == later);
    assert(sockets_of_lines(first) == sockets_of_lines(rows).insert(connection, earlier_name));
    assert(sockets_of_lines(both) == sockets_of_lines(first).insert(connection, later_name));
    assert(sockets_of_lines(both) =~= sockets_of_lines(rows).insert(connection, later_name));
    assert(sockets_of_lines(both).dom() =~= sockets_of_lines(first).dom());
}

/// The row gives an entry for `connection`.
pub open spec fn describes(line: Seq<char>, connection: Connection) -> bool {
    match entry_of_line(line) {
        Some((found, _)) => found == connection,
        None => false,
    }
}

/// However many rows describe a connection, and wherever they stand, the
/// map holds the connection once, with the process name of the last of them.
pub proof fn lemma_last_row_wins(
    rows: Seq<Seq<char>>,
    last: int,
    connection: Connection,
    name: Seq<char>,
)
    requires
        0 <= last < rows.len(),
        entry_of_line(rows[last]) == Some((connection, name)),
        forall|k: int| last < k < rows.len() ==> !describes(rows[k], connection),
    ensures
        sockets_of_lines(rows).contains_key(connection),
        sockets_of_lines(rows)[connection] == name,
    decreases rows.len(),
{
    if last < rows.len() - 1 {
        let before = rows.drop_last();
        assert(before[last] == rows[last]);
        assert forall|k: int| last < k < before.len() implies !describes(before[k], connection) by {
            assert(before[k] == rows[k]);
        }
        lemma_last_row_wins(before, last, connection, name);
        assert(!describes(rows[rows.len() - 1], connection));
    }
}

/// A connection is in the map only if some row describes it.
pub proof fn lemma_keys_are_described(rows: Seq<Seq<char>>, connection: Connection)
    requires
        sockets_of_lines(rows).contains_key(connection),
    ensures
        exists|j: int| 0 <= j < rows.len() && describes(rows[j], connection),
    decreases rows.len(),
{
    if rows.len() > 0 {
        let at = rows.len() - 1;
        if describes(rows[at], connection) {
        } else {
            let before = rows.drop_last();
            assert(sockets_of_lines(before).contains_key(connection));
            lemma_keys_are_described(before, connection);
            let j = choose|j: int| 0 <= j < before.len() && describes(before[j], connection);
            assert(before[j] == rows[j]);
        }
    }
}

} // verus!
