//! The routing table: which backend serves which hostname.
//!
//! The table is a plain value. Whoever shares it between tasks guards it with
//! a lock of their own: a writer needs `&mut RoutingTable`, a reader
//! `&RoutingTable`, so a read never runs while a write is under way.

use vstd::prelude::*;
use vstd::string::StringSliceAdditionalSpecFns;

verus! {

/// The network address of a backend: an IP address and a port.
///
/// The address is held as the integer that its octets spell in network
/// order, so that two destinations are equal exactly when every field is.
#[allow(inconsistent_fields)]
#[derive(Clone, Copy, Debug, PartialEq, Eq, Structural)]
pub enum Destination {
    /// An IPv4 socket address.
    V4 { addr: u32, port: u16 },
    /// An IPv6 socket address, with its flow label and scope.
    V6 { addr: u128, port: u16, flowinfo: u32, scope_id: u32 },
}

/// One row of the table: a hostname and the backend that serves it.
#[derive(Debug, PartialEq, Eq)]
pub struct RouteEntry {
    pub hostname: String,
    pub destination: Destination,
}

impl Clone for RouteEntry {
    fn clone(&self) -> (copy: RouteEntry)
        ensures
            copy == *self,
    {
        RouteEntry { hostname: self.hostname.clone(), destination: self.destination }
    }
}

/// No hostname stands in two rows.
pub open spec fn distinct_hostnames(rows: Seq<RouteEntry>) -> bool {
    forall|i: int, j: int|
        0 <= i < j < rows.len() ==> (#[trigger] rows[i]).hostname@ != (#[trigger] rows[j]).hostname@
}

/// Row `i` of `rows` is the row for `hostname`.
pub open spec fn names(rows: Seq<RouteEntry>, i: int, hostname: Seq<char>) -> bool {
    0 <= i < rows.len() && rows[i].hostname@ == hostname
}

/// The mapping that a list of rows spells: a hostname is bound when a row
/// names it, to the destination of that row.
pub open spec fn routes_of(rows: Seq<RouteEntry>) -> Map<Seq<char>, Destination> {
    Map::new(
        |h: Seq<char>| exists|i: int| names(rows, i, h),
        |h: Seq<char>| rows[choose|i: int| names(rows, i, h)].destination,
    )
}

/// What a lookup of `hostname` finds in `routes`.
pub open spec fn resolve(routes: Map<Seq<char>, Destination>, hostname: Seq<char>) -> Option<
    Destination,
> {
    if routes.contains_key(hostname) {
        Some(routes[hostname])
    } else {
        None
    }
}

/// The mapping from hostname to backend. Hostnames are compared exactly as
/// given: no case folding, no wildcards.
pub struct RoutingTable {
    rows: Vec<RouteEntry>,
}

impl View for RoutingTable {
    type V = Map<Seq<char>, Destination>;

    closed spec fn view(&self) -> Map<Seq<char>, Destination> {
        routes_of(self.rows@)
    }
}

impl RoutingTable {
    #[verifier::type_invariant]
    spec fn well_formed(self) -> bool {
        distinct_hostnames(self.rows@)
    }

    /// The table as it is at process start: empty.
    pub fn new() -> (table: RoutingTable)
        ensures
            table@ == Map::<Seq<char>, Destination>::empty(),
    {
        let table = RoutingTable { rows: Vec::new() };
        assert(table@ =~= Map::<Seq<char>, Destination>::empty());
        table
    }
}

/// Whether two strings hold the same characters.
fn same_text(a: &str, b: &str) -> (same: bool)
    ensures
        same == (a@ == b@),
{
    let x = a.as_bytes();
    let y = b.as_bytes();
    proof {
        vstd::utf8::encode_utf8_decode_utf8(a@);
        vstd::utf8::encode_utf8_decode_utf8(b@);
    }
    if x.len() != y.len() {
        return false;
    }
    let mut i: usize = 0;
    while i < x.len()
        invariant
            i <= x.len(),
            x.len() == y.len(),
            x@ == a.spec_bytes(),
            y@ == b.spec_bytes(),
            forall|k: int| 0 <= k < i ==> x@[k] == y@[k],
        decreases x.len() - i,
    {
        if x[i] != y[i] {
            return false;
        }
        i += 1;
    }
    assert(x@ =~= y@);
    true
}

/// The row that names `sni`, if there is one.
fn position(rows: &Vec<RouteEntry>, sni: &str) -> (found: Option<usize>)
    ensures
        match found {
            Some(i) => names(rows@, i as int, sni@),
            None => forall|j: int| !names(rows@, j, sni@),
        },
{
    let mut i: usize = 0;
    while i < rows.len()
        invariant
            i <= rows.len(),
            forall|j: int| 0 <= j < i ==> !names(rows@, j, sni@),
        decreases rows.len() - i,
    {
        if same_text(rows[i].hostname.as_str(), sni) {
            return Some(i);
        }
        i += 1;
    }
    None
}

/// In a list without repeated hostnames, the row that names a hostname
/// decides what the mapping holds for it.
proof fn lemma_row_decides(rows: Seq<RouteEntry>, i: int, hostname: Seq<char>)
    requires
        distinct_hostnames(rows),
        names(rows, i, hostname),
    ensures
        routes_of(rows).contains_key(hostname),
        routes_of(rows)[hostname] == rows[i].destination,
{
    let j = choose|j: int| names(rows, j, hostname);
    assert(names(rows, j, hostname));
    assert(j == i);
}

/// A hostname that no row names is not bound.
proof fn lemma_unnamed_is_unbound(rows: Seq<RouteEntry>, hostname: Seq<char>)
    requires
        forall|j: int| !names(rows, j, hostname),
    ensures
        !routes_of(rows).contains_key(hostname),
        routes_of(rows).remove(hostname) == routes_of(rows),
{
    if routes_of(rows).contains_key(hostname) {
        let k = choose|k: int| names(rows, k, hostname);
        assert(names(rows, k, hostname));
    }
    assert(routes_of(rows).remove(hostname) =~= routes_of(rows));
}

/// Two lists that agree row by row, in hostname and destination, spell the
/// same mapping.
proof fn lemma_same_rows_same_routes(before: Seq<RouteEntry>, after: Seq<RouteEntry>)
    requires
        distinct_hostnames(before),
        after.len() == before.len(),
        forall|j: int|
            0 <= j < before.len() ==> (#[trigger] after[j]).hostname@ == before[j].hostname@
                && after[j].destination == before[j].destination,
    ensures
        distinct_hostnames(after),
        routes_of(after) == routes_of(before),
{
    assert forall|a: int, b: int| 0 <= a < b < after.len() implies (#[trigger] after[a]).hostname@
        != (#[trigger] after[b]).hostname@ by {
        assert(after[a].hostname@ == before[a].hostname@);
        assert(after[b].hostname@ == before[b].hostname@);
    }
    assert forall|h: Seq<char>| #[trigger]
        routes_of(after).contains_key(h) == routes_of(before).contains_key(h) by {
        if routes_of(after).contains_key(h) {
            let k = choose|k: int| names(after, k, h);
            assert(names(before, k, h));
        }
        if routes_of(before).contains_key(h) {
            let k = choose|k: int| names(before, k, h);
            assert(names(after, k, h));
        }
    }
    assert forall|h: Seq<char>| #[trigger]
        routes_of(after).contains_key(h) implies routes_of(after)[h] == routes_of(before)[h] by {
        let k = choose|k: int| names(after, k, h);
        assert(names(before, k, h));
        lemma_row_decides(after, k, h);
        lemma_row_decides(before, k, h);
    }
    assert(routes_of(after) =~= routes_of(before));
}

/// Writing a new destination into the row that names a hostname binds the
/// hostname anew and touches no other binding.
proof fn lemma_rewritten_row(rows: Seq<RouteEntry>, i: int, row: RouteEntry)
    requires
        distinct_hostnames(rows),
        names(rows, i, row.hostname@),
    ensures
        distinct_hostnames(rows.update(i, row)),
        routes_of(rows.update(i, row)) == routes_of(rows).insert(row.hostname@, row.destination),
{
    let after = rows.update(i, row);
    let name = row.hostname@;
    assert forall|a: int, b: int| 0 <= a < b < after.len() implies (#[trigger] after[a]).hostname@
        != (#[trigger] after[b]).hostname@ by {
        assert(after[a].hostname@ == rows[a].hostname@);
        assert(after[b].hostname@ == rows[b].hostname@);
    }
    assert forall|h: Seq<char>| #[trigger]
        routes_of(after).contains_key(h) == routes_of(rows).insert(
            name,
            row.destination,
        ).contains_key(h) by {
        if routes_of(after).contains_key(h) {
            let k = choose|k: int| names(after, k, h);
            assert(names(rows, k, h));
        }
        if routes_of(rows).contains_key(h) {
            let k = choose|k: int| names(rows, k, h);
            assert(names(after, k, h));
        }
        if h == name {
            assert(names(after, i, h));
        }
    }
    assert forall|h: Seq<char>| #[trigger]
        routes_of(after).contains_key(h) implies routes_of(after)[h] == routes_of(rows).insert(
        name,
        row.destination,
    )[h] by {
        let k = choose|k: int| names(after, k, h);
        lemma_row_decides(after, k, h);
        if h != name {
            assert(names(rows, k, h));
            lemma_row_decides(rows, k, h);
        } else {
            lemma_row_decides(after, i, h);
        }
    }
    assert(routes_of(after) =~= routes_of(rows).insert(name, row.destination));
}

/// A new row for a hostname that no row names binds the hostname and touches
/// no other binding.
proof fn lemma_added_row(rows: Seq<RouteEntry>, row: RouteEntry)
    requires
        distinct_hostnames(rows),
        forall|j: int| !names(rows, j, row.hostname@),
    ensures
        distinct_hostnames(rows.push(row)),
        routes_of(rows.push(row)) == routes_of(rows).insert(row.hostname@, row.destination),
{
    let after = rows.push(row);
    let name = row.hostname@;
    let last = rows.len() as int;
    assert forall|a: int, b: int| 0 <= a < b < after.len() implies (#[trigger] after[a]).hostname@
        != (#[trigger] after[b]).hostname@ by {
        if b == last {
            assert(!names(rows, a, name));
        }
    }
    assert forall|h: Seq<char>| #[trigger]
        routes_of(after).contains_key(h) == routes_of(rows).insert(
            name,
            row.destination,
        ).contains_key(h) by {
        if routes_of(after).contains_key(h) {
            let k = choose|k: int| names(after, k, h);
            if k < last {
                assert(names(rows, k, h));
            }
        }
        if routes_of(rows).contains_key(h) {
            let k = choose|k: int| names(rows, k, h);
            assert(names(after, k, h));
        }
        if h == name {
            assert(names(after, last, h));
        }
    }
    assert forall|h: Seq<char>| #[trigger]
        routes_of(after).contains_key(h) implies routes_of(after)[h] == routes_of(rows).insert(
        name,
        row.destination,
    )[h] by {
        let k = choose|k: int| names(after, k, h);
        lemma_row_decides(after, k, h);
        if h != name {
            assert(names(rows, k, h));
            lemma_row_decides(rows, k, h);
        } else {
            lemma_row_decides(after, last, h);
        }
    }
    assert(routes_of(after) =~= routes_of(rows).insert(name, row.destination));
}

/// Taking out the row that names a hostname unbinds the hostname and touches
/// no other binding.
proof fn lemma_dropped_row(rows: Seq<RouteEntry>, i: int)
    requires
        distinct_hostnames(rows),
        0 <= i < rows.len(),
    ensures
        distinct_hostnames(rows.remove(i)),
        routes_of(rows.remove(i)) == routes_of(rows).remove(rows[i].hostname@),
{
    let after = rows.remove(i);
    let name = rows[i].hostname@;
    assert forall|a: int, b: int| 0 <= a < b < after.len() implies (#[trigger] after[a]).hostname@
        != (#[trigger] after[b]).hostname@ by {
        let was_a = if a < i { a } else { a + 1 };
        let was_b = if b < i { b } else { b + 1 };
        assert(after[a] == rows[was_a]);
        assert(after[b] == rows[was_b]);
    }
    assert forall|h: Seq<char>| #[trigger]
        routes_of(after).contains_key(h) == routes_of(rows).remove(name).contains_key(h) by {
        if routes_of(after).contains_key(h) {
            let k = choose|k: int| names(after, k, h);
            let was = if k < i { k } else { k + 1 };
            assert(after[k] == rows[was]);
            assert(names(rows, was, h));
            assert(names(rows, i, name));
        }
        if routes_of(rows).contains_key(h) && h != name {
            let k = choose|k: int| names(rows, k, h);
            let now = if k < i { k } else { k - 1 };
            assert(after[now] == rows[k]);
            assert(names(after, now, h));
        }
    }
    assert forall|h: Seq<char>| #[trigger]
        routes_of(after).contains_key(h) implies routes_of(after)[h] == routes_of(rows).remove(
        name,
    )[h] by {
        let k = choose|k: int| names(after, k, h);
        let was = if k < i { k } else { k + 1 };
        assert(after[k] == rows[was]);
        lemma_row_decides(after, k, h);
        lemma_row_decides(rows, was, h);
    }
    assert(routes_of(after) =~= routes_of(rows).remove(name));
}

/// A list without repeated hostnames binds as many hostnames as it has rows.
proof fn lemma_one_binding_per_row(rows: Seq<RouteEntry>)
    requires
        distinct_hostnames(rows),
    ensures
        routes_of(rows).dom().finite(),
        routes_of(rows).dom().len() == rows.len(),
    decreases rows.len(),
{
    if rows.len() == 0 {
        assert(routes_of(rows).dom() =~= Set::<Seq<char>>::empty());
    } else {
        let earlier = rows.drop_last();
        let row = rows.last();
        assert forall|j: int| !names(earlier, j, row.hostname@) by {
            if names(earlier, j, row.hostname@) {
                assert(rows[j].hostname@ == rows[rows.len() - 1].hostname@);
            }
        }
        assert forall|a: int, b: int| 0 <= a < b < earlier.len() implies (
        #[trigger] earlier[a]).hostname@ != (#[trigger] earlier[b]).hostname@ by {
            assert(earlier[a] == rows[a] && earlier[b] == rows[b]);
        }
        lemma_one_binding_per_row(earlier);
        lemma_unnamed_is_unbound(earlier, row.hostname@);
        lemma_added_row(earlier, row);
        assert(earlier.push(row) =~= rows);
        assert(routes_of(rows).dom() =~= routes_of(earlier).dom().insert(row.hostname@));
    }
}

/// Binds `sni` to `addr`, in place of whatever `sni` was bound to before.
/// Every other hostname keeps its binding.
pub fn add_sni_endpoint(table: &mut RoutingTable, sni: String, addr: Destination)
    ensures
        final(table)@ == old(table)@.insert(sni@, addr),
{
    proof {
        use_type_invariant(&*table);
    }
    let mut rows: Vec<RouteEntry> = Vec::new();
    std::mem::swap(&mut rows, &mut table.rows);
    let found = position(&rows, sni.as_str());
    let row = RouteEntry { hostname: sni, destination: addr };
    match found {
        Some(i) => {
            proof {
                lemma_rewritten_row(rows@, i as int, row);
            }
            rows.set(i, row);
        },
        None => {
            proof {
                lemma_added_row(rows@, row);
            }
            rows.push(row);
        },
    }
    table.rows = rows;
}

/// Drops the binding of `sni`. Where `sni` is not bound, nothing changes.
pub fn remove_sni_endpoint(table: &mut RoutingTable, sni: &str)
    ensures
        final(table)@ == old(table)@.remove(sni@),
{
    proof {
        use_type_invariant(&*table);
    }
    let mut rows: Vec<RouteEntry> = Vec::new();
    std::mem::swap(&mut rows, &mut table.rows);
    match position(&rows, sni) {
        Some(i) => {
            proof {
                lemma_dropped_row(rows@, i as int);
            }
            let _ = rows.remove(i);
        },
        None => {
            proof {
                lemma_unnamed_is_unbound(rows@, sni@);
            }
        },
    }
    table.rows = rows;
}

/// The backend that `sni` is bound to at this moment, or `None` where it is
/// not bound.
pub fn get_sni_endpoint(table: &RoutingTable, sni: &str) -> (found: Option<Destination>)
    ensures
        found == resolve(table@, sni@),
{
    proof {
        use_type_invariant(table);
    }
    match position(&table.rows, sni) {
        Some(i) => {
            proof {
                lemma_row_decides(table.rows@, i as int, sni@);
            }
            Some(table.rows[i].destination)
        },
        None => {
            proof {
                lemma_unnamed_is_unbound(table.rows@, sni@);
            }
            None
        },
    }
}

/// A copy of every row, as the table is at this moment: each bound hostname
/// once, with its destination, in no order that means anything. The copy is
/// the caller's own: what happens to the table afterwards does not reach it.
pub fn get_sni_endpoints(table: &RoutingTable) -> (rows: Vec<RouteEntry>)
    ensures
        distinct_hostnames(rows@),
        routes_of(rows@) == table@,
        table@.dom().finite(),
        rows@.len() == table@.dom().len(),
{
    proof {
        use_type_invariant(table);
    }
    let mut rows: Vec<RouteEntry> = Vec::new();
    let mut i: usize = 0;
    while i < table.rows.len()
        invariant
            i <= table.rows.len(),
            rows@.len() == i,
            forall|j: int|
                0 <= j < i ==> (#[trigger] rows@[j]).hostname@ == table.rows@[j].hostname@
                    && rows@[j].destination == table.rows@[j].destination,
        decreases table.rows.len() - i,
    {
        rows.push(table.rows[i].clone());
        i += 1;
    }
    proof {
        lemma_same_rows_same_routes(table.rows@, rows@);
        lemma_one_binding_per_row(rows@);
    }
    rows
}

/// One change to the table, as the control interface asks for it.
pub enum RouteUpdate {
    /// Bind `hostname` to `destination`.
    Put { hostname: Seq<char>, destination: Destination },
    /// Drop the binding of `hostname`.
    Remove { hostname: Seq<char> },
}

impl RouteUpdate {
    /// The hostname that the change is about.
    pub open spec fn hostname(self) -> Seq<char> {
        match self {
            RouteUpdate::Put { hostname, .. } => hostname,
            RouteUpdate::Remove { hostname } => hostname,
        }
    }

    /// What a lookup of the change's hostname finds right after the change.
    pub open spec fn leaves(self) -> Option<Destination> {
        match self {
            RouteUpdate::Put { destination, .. } => Some(destination),
            RouteUpdate::Remove { .. } => None,
        }
    }

    /// The mapping after the change: what `add_sni_endpoint` and
    /// `remove_sni_endpoint` make of it.
    pub open spec fn apply(self, routes: Map<Seq<char>, Destination>) -> Map<
        Seq<char>,
        Destination,
    > {
        match self {
            RouteUpdate::Put { hostname, destination } => routes.insert(hostname, destination),
            RouteUpdate::Remove { hostname } => routes.remove(hostname),
        }
    }
}

/// The mapping after every change of `updates` was made, first to last,
/// starting from `routes`.
pub open spec fn replay(routes: Map<Seq<char>, Destination>, updates: Seq<RouteUpdate>) -> Map<
    Seq<char>,
    Destination,
>
    decreases updates.len(),
{
    if updates.len() == 0 {
        routes
    } else {
        updates.last().apply(replay(routes, updates.drop_last()))
    }
}

/// What the last change about `hostname` in `updates` leaves of it, or
/// `otherwise` where no change is about `hostname`.
pub open spec fn latest(
    updates: Seq<RouteUpdate>,
    hostname: Seq<char>,
    otherwise: Option<Destination>,
) -> Option<Destination>
    decreases updates.len(),
{
    if updates.len() == 0 {
        otherwise
    } else if updates.last().hostname() == hostname {
        updates.last().leaves()
    } else {
        latest(updates.drop_last(), hostname, otherwise)
    }
}

/// Routing follows the last word. After any run of puts and removes, a lookup
/// of a hostname finds the destination of the latest put for it, unless a
/// remove for it came later; it finds nothing where the latest change for it
/// was a remove; and where no change was about it, it finds what was there
/// before the run. Starting from the empty table, that is nothing.
pub proof fn lemma_lookup_follows_latest_update(
    routes: Map<Seq<char>, Destination>,
    updates: Seq<RouteUpdate>,
    hostname: Seq<char>,
)
    ensures
        resolve(replay(routes, updates), hostname) == latest(
            updates,
            hostname,
            resolve(routes, hostname),
        ),
        resolve(replay(Map::empty(), updates), hostname) == latest(updates, hostname, None),
    decreases updates.len(),
{
    if updates.len() > 0 {
        lemma_lookup_follows_latest_update(routes, updates.drop_last(), hostname);
        lemma_lookup_follows_latest_update(Map::empty(), updates.drop_last(), hostname);
    }
}

/// A lookup finds only what was put. After any run of puts and removes, the
/// destination that a lookup finds for a hostname was bound to it before the
/// run, or is the destination of one of the puts for it, whole: never a
/// destination that nobody put, and never parts of two.
pub proof fn lemma_lookup_finds_what_was_put(
    routes: Map<Seq<char>, Destination>,
    updates: Seq<RouteUpdate>,
    hostname: Seq<char>,
)
    ensures
        resolve(replay(routes, updates), hostname) matches Some(destination) ==> resolve(
            routes,
            hostname,
        ) == Some(destination) || exists|i: int|
            0 <= i < updates.len() && #[trigger] updates[i] == (RouteUpdate::Put {
                hostname,
                destination,
            }),
    decreases updates.len(),
{
    if updates.len() > 0 {
        let earlier = updates.drop_last();
        lemma_lookup_finds_what_was_put(routes, earlier, hostname);
        if let Some(destination) = resolve(replay(routes, updates), hostname) {
            if updates.last().hostname() == hostname {
                assert(updates[updates.len() - 1] == (RouteUpdate::Put { hostname, destination }));
            } else if resolve(routes, hostname) != Some(destination) {
                let i = choose|i: int|
                    0 <= i < earlier.len() && #[trigger] earlier[i] == (RouteUpdate::Put {
                        hostname,
                        destination,
                    });
                assert(updates[i] == earlier[i]);
            }
        }
    }
}

} // verus!
