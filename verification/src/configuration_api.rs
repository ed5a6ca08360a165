//! The control interface: the three things an operator can do to the routing
//! table while the proxy runs.
//!
//! The transport is not part of it. Whoever serves the interface reads the
//! request, turns the text of a destination into an address, and answers with
//! what these functions return. Nobody is asked who they are.

use crate::state::{
    add_sni_endpoint, distinct_hostnames, get_sni_endpoints, remove_sni_endpoint, routes_of,
    Destination, RouteEntry, RoutingTable,
};
use vstd::prelude::*;

verus! {

/// How a request to the control interface ended.
#[derive(Clone, Copy, Debug, PartialEq, Eq, Structural)]
pub enum Status {
    /// The request was carried out.
    Success,
    /// The request was refused: its destination is no socket address.
    BadRequest,
}

impl Status {
    /// The HTTP status code that stands for the status.
    pub open spec fn spec_code(self) -> u16 {
        match self {
            Status::Success => 200,
            Status::BadRequest => 400,
        }
    }

    /// The HTTP status code that stands for the status.
    #[verifier::when_used_as_spec(spec_code)]
    pub fn code(self) -> (code: u16)
        ensures
            code == self.spec_code(),
    {
        match self {
            Status::Success => 200,
            Status::BadRequest => 400,
        }
    }
}

/// Every binding of the table, as it is at this moment: each bound hostname
/// once, with its destination.
pub fn get_sni(table: &RoutingTable) -> (rows: Vec<RouteEntry>)
    ensures
        distinct_hostnames(rows@),
        routes_of(rows@) == table@,
        rows@.len() == table@.dom().len(),
{
    get_sni_endpoints(table)
}

/// Binds `sni` to a destination. `destination` is what the text of the
/// request read as: `None` where it was no socket address. Such a request is
/// refused and leaves the table as it was.
pub fn put_sni(table: &mut RoutingTable, sni: String, destination: Option<Destination>) -> (status:
    Status)
    ensures
        destination matches Some(addr) ==> status == Status::Success && final(table)@ == old(
            table,
        )@.insert(sni@, addr),
        destination is None ==> status == Status::BadRequest && final(table)@ == old(table)@,
{
    match destination {
        Some(addr) => {
            add_sni_endpoint(table, sni, addr);
            Status::Success
        },
        None => Status::BadRequest,
    }
}

/// Drops the binding of `name`. The request succeeds whether or not `name`
/// was bound.
pub fn delete_sni(table: &mut RoutingTable, name: &str) -> (status: Status)
    ensures
        status == Status::Success,
        final(table)@ == old(table)@.remove(name@),
{
    remove_sni_endpoint(table, name);
    Status::Success
}

} // verus!
