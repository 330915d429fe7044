//! The server-scoped HTTP operations: queries over the whole registry.

use vstd::prelude::*;
use crate::addr::SocketAddress;
use vstd::string::StringSliceAdditionalSpecFns;
use crate::text::str_eq_ignore_ascii_case;
use crate::web_client::spec_op_is;

verus! {

/// Parameters of the legacy client route.
pub struct ClientParam {
    pub op: String,
    pub addr: String,
}

/// Parameters of the legacy server route.
pub struct ServerParam {
    pub op: String,
}

/// The registry-wide query operations.
#[derive(Clone, Copy, PartialEq, Eq, Structural, Debug)]
pub enum QueryOperation {
    Clients,
    Proxies,
}

/// Parameters of `GET /v1/server/query`.
pub struct Query {
    pub op: String,
}

/// The proxy protocols of the server-scoped proxy route.
#[derive(Clone, Copy, PartialEq, Eq, Structural, Debug)]
pub enum ProxyOperation {
    Socks5,
}

/// Parameters of the server-scoped proxy route.
pub struct ProxyParameter {
    pub op: String,
    pub addr: Vec<String>,
    pub port: u32,
}

/// The server query operation named by `s`.
pub fn parse_query_operation(s: &str) -> (r: Option<QueryOperation>)
    ensures
        r == (if spec_op_is(s, "Clients") {
            Some(QueryOperation::Clients)
        } else if spec_op_is(s, "Proxies") {
            Some(QueryOperation::Proxies)
        } else {
            None::<QueryOperation>
        }),
{
    if str_eq_ignore_ascii_case(s, "Clients") {
        Some(QueryOperation::Clients)
    } else if str_eq_ignore_ascii_case(s, "Proxies") {
        Some(QueryOperation::Proxies)
    } else {
        None
    }
}

/// The server proxy operation named by `s`.
pub fn parse_proxy_operation(s: &str) -> (r: Option<ProxyOperation>)
    ensures
        r == (if spec_op_is(s, "Socks5") {
            Some(ProxyOperation::Socks5)
        } else {
            None::<ProxyOperation>
        }),
{
    if str_eq_ignore_ascii_case(s, "Socks5") {
        Some(ProxyOperation::Socks5)
    } else {
        None
    }
}


/// The rows a proxy listing shows: exactly the clients with at least one
/// open proxy, in order.
pub open spec fn spec_nonempty_rows(s: Seq<(SocketAddress, Vec<SocketAddress>)>) -> Seq<
    (SocketAddress, Vec<SocketAddress>),
>
    decreases s.len(),
{
    if s.len() == 0 {
        Seq::empty()
    } else {
        let rest = spec_nonempty_rows(s.drop_last());
        if s.last().1@.len() > 0 {
            rest + seq![s.last()]
        } else {
            rest
        }
    }
}

/// Fold the per-session proxy lists into the listing the `Proxies` query
/// answers with: clients without an open proxy are omitted, the rest keep
/// their order and their lists.
pub fn proxy_listing(rows: Vec<(SocketAddress, Vec<SocketAddress>)>) -> (r: Vec<
    (SocketAddress, Vec<SocketAddress>),
>)
    ensures
        r@ == spec_nonempty_rows(rows@),
{
    let ghost orig: Seq<(SocketAddress, Vec<SocketAddress>)> = rows@;
    let mut rest = rows;
    let mut out: Vec<(SocketAddress, Vec<SocketAddress>)> = Vec::new();
    let ghost mut i: int = 0;
    while rest.len() > 0
        invariant
            0 <= i <= orig.len(),
            rest@ == orig.skip(i),
            out@ == spec_nonempty_rows(orig.take(i)),
        decreases rest@.len(),
    {
        let row = rest.remove(0);
        proof {
            assert(row == orig[i]);
            assert(orig.take(i + 1).drop_last() =~= orig.take(i));
            assert(orig.take(i + 1).last() == orig[i]);
            assert(rest@ =~= orig.skip(i + 1));
        }
        if row.1.len() > 0 {
            out.push(row);
        }
        proof {
            i = i + 1;
        }
    }
    proof {
        assert(orig.take(i) =~= orig);
    }
    out
}

} // verus!
