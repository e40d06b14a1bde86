//! Telling HTTP connections from RPC connections by their first bytes.
use vstd::prelude::*;

verus! {

/// The first four bytes of the HTTP methods the service answers:
/// `GET `, `POST`, `PUT `, `HEAD` and `DELE` (of `DELETE`).
pub open spec fn http_method_prefixes() -> Seq<Seq<u8>> {
    seq![
        seq![71u8, 69u8, 84u8, 32u8],
        seq![80u8, 79u8, 83u8, 84u8],
        seq![80u8, 85u8, 84u8, 32u8],
        seq![72u8, 69u8, 65u8, 68u8],
        seq![68u8, 69u8, 76u8, 69u8],
    ]
}

/// `buf` starts with one of the HTTP method prefixes.
pub open spec fn is_http_start(buf: Seq<u8>) -> bool {
    exists|k: int|
        0 <= k < 5 && buf.len() >= 4 && #[trigger] http_method_prefixes()[k] == buf.take(4)
}

/// Whether the first bytes of a request look like an HTTP request line.
pub fn looks_like_http(buf: &[u8]) -> (r: bool)
    ensures
        r == is_http_start(buf@),
{
    if buf.len() < 4 {
        return false;
    }
    let (a, b, c, d) = (buf[0], buf[1], buf[2], buf[3]);
    let r = (a == 71 && b == 69 && c == 84 && d == 32) || (a == 80 && b == 79 && c == 83 && d
        == 84) || (a == 80 && b == 85 && c == 84 && d == 32) || (a == 72 && b == 69 && c == 65 && d
        == 68) || (a == 68 && b == 69 && c == 76 && d == 69);
    proof {
        let t = buf@.take(4);
        assert(t =~= seq![a, b, c, d]);
        if r {
            if a == 71 {
                assert(http_method_prefixes()[0] == t);
            } else if a == 72 {
                assert(http_method_prefixes()[3] == t);
            } else if a == 68 {
                assert(http_method_prefixes()[4] == t);
            } else if b == 79 {
                assert(http_method_prefixes()[1] == t);
            } else {
                assert(http_method_prefixes()[2] == t);
            }
        } else {
            assert forall|k: int| 0 <= k < 5 implies #[trigger] http_method_prefixes()[k] != t by {
                if k == 0 {
                    assert(http_method_prefixes()[0][0] == 71u8);
                }
            }
        }
    }
    r
}

/// How a new connection is served.
#[derive(Debug, PartialEq, Eq, Clone, Copy)]
pub enum ConnectionKind {
    /// Fewer than four bytes arrived: the connection is dropped.
    Incomplete,
    /// An HTTP request: served by the REST API.
    Http,
    /// Anything else: served by the RPC service.
    Rpc,
}

/// Decides how to serve a connection from the `n` bytes peeked into `peeked`.
pub fn classify_connection(peeked: &[u8], n: usize) -> (r: ConnectionKind)
    requires
        n <= peeked@.len(),
    ensures
        n < 4 ==> r == ConnectionKind::Incomplete,
        n >= 4 ==> r == (if is_http_start(peeked@) {
            ConnectionKind::Http
        } else {
            ConnectionKind::Rpc
        }),
{
    if n < 4 {
        ConnectionKind::Incomplete
    } else if looks_like_http(peeked) {
        ConnectionKind::Http
    } else {
        ConnectionKind::Rpc
    }
}

} // verus!
