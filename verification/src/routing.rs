//! The server's one route and its response.
//!
//! `GET /` is answered with status 200 and a fixed greeting body; every
//! other method or path is left to the host's default handling.

use vstd::prelude::*;

verus! {

/// The body of the root route's response.
pub open spec fn greeting_text() -> Seq<char> {
    "Hello from Rust on Cloud Foundry!"@
}

/// An HTTP response as this library determines it: a status code and a
/// UTF-8 body.
pub struct Response {
    pub status: u16,
    pub body: String,
}

/// The handler of the root route: a fixed 200 response carrying the
/// greeting, whatever the request around it held.
pub fn hello() -> (r: Response)
    ensures
        r.status == 200,
        r.body@ == greeting_text(),
{
    Response { status: 200, body: "Hello from Rust on Cloud Foundry!".to_owned() }
}

/// Character-for-character equality of two strings.
pub fn str_equal(a: &str, b: &str) -> (r: bool)
    ensures
        r <==> a@ == b@,
{
    let n = a.unicode_len();
    if n != b.unicode_len() {
        return false;
    }
    let mut i: usize = 0;
    while i < n
        invariant
            n == a@.len(),
            n == b@.len(),
            0 <= i <= n,
            forall|j: int| 0 <= j < i ==> a@[j] == b@[j],
        decreases n - i,
    {
        if a.get_char(i) != b.get_char(i) {
            return false;
        }
        i += 1;
    }
    proof {
        assert(a@ =~= b@);
    }
    true
}

/// The request the server's one route answers: `GET` on the root path.
pub open spec fn is_root_get(method: Seq<char>, path: Seq<char>) -> bool {
    method == "GET"@ && path == "/"@
}

/// The routing decision: `GET /` gets the greeting response, and every
/// other method or path gets none, so the host falls back to its
/// default not-found handling.
pub fn route(method: &str, path: &str) -> (r: Option<Response>)
    ensures
        r is Some <==> is_root_get(method@, path@),
        r matches Some(resp) ==> resp.status == 200 && resp.body@ == greeting_text(),
{
    if str_equal(method, "GET") && str_equal(path, "/") {
        Some(hello())
    } else {
        None
    }
}

} // verus!
