//! Per-request dispatch.  A request path picks exactly one of three
//! handlers, in a fixed priority order: the registry wire API under
//! `/v2/`, the gateway's own token route, and a redirect for
//! everything else.  First match wins; nothing else is consulted.

use vstd::prelude::*;

verus! {

/// The literal `/v2/` — the root of the registry wire API.
pub open spec fn v2_root() -> Seq<u8> {
    seq![47u8, 118, 50, 47]
}

pub fn v2_root_bytes() -> (r: Vec<u8>)
    ensures
        r@ == v2_root(),
{
    let mut v: Vec<u8> = Vec::new();
    v.push(47);
    v.push(118);
    v.push(50);
    v.push(47);
    proof {
        assert(v@ =~= v2_root());
    }
    v
}

/// The gateway's own identifier, `conex`, under which its token route
/// is served.
pub open spec fn service_name() -> Seq<u8> {
    seq![99u8, 111, 110, 101, 120]
}

/// The token route, `/conex/token`.
pub open spec fn token_route() -> Seq<u8> {
    seq![47u8] + service_name() + seq![47u8, 116, 111, 107, 101, 110]
}

pub fn token_route_bytes() -> (r: Vec<u8>)
    ensures
        r@ == token_route(),
{
    let mut v: Vec<u8> = Vec::new();
    v.push(47);
    v.push(99);
    v.push(111);
    v.push(110);
    v.push(101);
    v.push(120);
    v.push(47);
    v.push(116);
    v.push(111);
    v.push(107);
    v.push(101);
    v.push(110);
    proof {
        assert(v@ =~= token_route());
    }
    v
}

/// The three handlers a request can reach.
#[derive(Clone, Copy, Debug, PartialEq, Eq, Structural)]
pub enum Route {
    RegistryApi,
    TokenProxy,
    Redirect,
}

/// The dispatch rule: `/v2/...` first, then the exact token route,
/// then the redirect.
pub open spec fn route_spec(path: Seq<u8>) -> Route {
    if v2_root().is_prefix_of(path) {
        Route::RegistryApi
    } else if path == token_route() {
        Route::TokenProxy
    } else {
        Route::Redirect
    }
}

/// Route a request path.
pub fn dispatch(path: &Vec<u8>) -> (r: Route)
    ensures
        r == route_spec(path@),
{
    let v2 = v2_root_bytes();
    if crate::scan::starts_with(path, &v2) {
        Route::RegistryApi
    } else {
        let token = token_route_bytes();
        if crate::scan::bytes_eq(path, &token) {
            Route::TokenProxy
        } else {
            Route::Redirect
        }
    }
}

} // verus!
