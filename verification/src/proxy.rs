//! The per-request rewrite engine.  For each inbound request the
//! service decides, from the path, query and `Host` header alone,
//! what to do: forward to the upstream wire API with the repository
//! prefix spliced into the path, forward to the upstream token
//! endpoint with the scope remapped, or answer with a redirect.  The
//! caller performs the network work the plan describes.

use vstd::prelude::*;

use crate::challenge::{challenge_value, resolved_hostname};
use crate::dispatch::{route_spec, v2_root, v2_root_bytes, Route};
use crate::scan::{join_with, opt_or_empty, opt_views, split_at_seps};
use crate::AppState;
use crate::Registry;

verus! {

/// The rewritten request path: the API root probe `/v2/` passes
/// through untouched; any longer path has the repository prefix
/// spliced in directly after its leading `/v2/`, with the remainder
/// carried over unchanged.
pub open spec fn rewritten_v2_path(path: Seq<u8>, prefix: Seq<u8>) -> Seq<u8>
    recommends
        v2_root().is_prefix_of(path),
{
    if path == v2_root() {
        path
    } else {
        v2_root() + prefix + seq![47u8] + path.skip(4)
    }
}

/// Rewriting touches only the leading `/v2/`: for every path below it
/// the prefix segment is inserted there, and the remainder of the
/// path after that occurrence is unchanged.
pub proof fn lemma_rewrite_keeps_tail(path: Seq<u8>, prefix: Seq<u8>)
    requires
        v2_root().is_prefix_of(path),
        path != v2_root(),
    ensures
        rewritten_v2_path(path, prefix) == v2_root() + prefix + seq![47u8] + path.skip(4),
        rewritten_v2_path(path, prefix).skip(5 + prefix.len() as int) == path.skip(4),
{
    assert((v2_root() + prefix + seq![47u8] + path.skip(4)).skip(5 + prefix.len() as int) =~= path.skip(
        4,
    ));
}

/// `"?" query`, or nothing when the request carries no query.
pub open spec fn query_suffix(q: Option<Seq<u8>>) -> Seq<u8> {
    match q {
        Some(s) => seq![63u8] + s,
        None => Seq::<u8>::empty(),
    }
}

/// The upstream URL a wire-API request is forwarded to: the endpoint
/// with the rewritten path, the original query carried over
/// unchanged.
pub open spec fn registry_target(reg: Registry, path: Seq<u8>, query: Option<Seq<u8>>) -> Seq<u8> {
    reg.endpoint.base() + rewritten_v2_path(path, reg.repo_prefix@) + query_suffix(query)
}

/// The literal `scope=`.
pub open spec fn scope_key() -> Seq<u8> {
    seq![115u8, 99, 111, 112, 101, 61]
}

fn scope_key_bytes() -> (r: Vec<u8>)
    ensures
        r@ == scope_key(),
{
    let mut v: Vec<u8> = Vec::new();
    v.push(115);
    v.push(99);
    v.push(111);
    v.push(112);
    v.push(101);
    v.push(61);
    proof {
        assert(v@ =~= scope_key());
    }
    v
}

/// The literal `scope=repository:`.
pub open spec fn scope_repo_prefix() -> Seq<u8> {
    scope_key() + seq![114u8, 101, 112, 111, 115, 105, 116, 111, 114, 121, 58]
}

fn scope_repo_prefix_bytes() -> (r: Vec<u8>)
    ensures
        r@ == scope_repo_prefix(),
{
    let mut v = scope_key_bytes();
    v.push(114);
    v.push(101);
    v.push(112);
    v.push(111);
    v.push(115);
    v.push(105);
    v.push(116);
    v.push(111);
    v.push(114);
    v.push(121);
    v.push(58);
    proof {
        assert(v@ =~= scope_repo_prefix());
    }
    v
}

/// One query parameter, rewritten: a scope naming a repository gets
/// the prefix inserted directly after the literal `repository:`; any
/// other value passes through unchanged.
pub open spec fn rewrite_scope_part(part: Seq<u8>, prefix: Seq<u8>) -> Seq<u8> {
    if scope_repo_prefix().is_prefix_of(part) {
        scope_repo_prefix() + prefix + seq![47u8] + part.skip(17)
    } else {
        part
    }
}

/// Index of the first query parameter that starts with `scope=`, or a
/// negative value when none does.
pub open spec fn scope_part_index(parts: Seq<Seq<u8>>) -> int
    decreases parts.len(),
{
    if parts.len() == 0 {
        -1
    } else if scope_key().is_prefix_of(parts[0]) {
        0
    } else {
        let r = scope_part_index(parts.skip(1));
        if r < 0 {
            -1
        } else {
            r + 1
        }
    }
}

/// `scope_part_index` is negative exactly when no parameter starts
/// with `scope=`, and otherwise the least index of one that does.
pub proof fn lemma_scope_part_index(parts: Seq<Seq<u8>>)
    ensures
        scope_part_index(parts) < 0 ==> forall|j: int|
            0 <= j < parts.len() ==> !scope_key().is_prefix_of(#[trigger] parts[j]),
        scope_part_index(parts) >= 0 ==> {
            let r = scope_part_index(parts);
            &&& 0 <= r < parts.len()
            &&& scope_key().is_prefix_of(parts[r])
            &&& forall|j: int| 0 <= j < r ==> !scope_key().is_prefix_of(#[trigger] parts[j])
        },
    decreases parts.len(),
{
    if parts.len() > 0 && !scope_key().is_prefix_of(parts[0]) {
        lemma_scope_part_index(parts.skip(1));
        assert forall|j: int| 1 <= j < parts.len() implies parts[j] == parts.skip(1)[j - 1] by {}
    }
}

/// The query parameters after the scope rewrite: only the first
/// `scope=` parameter changes; every other parameter, and the order
/// of all of them, is preserved.
pub open spec fn rewritten_query_parts(parts: Seq<Seq<u8>>, prefix: Seq<u8>) -> Seq<Seq<u8>> {
    let i = scope_part_index(parts);
    if i < 0 {
        parts
    } else {
        parts.update(i, rewrite_scope_part(parts[i], prefix))
    }
}

/// The scope rewrite changes at most one parameter: every parameter
/// other than the first `scope=` one keeps its place and its exact
/// bytes, and that one becomes its remapped form.
pub proof fn lemma_scope_rewrite_preserves_others(parts: Seq<Seq<u8>>, prefix: Seq<u8>)
    ensures
        rewritten_query_parts(parts, prefix).len() == parts.len(),
        forall|j: int|
            0 <= j < parts.len() && j != scope_part_index(parts)
                ==> #[trigger] rewritten_query_parts(parts, prefix)[j] == parts[j],
        scope_part_index(parts) >= 0 ==> rewritten_query_parts(parts, prefix)[scope_part_index(
            parts,
        )] == rewrite_scope_part(parts[scope_part_index(parts)], prefix),
{
    lemma_scope_part_index(parts);
}

/// The whole rewritten query string: split on `&`, the first scope
/// parameter remapped, joined back with `&`.
pub open spec fn rewrite_query_spec(q: Seq<u8>, prefix: Seq<u8>) -> Seq<u8> {
    join_with(rewritten_query_parts(split_at_seps(q, 38u8), prefix), 38u8)
}

/// The upstream URL a token request is forwarded to: the token
/// endpoint with the rewritten query.
pub open spec fn token_target(reg: Registry, query: Option<Seq<u8>>) -> Seq<u8> {
    reg.token_endpoint.full() + seq![63u8] + rewrite_query_spec(
        opt_or_empty(query),
        reg.repo_prefix@,
    )
}

/// The `Location` of the catch-all redirect: endpoint, prefix and the
/// original path, concatenated.
pub open spec fn redirect_location_spec(reg: Registry, path: Seq<u8>) -> Seq<u8> {
    reg.endpoint.full() + reg.repo_prefix@ + path
}

/// A request the caller forwards upstream on the gateway's behalf.
#[derive(Debug)]
pub struct ForwardPlan {
    /// The absolute upstream URL.
    pub target: Vec<u8>,
    /// Value for the outbound `Host` header.
    pub host: Vec<u8>,
    /// Credential to overwrite the `Authorization` header with; when
    /// absent the client's own header passes through.
    pub authorization: Option<Vec<u8>>,
    /// Send `GET` regardless of the inbound method.
    pub force_get: bool,
    /// `WWW-Authenticate` value to set on the response, when the
    /// request probed the API root.
    pub challenge: Option<Vec<u8>>,
}

/// An answer the gateway gives by itself.
#[derive(Debug)]
pub struct RedirectPlan {
    /// Value for the `Location` header of the temporary redirect.
    pub location: Vec<u8>,
}

/// What one inbound request amounts to.
#[derive(Debug)]
pub enum RequestPlan {
    Forward(ForwardPlan),
    Redirect(RedirectPlan),
}

/// The per-request decision engine: the shared state, and nothing
/// else.
pub struct ProxyService {
    pub state: AppState,
}

impl ProxyService {
    pub fn new(state: AppState) -> (r: Self)
        ensures
            r.state == state,
    {
        ProxyService { state }
    }

    /// The upstream URL for a wire-API request: the endpoint with the
    /// prefix spliced into the path and the query carried unchanged.
    pub fn rewrite_registry_v2_url(&self, path: &Vec<u8>, query: &Option<Vec<u8>>) -> (r: Vec<u8>)
        requires
            v2_root().is_prefix_of(path@),
        ensures
            r@ == registry_target(self.state.registry, path@, opt_views(*query)),
    {
        let reg = &self.state.registry;
        let mut out = reg.endpoint.serialize_base();
        let v2 = v2_root_bytes();
        if crate::scan::bytes_eq(path, &v2) {
            crate::scan::append_bytes(&mut out, path);
        } else {
            crate::scan::append_bytes(&mut out, &v2);
            crate::scan::append_bytes(&mut out, &reg.repo_prefix);
            out.push(47);
            let tail = crate::scan::subvec(path, 4, path.len());
            crate::scan::append_bytes(&mut out, &tail);
            proof {
                assert(tail@ =~= path@.skip(4));
                assert(out@ =~= reg.endpoint.base() + rewritten_v2_path(path@, reg.repo_prefix@));
            }
        }
        match query {
            Some(q) => {
                out.push(63);
                crate::scan::append_bytes(&mut out, q);
            },
            None => {},
        }
        proof {
            assert(out@ =~= registry_target(self.state.registry, path@, opt_views(*query)));
        }
        out
    }

    /// Rewrite a token-request query string: the first `scope=`
    /// parameter has the prefix inserted after `repository:`, all
    /// other parameters keep their place and form.
    pub fn rewrite_token_scope(&self, query: &Vec<u8>) -> (r: Vec<u8>)
        ensures
            r@ == rewrite_query_spec(query@, self.state.registry.repo_prefix@),
    {
        let mut parts = crate::scan::split_bytes(query, 38);
        let ghost part_views = split_at_seps(query@, 38u8);
        let key = scope_key_bytes();
        let n = parts.len();
        let mut i: usize = 0;
        while i < n
            invariant
                i <= n,
                n == parts@.len(),
                key@ == scope_key(),
                part_views == split_at_seps(query@, 38u8),
                crate::scan::views_of(parts@) == part_views,
                forall|j: int|
                    0 <= j < i ==> !scope_key().is_prefix_of(#[trigger] part_views[j]),
            decreases n - i,
        {
            let is_scope = crate::scan::starts_with(&parts[i], &key);
            proof {
                assert(part_views[i as int] == parts@[i as int]@);
            }
            if is_scope {
                proof {
                    lemma_scope_part_index(part_views);
                    assert(scope_part_index(part_views) == i as int);
                }
                let new_part = rewrite_scope_value(&parts[i], &self.state.registry.repo_prefix);
                let ghost before = parts@;
                let _replaced = parts.remove(i);
                parts.insert(i, new_part);
                proof {
                    assert(parts@ =~= before.update(i as int, new_part));
                    assert(crate::scan::views_of(parts@) =~= rewritten_query_parts(
                        part_views,
                        self.state.registry.repo_prefix@,
                    ));
                }
                return crate::scan::join_bytes(&parts, 38);
            }
            i += 1;
        }
        proof {
            lemma_scope_part_index(part_views);
            crate::scan::lemma_join_split(query@, 38u8);
        }
        crate::scan::copy_bytes(query)
    }

    /// The `Location` a request outside the wire API is redirected
    /// to.
    pub fn redirect_location(&self, path: &Vec<u8>) -> (r: Vec<u8>)
        ensures
            r@ == redirect_location_spec(self.state.registry, path@),
    {
        let mut out = self.state.registry.endpoint.serialize();
        crate::scan::append_bytes(&mut out, &self.state.registry.repo_prefix);
        crate::scan::append_bytes(&mut out, path);
        proof {
            assert(out@ =~= redirect_location_spec(self.state.registry, path@));
        }
        out
    }

    /// Decide one request.  Wire-API paths are forwarded to the
    /// rewritten endpoint URL, with the upstream host, the configured
    /// credential when one exists, and — for the API root probe — the
    /// gateway's own challenge for the response.  The token route is
    /// forwarded to the token endpoint as a `GET` with the scope
    /// remapped.  Everything else is redirected.
    pub fn proxy_request(
        &self,
        path: &Vec<u8>,
        query: &Option<Vec<u8>>,
        host_header: &Option<Vec<u8>>,
    ) -> (r: RequestPlan)
        ensures
            route_spec(path@) == Route::RegistryApi ==> (r matches RequestPlan::Forward(f) && {
                &&& f.target@ == registry_target(self.state.registry, path@, opt_views(*query))
                &&& f.host@ == self.state.registry.endpoint.host@
                &&& opt_views(f.authorization) == opt_views(self.state.auth)
                &&& f.force_get == false
                &&& (path@ == v2_root() ==> (f.challenge matches Some(c) && c@ == challenge_value(
                    resolved_hostname(opt_views(self.state.hostname), opt_views(*host_header)),
                )))
                &&& (path@ != v2_root() ==> f.challenge is None)
            }),
            route_spec(path@) == Route::TokenProxy ==> (r matches RequestPlan::Forward(f) && {
                &&& f.target@ == token_target(self.state.registry, opt_views(*query))
                &&& f.host@ == self.state.registry.token_endpoint.host@
                &&& f.authorization is None
                &&& f.force_get == true
                &&& f.challenge is None
            }),
            route_spec(path@) == Route::Redirect ==> (r matches RequestPlan::Redirect(d)
                && d.location@ == redirect_location_spec(self.state.registry, path@)),
    {
        match crate::dispatch::dispatch(path) {
            Route::RegistryApi => {
                let target = self.rewrite_registry_v2_url(path, query);
                let host = crate::scan::copy_bytes(&self.state.registry.endpoint.host);
                let authorization = match &self.state.auth {
                    Some(a) => Some(crate::scan::copy_bytes(a)),
                    None => None,
                };
                let v2 = v2_root_bytes();
                let challenge = if crate::scan::bytes_eq(path, &v2) {
                    Some(crate::challenge::build_challenge(&self.state.hostname, host_header))
                } else {
                    None
                };
                RequestPlan::Forward(
                    ForwardPlan { target, host, authorization, force_get: false, challenge },
                )
            },
            Route::TokenProxy => {
                let rewritten = match query {
                    Some(q) => self.rewrite_token_scope(q),
                    None => {
                        let empty: Vec<u8> = Vec::new();
                        let r = self.rewrite_token_scope(&empty);
                        proof {
                            assert(empty@ =~= opt_or_empty(opt_views(*query)));
                        }
                        r
                    },
                };
                let mut target = self.state.registry.token_endpoint.serialize();
                target.push(63);
                crate::scan::append_bytes(&mut target, &rewritten);
                proof {
                    assert(target@ =~= token_target(self.state.registry, opt_views(*query)));
                }
                let host = crate::scan::copy_bytes(&self.state.registry.token_endpoint.host);
                RequestPlan::Forward(
                    ForwardPlan {
                        target,
                        host,
                        authorization: None,
                        force_get: true,
                        challenge: None,
                    },
                )
            },
            Route::Redirect => {
                let location = self.redirect_location(path);
                RequestPlan::Redirect(RedirectPlan { location })
            },
        }
    }
}

/// One query parameter with a repository scope gets the prefix
/// inserted after the literal `repository:`; anything else passes
/// through.
fn rewrite_scope_value(part: &Vec<u8>, prefix: &Vec<u8>) -> (r: Vec<u8>)
    ensures
        r@ == rewrite_scope_part(part@, prefix@),
{
    let srp = scope_repo_prefix_bytes();
    if crate::scan::starts_with(part, &srp) {
        let mut out = crate::scan::copy_bytes(&srp);
        crate::scan::append_bytes(&mut out, prefix);
        out.push(47);
        let tail = crate::scan::subvec(part, 17, part.len());
        crate::scan::append_bytes(&mut out, &tail);
        proof {
            assert(tail@ =~= part@.skip(17));
            assert(out@ =~= rewrite_scope_part(part@, prefix@));
        }
        out
    } else {
        crate::scan::copy_bytes(part)
    }
}

} // verus!
