//! The two sides of the `WWW-Authenticate` header.  At startup the
//! gateway reads the upstream challenge to discover where bearer
//! tokens are issued: the header value is a comma-separated attribute
//! list, and the quoted value of its `realm` attribute is the token
//! endpoint.  At run time the gateway answers probes of the API root
//! with a challenge of its own, whose realm points at the gateway's
//! token route instead of the upstream's.

use vstd::prelude::*;

use crate::dispatch::token_route;
use crate::errors::DiscoveryError;
use crate::scan::{contains_seq, first_index, opt_views, split_at_seps, strip_byte};
use crate::urls::UrlParts;

verus! {

/// The attribute name `realm`.
pub open spec fn realm_attr() -> Seq<u8> {
    seq![114u8, 101, 97, 108, 109]
}

fn realm_attr_bytes() -> (r: Vec<u8>)
    ensures
        r@ == realm_attr(),
{
    let mut v: Vec<u8> = Vec::new();
    v.push(114);
    v.push(101);
    v.push(97);
    v.push(108);
    v.push(109);
    proof {
        assert(v@ =~= realm_attr());
    }
    v
}

/// Index of the first comma-separated piece of the challenge that
/// mentions `realm`, or a negative value when none does.
pub open spec fn realm_segment_index(segs: Seq<Seq<u8>>) -> int
    decreases segs.len(),
{
    if segs.len() == 0 {
        -1
    } else if contains_seq(segs[0], realm_attr()) {
        0
    } else {
        let r = realm_segment_index(segs.skip(1));
        if r < 0 {
            -1
        } else {
            r + 1
        }
    }
}

/// `realm_segment_index` is negative exactly when no piece mentions
/// `realm`, and otherwise the least index of one that does.
pub proof fn lemma_realm_segment_index(segs: Seq<Seq<u8>>)
    ensures
        realm_segment_index(segs) < 0 ==> forall|j: int|
            0 <= j < segs.len() ==> !contains_seq(#[trigger] segs[j], realm_attr()),
        realm_segment_index(segs) >= 0 ==> {
            let r = realm_segment_index(segs);
            &&& 0 <= r < segs.len()
            &&& contains_seq(segs[r], realm_attr())
            &&& forall|j: int| 0 <= j < r ==> !contains_seq(#[trigger] segs[j], realm_attr())
        },
    decreases segs.len(),
{
    if segs.len() > 0 && !contains_seq(segs[0], realm_attr()) {
        lemma_realm_segment_index(segs.skip(1));
        assert forall|j: int| 1 <= j < segs.len() implies segs[j] == segs.skip(1)[j - 1] by {}
    }
}

/// The realm value of a challenge header: in the first piece that
/// mentions `realm`, everything after the first `=`, with every
/// double quote removed.
pub open spec fn realm_value(seg: Seq<u8>) -> Seq<u8> {
    strip_byte(seg.skip(first_index(seg, 61u8) + 1), 34u8)
}

/// Extract the realm from a `WWW-Authenticate` value.  Exactly when no
/// piece of the comma-separated list mentions `realm` the result is
/// `MissingRealm`; exactly when the first such piece holds no `=` it
/// is `MalformedRealm`; otherwise the quoted value is returned.
pub fn parse_realm(header: &Vec<u8>) -> (r: Result<Vec<u8>, DiscoveryError>)
    ensures
        ({
            let segs = split_at_seps(header@, 44u8);
            let i = realm_segment_index(segs);
            match r {
                Ok(v) => i >= 0 && first_index(segs[i], 61u8) >= 0 && v@ == realm_value(segs[i]),
                Err(e) => {
                    &&& (e == DiscoveryError::MissingRealm <==> i < 0)
                    &&& (e == DiscoveryError::MalformedRealm <==> i >= 0 && first_index(
                        segs[i],
                        61u8,
                    ) < 0)
                    &&& (e == DiscoveryError::MissingRealm || e == DiscoveryError::MalformedRealm)
                },
            }
        }),
{
    let realm = realm_attr_bytes();
    let segs = crate::scan::split_bytes(header, 44);
    let ghost seg_views = split_at_seps(header@, 44u8);
    let n = segs.len();
    let mut i: usize = 0;
    while i < n
        invariant
            i <= n,
            n == segs@.len(),
            realm@ == realm_attr(),
            seg_views == split_at_seps(header@, 44u8),
            crate::scan::views_of(segs@) == seg_views,
            forall|j: int| 0 <= j < i ==> !contains_seq(#[trigger] seg_views[j], realm_attr()),
        decreases n - i,
    {
        let found = crate::scan::contains_bytes(&segs[i], &realm);
        proof {
            assert(seg_views[i as int] == segs@[i as int]@);
        }
        if found {
            proof {
                lemma_realm_segment_index(seg_views);
                assert(realm_segment_index(seg_views) == i as int);
            }
            let seg = &segs[i];
            let seg_len = seg.len();
            match crate::scan::find_byte_from(seg, 61, 0) {
                Some(e) => {
                    proof {
                        assert(seg@.skip(0) =~= seg@);
                        assert(seg@ == seg_views[i as int]);
                        assert(first_index(seg_views[i as int], 61u8) == e as int);
                    }
                    let tail = crate::scan::subvec(seg, e + 1, seg_len);
                    let value = crate::scan::remove_byte(&tail, 34);
                    proof {
                        assert(tail@ =~= seg@.skip(e + 1));
                        assert(value@ == realm_value(seg_views[i as int]));
                    }
                    return Ok(value);
                },
                None => {
                    proof {
                        assert(seg@.skip(0) =~= seg@);
                        assert(seg@ == seg_views[i as int]);
                    }
                    return Err(DiscoveryError::MalformedRealm);
                },
            }
        }
        i += 1;
    }
    proof {
        lemma_realm_segment_index(seg_views);
    }
    Err(DiscoveryError::MissingRealm)
}

/// Resolve the upstream token endpoint from the challenge the probe
/// received.  The realm is extracted exactly as `parse_realm` states;
/// when it parses as an absolute URL with a host, the token endpoint
/// is owed, carrying exactly the parts that parse yields.  Any
/// shortfall is fatal for the caller.
pub fn resolve_token_endpoint(header: &Vec<u8>) -> (r: Result<UrlParts, DiscoveryError>)
    ensures
        ({
            let segs = split_at_seps(header@, 44u8);
            let i = realm_segment_index(segs);
            match r {
                Ok(u) => {
                    &&& i >= 0
                    &&& first_index(segs[i], 61u8) >= 0
                    &&& crate::urls::url_usable(realm_value(segs[i]))
                    &&& u.wf()
                    &&& u.host@.len() > 0
                    &&& crate::urls::matches_url(u, realm_value(segs[i]))
                },
                Err(e) => {
                    &&& (e == DiscoveryError::MissingRealm <==> i < 0)
                    &&& (e == DiscoveryError::MalformedRealm <==> i >= 0 && first_index(
                        segs[i],
                        61u8,
                    ) < 0)
                    &&& (e == DiscoveryError::InvalidRealmUrl <==> i >= 0 && first_index(
                        segs[i],
                        61u8,
                    ) >= 0 && !crate::urls::url_usable(realm_value(segs[i])))
                    &&& (e == DiscoveryError::MissingRealm || e == DiscoveryError::MalformedRealm
                        || e == DiscoveryError::InvalidRealmUrl)
                },
            }
        }),
{
    match parse_realm(header) {
        Ok(realm) => {
            match crate::urls::parse_url_bytes(&realm) {
                Some(u) => {
                    if u.host.len() > 0 {
                        Ok(u)
                    } else {
                        Err(DiscoveryError::InvalidRealmUrl)
                    }
                },
                None => Err(DiscoveryError::InvalidRealmUrl),
            }
        },
        Err(e) => Err(e),
    }
}

/// The literal `localhost`.
pub open spec fn localhost_seq() -> Seq<u8> {
    seq![108u8, 111, 99, 97, 108, 104, 111, 115, 116]
}

fn localhost_bytes() -> (r: Vec<u8>)
    ensures
        r@ == localhost_seq(),
{
    let mut v: Vec<u8> = Vec::new();
    v.push(108);
    v.push(111);
    v.push(99);
    v.push(97);
    v.push(108);
    v.push(104);
    v.push(111);
    v.push(115);
    v.push(116);
    proof {
        assert(v@ =~= localhost_seq());
    }
    v
}

/// The hostname the gateway advertises in its own challenge: the
/// configured override first, then the inbound `Host` header, then the
/// literal `localhost`.
pub open spec fn resolved_hostname(
    hostname_override: Option<Seq<u8>>,
    host_header: Option<Seq<u8>>,
) -> Seq<u8> {
    match hostname_override {
        Some(h) => h,
        None => host_or_localhost(host_header),
    }
}

/// `host_header`, or the literal `localhost` fallback.
pub open spec fn host_or_localhost(host_header: Option<Seq<u8>>) -> Seq<u8> {
    match host_header {
        Some(h) => h,
        None => localhost_seq(),
    }
}

/// `http` for hostnames that start with `localhost`, `https`
/// otherwise.
pub open spec fn scheme_of_host(h: Seq<u8>) -> Seq<u8> {
    if localhost_seq().is_prefix_of(h) {
        seq![104u8, 116, 116, 112]
    } else {
        seq![104u8, 116, 116, 112, 115]
    }
}

/// The gateway's own token URL for a resolved hostname:
/// `scheme "://" hostname "/conex/token"`.
pub open spec fn local_token_url(h: Seq<u8>) -> Seq<u8> {
    scheme_of_host(h) + seq![58u8, 47, 47] + h + token_route()
}

/// The literal `Bearer realm="`.
pub open spec fn bearer_realm_open() -> Seq<u8> {
    seq![66u8, 101, 97, 114, 101, 114, 32, 114, 101, 97, 108, 109, 61, 34]
}

/// The challenge value the gateway injects on API-root responses:
/// `Bearer realm="<local token URL>"`.
pub open spec fn challenge_value(h: Seq<u8>) -> Seq<u8> {
    bearer_realm_open() + local_token_url(h) + seq![34u8]
}

/// The realm the gateway advertises is always its own token route for
/// the resolved hostname — never an upstream realm: the challenge is
/// built from the hostname alone, with `http` exactly for hostnames
/// that start with `localhost`.
pub proof fn lemma_challenge_points_home(
    hostname_override: Option<Seq<u8>>,
    host_header: Option<Seq<u8>>,
)
    ensures
        ({
            let h = resolved_hostname(hostname_override, host_header);
            challenge_value(h) == bearer_realm_open() + scheme_of_host(h) + seq![58u8, 47, 47] + h
                + token_route() + seq![34u8]
        }),
{
    let h = resolved_hostname(hostname_override, host_header);
    assert(bearer_realm_open() + (scheme_of_host(h) + seq![58u8, 47, 47] + h + token_route())
        + seq![34u8] =~= bearer_realm_open() + scheme_of_host(h) + seq![58u8, 47, 47] + h
        + token_route() + seq![34u8]);
}

/// Build the gateway's own challenge header value for one request.
pub fn build_challenge(hostname_override: &Option<Vec<u8>>, host_header: &Option<Vec<u8>>) -> (r:
    Vec<u8>)
    ensures
        r@ == challenge_value(
            resolved_hostname(opt_views(*hostname_override), opt_views(*host_header)),
        ),
{
    let hostname: Vec<u8> = match hostname_override {
        Some(h) => crate::scan::copy_bytes(h),
        None => match host_header {
            Some(h) => crate::scan::copy_bytes(h),
            None => localhost_bytes(),
        },
    };
    let mut out: Vec<u8> = Vec::new();
    // Bearer realm="
    out.push(66);
    out.push(101);
    out.push(97);
    out.push(114);
    out.push(101);
    out.push(114);
    out.push(32);
    out.push(114);
    out.push(101);
    out.push(97);
    out.push(108);
    out.push(109);
    out.push(61);
    out.push(34);
    let localhost = localhost_bytes();
    if crate::scan::starts_with(&hostname, &localhost) {
        out.push(104);
        out.push(116);
        out.push(116);
        out.push(112);
    } else {
        out.push(104);
        out.push(116);
        out.push(116);
        out.push(112);
        out.push(115);
    }
    out.push(58);
    out.push(47);
    out.push(47);
    crate::scan::append_bytes(&mut out, &hostname);
    let route = crate::dispatch::token_route_bytes();
    crate::scan::append_bytes(&mut out, &route);
    out.push(34);
    proof {
        assert(out@ =~= challenge_value(
            resolved_hostname(opt_views(*hostname_override), opt_views(*host_header)),
        ));
    }
    out
}

} // verus!
