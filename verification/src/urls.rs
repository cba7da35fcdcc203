//! The gateway's own model of an absolute URL: the plain values its
//! logic reads — scheme, host, optional port and path — together with
//! a verified serializer.  Parsing is the one thing left to the `url`
//! crate, behind a single trusted wrapper.

use vstd::prelude::*;

use crate::errors::ConfigError;

verus! {

/// Decimal digits of `n`, most significant first.
pub open spec fn dec_digits(n: int) -> Seq<u8>
    recommends
        n >= 0,
    decreases n,
{
    if n < 10 {
        seq![(48 + n) as u8]
    } else {
        dec_digits(n / 10).push((48 + n % 10) as u8)
    }
}

/// Decimal rendering of a port number.
pub fn u16_digits(n: u16) -> (r: Vec<u8>)
    ensures
        r@ == dec_digits(n as int),
    decreases n,
{
    if n < 10 {
        let mut v: Vec<u8> = Vec::new();
        v.push(48 + n as u8);
        proof {
            assert(v@ =~= dec_digits(n as int));
        }
        v
    } else {
        let mut v = u16_digits(n / 10);
        v.push(48 + (n % 10) as u8);
        v
    }
}

/// An absolute URL, taken apart into the plain values the gateway
/// reads.  The invariant mirrors what the parser guarantees: a scheme
/// is always present, and the path of a URL that has a host either is
/// empty or starts with a slash.
#[derive(Clone, Debug)]
pub struct UrlParts {
    pub scheme: Vec<u8>,
    pub host: Vec<u8>,
    pub port: Option<u16>,
    pub path: Vec<u8>,
}

impl UrlParts {
    pub open spec fn wf(self) -> bool {
        self.scheme@.len() > 0 && (self.path@.len() == 0 || self.path@[0] == 47u8)
    }

    /// `":" port`, or nothing when the URL names no explicit port.
    pub open spec fn port_seq(self) -> Seq<u8> {
        match self.port {
            Some(p) => seq![58u8] + dec_digits(p as int),
            None => Seq::<u8>::empty(),
        }
    }

    /// `scheme "://" host [":" port]` — the serialization without the
    /// path, which request targets replace.
    pub open spec fn base(self) -> Seq<u8> {
        self.scheme@ + seq![58u8, 47u8, 47u8] + self.host@ + self.port_seq()
    }

    /// The whole serialization, path included.
    pub open spec fn full(self) -> Seq<u8> {
        self.base() + self.path@
    }

    pub fn serialize_base(&self) -> (r: Vec<u8>)
        ensures
            r@ == self.base(),
    {
        let mut out: Vec<u8> = Vec::new();
        crate::scan::append_bytes(&mut out, &self.scheme);
        out.push(58);
        out.push(47);
        out.push(47);
        crate::scan::append_bytes(&mut out, &self.host);
        match self.port {
            Some(p) => {
                out.push(58);
                let digits = u16_digits(p);
                crate::scan::append_bytes(&mut out, &digits);
                proof {
                    assert(out@ =~= self.base());
                }
            },
            None => {
                proof {
                    assert(out@ =~= self.base());
                }
            },
        }
        out
    }

    pub fn serialize(&self) -> (r: Vec<u8>)
        ensures
            r@ == self.full(),
    {
        let mut out = self.serialize_base();
        crate::scan::append_bytes(&mut out, &self.path);
        out
    }
}

/// Whether the bytes parse as an absolute URL that has a host.  WHATWG
/// URL parsing is deterministic — the outcome depends on the bytes
/// alone — but stating it would mean writing out the whole parser, so
/// the outcome carries a name instead.
pub uninterp spec fn url_ok(s: Seq<u8>) -> bool;

/// The scheme of the URL the bytes parse as.
pub uninterp spec fn url_scheme_of(s: Seq<u8>) -> Seq<u8>;

/// The host of the URL the bytes parse as.
pub uninterp spec fn url_host_of(s: Seq<u8>) -> Seq<u8>;

/// The explicit port of the URL the bytes parse as, if it names one.
pub uninterp spec fn url_port_of(s: Seq<u8>) -> Option<u16>;

/// The path of the URL the bytes parse as.
pub uninterp spec fn url_path_of(s: Seq<u8>) -> Seq<u8>;

/// The parse succeeds and yields a non-empty host: what the gateway
/// requires of every configured or discovered URL.
pub open spec fn url_usable(s: Seq<u8>) -> bool {
    url_ok(s) && url_host_of(s).len() > 0
}

/// `u` holds exactly the parts the named parse of `s` yields.
pub open spec fn matches_url(u: UrlParts, s: Seq<u8>) -> bool {
    &&& u.scheme@ == url_scheme_of(s)
    &&& u.host@ == url_host_of(s)
    &&& u.port == url_port_of(s)
    &&& u.path@ == url_path_of(s)
}

/// Relies on `url::Url::parse` (WHATWG URL parsing and normalization)
/// and the accessors `scheme`, `host_str`, `port` and `path` to take
/// the parsed value apart, and on `core::str::from_utf8` to read the
/// candidate bytes as text.  A value that does not parse, and a URL
/// without a host (`data:`, `mailto:`, `unix:` forms), are reported as
/// absent; parsing depends on the bytes alone, so success and the
/// extracted parts go by their names above.  The well-formedness
/// clause states what the `url` crate documents: `scheme()` is never
/// empty, and `path()` starts with a slash for every URL that has a
/// host, or is empty.
#[verifier::external_body]
pub fn parse_url_bytes(s: &Vec<u8>) -> (r: Option<UrlParts>)
    ensures
        (r is Some) == url_ok(s@),
        r matches Some(u) ==> u.wf() && u.scheme@ == url_scheme_of(s@) && u.host@ == url_host_of(
            s@,
        ) && u.port == url_port_of(s@) && u.path@ == url_path_of(s@),
{
    let text = core::str::from_utf8(s).ok()?;
    let parsed = url::Url::parse(text).ok()?;
    let host = parsed.host_str()?.as_bytes().to_vec();
    Some(UrlParts {
        scheme: parsed.scheme().as_bytes().to_vec(),
        host,
        port: parsed.port(),
        path: parsed.path().as_bytes().to_vec(),
    })
}

/// Parse the configured upstream endpoint.  The gateway insists on a
/// scheme and a host: exactly when the bytes parse as such a URL the
/// endpoint is returned, with the parts the parse yields; anything
/// else is a fatal configuration error for the caller to act on.
pub fn parse_endpoint(s: &Vec<u8>) -> (r: Result<UrlParts, ConfigError>)
    ensures
        (r is Ok) == url_usable(s@),
        r matches Ok(u) ==> u.wf() && u.host@.len() > 0 && matches_url(u, s@),
        r is Err ==> r == Err::<UrlParts, ConfigError>(ConfigError::InvalidEndpoint),
{
    match parse_url_bytes(s) {
        Some(u) => {
            if u.host.len() > 0 {
                Ok(u)
            } else {
                Err(ConfigError::InvalidEndpoint)
            }
        },
        None => Err(ConfigError::InvalidEndpoint),
    }
}

/// The URL probed at startup for the authentication challenge: the
/// endpoint's serialization followed by `v2/`.
pub fn probe_url(endpoint: &UrlParts) -> (r: Vec<u8>)
    ensures
        r@ == endpoint.full() + seq![118u8, 50u8, 47u8],
{
    let mut out = endpoint.serialize();
    out.push(118);
    out.push(50);
    out.push(47);
    proof {
        assert(out@ =~= endpoint.full() + seq![118u8, 50u8, 47u8]);
    }
    out
}

} // verus!
