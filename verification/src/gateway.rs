//! Gateway-address codec: parses a gateway connection URL into structured
//! fields — scheme, host, port, path, compression flag, token and optional
//! resume state — and builds the URL back from those fields.
//!
//! Wire format:
//! `<scheme>://<host>[:<port>]<path>?compress=<0|1>&token=<token>[&resume=1&sn=<u64>&session_id=<id>]`

use vstd::prelude::*;
use crate::text::{
    ascii_lower, dec_of, dec_val, decode_component, decode_query, find_char, find_char2,
    find_one, find_two, lacks, lemma_dec_of, lemma_decode_plain, lemma_digits_lack,
    lemma_find_one_absent, lemma_find_one_at, lemma_find_two_at, lower_char, parse_u64,
    spec_parse_u64, to_ascii_lower, u64_to_dec,
};

verus! {

/// Arguments needed to reconnect to a gateway and continue a session: the
/// last acknowledged sequence number and the session the server recognizes.
#[derive(Debug, Clone, PartialEq)]
pub struct GatewayResumeArguments {
    /// last acknowledged message sequence number
    pub sn: u64,
    /// last session id
    pub session_id: String,
}

/// A parsed gateway connection URL.
#[derive(Debug, Clone, PartialEq)]
pub struct GatewayURLInfo {
    /// url scheme, `ws` or `wss`
    pub schema: String,
    /// gateway host
    pub host: String,
    /// gateway port
    pub port: Option<u16>,
    /// request path
    pub path: String,
    /// whether server-to-client message compression is on
    pub compress: bool,
    /// gateway token
    pub token: String,
    /// resume state; absent means a fresh session
    pub resume: Option<GatewayResumeArguments>,
}

/// Why a string failed to parse as a gateway URL.
#[derive(Debug, Clone, PartialEq)]
pub enum ParseGatewayURLError {
    /// the string is not a well-formed URL
    InvalidURL { s: String },
    /// the scheme is neither `ws` nor `wss`
    InvalidSchema { s: String, schema: String },
    /// the URL has no host
    NoHost { s: String },
    /// the URL has no `token` query parameter
    NoToken { s: String },
    /// `resume=1` without an `sn` parameter
    NoSN { s: String },
    /// `resume=1` with an `sn` that is not an unsigned integer
    InvalidSN { s: String },
    /// `resume=1` without a `session_id` parameter
    NoSessionID { s: String },
}

/// Mathematical image of `GatewayResumeArguments`.
pub struct ResumeView {
    pub sn: u64,
    pub session_id: Seq<char>,
}

/// Mathematical image of `GatewayURLInfo`.
pub struct AddressView {
    pub schema: Seq<char>,
    pub host: Seq<char>,
    pub port: Option<u16>,
    pub path: Seq<char>,
    pub compress: bool,
    pub token: Seq<char>,
    pub resume: Option<ResumeView>,
}

/// Mathematical image of `ParseGatewayURLError`.
pub enum ParseErrorView {
    InvalidURL { s: Seq<char> },
    InvalidSchema { s: Seq<char>, schema: Seq<char> },
    NoHost { s: Seq<char> },
    NoToken { s: Seq<char> },
    NoSN { s: Seq<char> },
    InvalidSN { s: Seq<char> },
    NoSessionID { s: Seq<char> },
}

impl View for GatewayResumeArguments {
    type V = ResumeView;

    open spec fn view(&self) -> ResumeView {
        ResumeView { sn: self.sn, session_id: self.session_id@ }
    }
}

impl View for GatewayURLInfo {
    type V = AddressView;

    open spec fn view(&self) -> AddressView {
        AddressView {
            schema: self.schema@,
            host: self.host@,
            port: self.port,
            path: self.path@,
            compress: self.compress,
            token: self.token@,
            resume: match self.resume {
                None => None,
                Some(r) => Some(r@),
            },
        }
    }
}

impl View for ParseGatewayURLError {
    type V = ParseErrorView;

    open spec fn view(&self) -> ParseErrorView {
        match self {
            ParseGatewayURLError::InvalidURL { s } => ParseErrorView::InvalidURL { s: s@ },
            ParseGatewayURLError::InvalidSchema { s, schema } => ParseErrorView::InvalidSchema {
                s: s@,
                schema: schema@,
            },
            ParseGatewayURLError::NoHost { s } => ParseErrorView::NoHost { s: s@ },
            ParseGatewayURLError::NoToken { s } => ParseErrorView::NoToken { s: s@ },
            ParseGatewayURLError::NoSN { s } => ParseErrorView::NoSN { s: s@ },
            ParseGatewayURLError::InvalidSN { s } => ParseErrorView::InvalidSN { s: s@ },
            ParseGatewayURLError::NoSessionID { s } => ParseErrorView::NoSessionID { s: s@ },
        }
    }
}

// ---------------------------------------------------------------------------
// Specification-level parser
// ---------------------------------------------------------------------------

/// The purely syntactic part of a URL, before gateway validation.
pub struct RawUrlView {
    pub scheme: Seq<char>,
    pub host: Seq<char>,
    pub port: Option<u16>,
    pub path: Seq<char>,
    pub query: Seq<char>,
}

/// Splits the authority into host and port, dropping any user-information
/// part before a `@`; `None` means a malformed port.
pub open spec fn spec_split_authority(authority: Seq<char>) -> Option<(Seq<char>, Option<u16>)> {
    let hostport = match find_one(authority, '@') {
        None => authority,
        Some(u) => authority.subrange(u + 1, authority.len() as int),
    };
    match find_one(hostport, ':') {
        None => Some((hostport, None)),
        Some(k) => {
            let host = hostport.subrange(0, k);
            let ps = hostport.subrange(k + 1, hostport.len() as int);
            if ps.len() == 0 {
                Some((host, None))
            } else {
                match spec_parse_u64(ps) {
                    None => None,
                    Some(v) => if v <= 65535 {
                        Some((host, Some(v as u16)))
                    } else {
                        None
                    },
                }
            }
        },
    }
}

/// Splits a URL string into scheme, host, port, path and raw query.
/// `None` is a URL-syntax failure: no `://`, an empty scheme, or a port that
/// is not a number in range. The scheme is folded to small ASCII letters;
/// everything after a `#` is dropped; an empty path reads as `/`.
pub open spec fn spec_split_url(s: Seq<char>) -> Option<RawUrlView> {
    match find_one(s, ':') {
        None => None,
        Some(i) => {
            if i == 0 || i + 2 >= s.len() || s[i + 1] != '/' || s[i + 2] != '/' {
                None
            } else {
                let scheme = ascii_lower(s.subrange(0, i));
                let rest0 = s.subrange(i + 3, s.len() as int);
                let rest = match find_one(rest0, '#') {
                    None => rest0,
                    Some(h) => rest0.subrange(0, h),
                };
                let aend = match find_two(rest, '/', '?') {
                    None => rest.len() as int,
                    Some(j) => j,
                };
                let authority = rest.subrange(0, aend);
                let after = rest.subrange(aend, rest.len() as int);
                match spec_split_authority(authority) {
                    None => None,
                    Some((host, port)) => {
                        let path0 = match find_one(after, '?') {
                            None => after,
                            Some(q) => after.subrange(0, q),
                        };
                        let query = match find_one(after, '?') {
                            None => Seq::<char>::empty(),
                            Some(q) => after.subrange(q + 1, after.len() as int),
                        };
                        let path = if path0.len() == 0 {
                            seq!['/']
                        } else {
                            path0
                        };
                        Some(RawUrlView { scheme, host, port, path, query })
                    },
                }
            }
        },
    }
}

/// One `key=value` piece, both halves decoded; a piece without `=` is a key
/// with an empty value.
pub open spec fn split_pair(p: Seq<char>) -> (Seq<char>, Seq<char>) {
    match find_one(p, '=') {
        None => (decode_query(p), Seq::<char>::empty()),
        Some(e) => (
            decode_query(p.subrange(0, e)),
            decode_query(p.subrange(e + 1, p.len() as int)),
        ),
    }
}

/// All `&`-separated pieces of a raw query, in order.
pub open spec fn split_pairs(q: Seq<char>) -> Seq<(Seq<char>, Seq<char>)>
    decreases q.len(),
{
    if q.len() == 0 {
        Seq::empty()
    } else {
        match find_one(q, '&') {
            None => seq![split_pair(q)],
            Some(j) => if 0 <= j < q.len() {
                seq![split_pair(q.subrange(0, j))] + split_pairs(
                    q.subrange(j + 1, q.len() as int),
                )
            } else {
                // `find_one` never returns an index out of range
                seq![split_pair(q)]
            },
        }
    }
}

/// The value of the last pair carrying `key`, as a map built from the pairs
/// in order would hold it.
pub open spec fn lookup_pairs(ps: Seq<(Seq<char>, Seq<char>)>, key: Seq<char>) -> Option<
    Seq<char>,
>
    decreases ps.len(),
{
    if ps.len() == 0 {
        None
    } else if ps.last().0 == key {
        Some(ps.last().1)
    } else {
        lookup_pairs(ps.drop_last(), key)
    }
}

/// The resume sequence number as an unsigned decimal: one optional
/// leading `+`, then a numeral in `u64` range.
pub open spec fn spec_parse_sn(s: Seq<char>) -> Option<u64> {
    if s.len() >= 1 && s[0] == '+' {
        spec_parse_u64(s.drop_first())
    } else {
        spec_parse_u64(s)
    }
}

/// Applies `spec_parse_sn` to a string.
fn parse_sn(s: &str) -> (r: Option<u64>)
    ensures
        r == spec_parse_sn(s@),
{
    let n = s.unicode_len();
    if n >= 1 && s.get_char(0) == '+' {
        let rest = s.substring_char(1, n);
        proof {
            assert(rest@ =~= s@.drop_first());
        }
        parse_u64(rest)
    } else {
        parse_u64(s)
    }
}

/// Gateway validation of an already-split URL: scheme must be `ws` or
/// `wss`, a host and a `token` must be present, `compress` means exactly the
/// value `1`, and `resume=1` demands `sn` (an unsigned integer) and
/// `session_id`.
pub open spec fn spec_validate(s: Seq<char>, raw: RawUrlView) -> Result<
    AddressView,
    ParseErrorView,
> {
    if raw.scheme != "ws"@ && raw.scheme != "wss"@ {
        Err(ParseErrorView::InvalidSchema { s, schema: raw.scheme })
    } else if raw.host.len() == 0 {
        Err(ParseErrorView::NoHost { s })
    } else {
        let pairs = split_pairs(raw.query);
        let compress = lookup_pairs(pairs, "compress"@) == Some("1"@);
        match lookup_pairs(pairs, "token"@) {
            None => Err(ParseErrorView::NoToken { s }),
            Some(token) => {
                if lookup_pairs(pairs, "resume"@) == Some("1"@) {
                    match lookup_pairs(pairs, "sn"@) {
                        None => Err(ParseErrorView::NoSN { s }),
                        Some(snstr) => match lookup_pairs(pairs, "session_id"@) {
                            None => Err(ParseErrorView::NoSessionID { s }),
                            Some(sid) => match spec_parse_sn(snstr) {
                                None => Err(ParseErrorView::InvalidSN { s }),
                                Some(sn) => Ok(
                                    AddressView {
                                        schema: raw.scheme,
                                        host: raw.host,
                                        port: raw.port,
                                        path: raw.path,
                                        compress,
                                        token,
                                        resume: Some(ResumeView { sn, session_id: sid }),
                                    },
                                ),
                            },
                        },
                    }
                } else {
                    Ok(
                        AddressView {
                            schema: raw.scheme,
                            host: raw.host,
                            port: raw.port,
                            path: raw.path,
                            compress,
                            token,
                            resume: None,
                        },
                    )
                }
            },
        }
    }
}

/// What `GatewayURLInfo::parse` returns on any input.
pub open spec fn spec_parse(s: Seq<char>) -> Result<AddressView, ParseErrorView> {
    match spec_split_url(s) {
        None => Err(ParseErrorView::InvalidURL { s }),
        Some(raw) => spec_validate(s, raw),
    }
}

// ---------------------------------------------------------------------------
// Specification-level builder
// ---------------------------------------------------------------------------

/// The query string that `spec_build` emits.
pub open spec fn spec_build_query(a: AddressView) -> Seq<char> {
    "compress="@ + (if a.compress {
        "1"@
    } else {
        "0"@
    }) + "&token="@ + a.token + (match a.resume {
        None => Seq::<char>::empty(),
        Some(r) => "&resume=1&sn="@ + dec_of(r.sn as nat) + "&session_id="@ + r.session_id,
    })
}

/// What `GatewayURLInfo::url` returns: the deterministic wire form of an
/// address, with `compress` and `token` always present and the resume triple
/// present exactly when resume state is.
pub open spec fn spec_build(a: AddressView) -> Seq<char> {
    a.schema + "://"@ + a.host + (match a.port {
        None => Seq::<char>::empty(),
        Some(p) => ":"@ + dec_of(p as nat),
    }) + a.path + "?"@ + spec_build_query(a)
}

impl GatewayURLInfo {
    /// Builds the wire-format URL carrying this address.
    pub fn url(&self) -> (r: String)
        ensures
            r@ == spec_build(self@),
    {
        let mut u = String::new();
        u.append(self.schema.as_str());
        u.append("://");
        u.append(self.host.as_str());
        match self.port {
            None => {},
            Some(p) => {
                u.append(":");
                let digits = u64_to_dec(p as u64);
                u.append(digits.as_str());
            },
        }
        u.append(self.path.as_str());
        u.append("?");
        u.append("compress=");
        if self.compress {
            u.append("1");
        } else {
            u.append("0");
        }
        u.append("&token=");
        u.append(self.token.as_str());
        match &self.resume {
            None => {},
            Some(res) => {
                u.append("&resume=1&sn=");
                let digits = u64_to_dec(res.sn);
                u.append(digits.as_str());
                u.append("&session_id=");
                u.append(res.session_id.as_str());
            },
        }
        proof {
            assert(u@ =~= spec_build(self@));
        }
        u
    }
}

// ---------------------------------------------------------------------------
// Executable parser
// ---------------------------------------------------------------------------

/// Character-for-character string equality.
pub fn eq_str(a: &str, b: &str) -> (r: bool)
    ensures
        r == (a@ == b@),
{
    let n = a.unicode_len();
    if n != b.unicode_len() {
        proof {
            assert(a@.len() != b@.len());
        }
        return false;
    }
    let mut i: usize = 0;
    while i < n
        invariant
            n == a@.len(),
            n == b@.len(),
            0 <= i <= n,
            forall|j: int| 0 <= j < i ==> a@[j] == b@[j],
        decreases n - i,
    {
        if a.get_char(i) != b.get_char(i) {
            return false;
        }
        i = i + 1;
    }
    proof {
        assert(a@ =~= b@);
    }
    true
}

/// The purely syntactic split of a URL, before gateway validation.
struct RawUrl {
    scheme: String,
    host: String,
    port: Option<u16>,
    path: String,
    query: String,
}

impl View for RawUrl {
    type V = RawUrlView;

    closed spec fn view(&self) -> RawUrlView {
        RawUrlView {
            scheme: self.scheme@,
            host: self.host@,
            port: self.port,
            path: self.path@,
            query: self.query@,
        }
    }
}

/// Applies `spec_split_url` to a string.
fn split_url(s: &str) -> (r: Option<RawUrl>)
    ensures
        match r {
            None => spec_split_url(s@) == None::<RawUrlView>,
            Some(raw) => spec_split_url(s@) == Some(raw@),
        },
{
    let n = s.unicode_len();
    let i = match find_char(s, ':') {
        None => {
            return None;
        },
        Some(i) => i,
    };
    if i == 0 || n - i <= 2 {
        return None;
    }
    if s.get_char(i + 1) != '/' || s.get_char(i + 2) != '/' {
        return None;
    }
    let scheme = to_ascii_lower(s.substring_char(0, i));
    let rest_full = s.substring_char(i + 3, n);
    let rest = match find_char(rest_full, '#') {
        None => rest_full,
        Some(h) => rest_full.substring_char(0, h),
    };
    let m = rest.unicode_len();
    let aend = match find_char2(rest, '/', '?') {
        None => m,
        Some(j) => j,
    };
    let authority = rest.substring_char(0, aend);
    let after = rest.substring_char(aend, m);
    let alen = authority.unicode_len();
    let hostport = match find_char(authority, '@') {
        None => authority,
        Some(u) => authority.substring_char(u + 1, alen),
    };
    let hplen = hostport.unicode_len();
    let (host, port) = match find_char(hostport, ':') {
        None => (hostport, None),
        Some(k) => {
            let h = hostport.substring_char(0, k);
            let ps = hostport.substring_char(k + 1, hplen);
            if ps.unicode_len() == 0 {
                (h, None)
            } else {
                match parse_u64(ps) {
                    None => {
                        return None;
                    },
                    Some(v) => if v <= 65535 {
                        (h, Some(v as u16))
                    } else {
                        return None;
                    },
                }
            }
        },
    };
    let flen = after.unicode_len();
    let (path0, query) = match find_char(after, '?') {
        None => (after, after.substring_char(flen, flen)),
        Some(q) => (after.substring_char(0, q), after.substring_char(q + 1, flen)),
    };
    let path = if path0.unicode_len() == 0 {
        proof {
            reveal_strlit("/");
            assert("/"@ =~= seq!['/']);
        }
        String::from_str("/")
    } else {
        String::from_str(path0)
    };
    let raw = RawUrl {
        scheme,
        host: String::from_str(host),
        port,
        path,
        query: String::from_str(query),
    };
    proof {
        match find_one(after@, '?') {
            None => {
                assert(raw.query@ =~= Seq::<char>::empty());
            },
            Some(_q) => {},
        }
        assert(spec_split_url(s@) == Some(raw@));
    }
    Some(raw)
}

/// View of an executable pair list as the spec pair list.
pub open spec fn pairs_view(ps: Seq<(String, String)>) -> Seq<(Seq<char>, Seq<char>)> {
    ps.map_values(|p: (String, String)| (p.0@, p.1@))
}

/// Applies `split_pair` to one `key=value` piece.
fn split_one_pair(piece: &str) -> (r: (String, String))
    ensures
        (r.0@, r.1@) == split_pair(piece@),
{
    let n = piece.unicode_len();
    match find_char(piece, '=') {
        None => (decode_component(piece), String::new()),
        Some(e) => {
            let k = decode_component(piece.substring_char(0, e));
            let v = decode_component(piece.substring_char(e + 1, n));
            (k, v)
        },
    }
}

/// Applies `split_pairs` to a raw query string.
fn parse_pairs(q: &str) -> (ps: Vec<(String, String)>)
    ensures
        pairs_view(ps@) == split_pairs(q@),
{
    let mut out: Vec<(String, String)> = Vec::new();
    let mut rem: &str = q;
    let mut rem_len = q.unicode_len();
    proof {
        assert(pairs_view(out@) =~= Seq::<(Seq<char>, Seq<char>)>::empty());
        assert(pairs_view(out@) + split_pairs(rem@) =~= split_pairs(q@));
    }
    while rem_len > 0
        invariant
            rem_len == rem@.len(),
            split_pairs(q@) == pairs_view(out@) + split_pairs(rem@),
        decreases rem_len,
    {
        let ghost old_out = out@;
        let ghost old_rem = rem@;
        match find_char(rem, '&') {
            None => {
                let p = split_one_pair(rem);
                out.push(p);
                rem = rem.substring_char(rem_len, rem_len);
                rem_len = 0;
                proof {
                    assert(rem@ =~= Seq::<char>::empty());
                    assert(split_pairs(old_rem) =~= seq![split_pair(old_rem)]);
                    assert(pairs_view(out@) =~= pairs_view(old_out).push(
                        (p.0@, p.1@),
                    ));
                    assert(pairs_view(out@) + split_pairs(rem@) =~= split_pairs(q@));
                }
            },
            Some(j) => {
                let piece = rem.substring_char(0, j);
                let p = split_one_pair(piece);
                out.push(p);
                rem = rem.substring_char(j + 1, rem_len);
                rem_len = rem_len - j - 1;
                proof {
                    assert(split_pairs(old_rem) =~= seq![split_pair(old_rem.subrange(0, j as int))]
                        + split_pairs(old_rem.subrange(j + 1, old_rem.len() as int)));
                    assert(pairs_view(out@) =~= pairs_view(old_out).push((p.0@, p.1@)));
                    assert(pairs_view(out@) + split_pairs(rem@) =~= split_pairs(q@));
                }
            },
        }
    }
    proof {
        assert(split_pairs(rem@) =~= Seq::<(Seq<char>, Seq<char>)>::empty());
        assert(pairs_view(out@) =~= split_pairs(q@));
    }
    out
}

/// Value of the last pair carrying `key`, cloned out of the list.
fn lookup(ps: &Vec<(String, String)>, key: &str) -> (r: Option<String>)
    ensures
        match r {
            None => lookup_pairs(pairs_view(ps@), key@) == None::<Seq<char>>,
            Some(v) => lookup_pairs(pairs_view(ps@), key@) == Some(v@),
        },
{
    let ghost whole = pairs_view(ps@);
    let mut j = ps.len();
    proof {
        assert(whole.subrange(0, j as int) =~= whole);
    }
    while j > 0
        invariant
            j <= ps.len(),
            whole == pairs_view(ps@),
            lookup_pairs(whole, key@) == lookup_pairs(whole.subrange(0, j as int), key@),
        decreases j,
    {
        let hit = eq_str(ps[j - 1].0.as_str(), key);
        proof {
            let pre = whole.subrange(0, j as int);
            assert(pre.last() == whole[j - 1]);
            assert(whole[j - 1] == (ps@[j - 1].0@, ps@[j - 1].1@));
            assert(pre.drop_last() =~= whole.subrange(0, j - 1));
        }
        if hit {
            let v = ps[j - 1].1.clone();
            return Some(v);
        }
        j = j - 1;
    }
    proof {
        assert(whole.subrange(0, 0) =~= Seq::<(Seq<char>, Seq<char>)>::empty());
    }
    None
}

impl GatewayURLInfo {
    /// Parses a gateway connection URL: the scheme must be `ws` or `wss`,
    /// a host and a `token` query parameter must be present, `compress`
    /// means exactly the value `1`, and `resume=1` demands an unsigned
    /// integer `sn` and a `session_id`. Query keys and values are decoded
    /// as `+` for space and ASCII percent escapes; as a deliberate model,
    /// escapes of bytes beyond ASCII (parts of multi-byte encodings) are
    /// carried through undecoded.
    pub fn parse(s: &str) -> (r: Result<GatewayURLInfo, ParseGatewayURLError>)
        ensures
            match r {
                Ok(a) => spec_parse(s@) == Ok::<AddressView, ParseErrorView>(a@),
                Err(e) => spec_parse(s@) == Err::<AddressView, ParseErrorView>(e@),
            },
    {
        let raw = match split_url(s) {
            None => {
                return Err(ParseGatewayURLError::InvalidURL { s: String::from_str(s) });
            },
            Some(raw) => raw,
        };
        let is_ws = eq_str(raw.scheme.as_str(), "ws");
        let is_wss = eq_str(raw.scheme.as_str(), "wss");
        if !is_ws && !is_wss {
            return Err(
                ParseGatewayURLError::InvalidSchema {
                    s: String::from_str(s),
                    schema: raw.scheme,
                },
            );
        }
        if raw.host.unicode_len() == 0 {
            return Err(ParseGatewayURLError::NoHost { s: String::from_str(s) });
        }
        let pairs = parse_pairs(raw.query.as_str());
        let compress = match lookup(&pairs, "compress") {
            None => false,
            Some(v) => eq_str(v.as_str(), "1"),
        };
        let token = match lookup(&pairs, "token") {
            None => {
                return Err(ParseGatewayURLError::NoToken { s: String::from_str(s) });
            },
            Some(t) => t,
        };
        let resume_on = match lookup(&pairs, "resume") {
            None => false,
            Some(v) => eq_str(v.as_str(), "1"),
        };
        let resume = if resume_on {
            let snstr = match lookup(&pairs, "sn") {
                None => {
                    return Err(ParseGatewayURLError::NoSN { s: String::from_str(s) });
                },
                Some(x) => x,
            };
            let sid = match lookup(&pairs, "session_id") {
                None => {
                    return Err(ParseGatewayURLError::NoSessionID { s: String::from_str(s) });
                },
                Some(x) => x,
            };
            match parse_sn(snstr.as_str()) {
                None => {
                    return Err(ParseGatewayURLError::InvalidSN { s: String::from_str(s) });
                },
                Some(sn) => Some(GatewayResumeArguments { sn, session_id: sid }),
            }
        } else {
            None
        };
        Ok(
            GatewayURLInfo {
                schema: raw.scheme,
                host: raw.host,
                port: raw.port,
                path: raw.path,
                compress,
                token,
                resume,
            },
        )
    }
}


// ---------------------------------------------------------------------------
// Round trip
// ---------------------------------------------------------------------------

/// A token or session id that the wire format carries verbatim: free of the
/// query delimiters and of the characters that component decoding rewrites.
pub open spec fn query_value_ok(v: Seq<char>) -> bool {
    lacks(v, '&') && lacks(v, '#') && lacks(v, '%') && lacks(v, '+')
}

/// An address whose every field survives the trip through the wire format:
/// a `ws`/`wss` scheme, a nonempty host free of the URL delimiters, a path
/// that starts with `/` and holds neither `?` nor `#`, and query values that
/// need no encoding.
pub open spec fn valid_address(a: AddressView) -> bool {
    &&& (a.schema == "ws"@ || a.schema == "wss"@)
    &&& a.host.len() > 0
    &&& lacks(a.host, ':') && lacks(a.host, '/') && lacks(a.host, '?') && lacks(a.host, '#')
    &&& lacks(a.host, '@')
    &&& a.path.len() > 0
    &&& a.path[0] == '/'
    &&& lacks(a.path, '?') && lacks(a.path, '#')
    &&& query_value_ok(a.token)
    &&& (match a.resume {
        None => true,
        Some(r) => query_value_ok(r.session_id),
    })
}

/// The host-and-port segment of the built URL.
pub open spec fn port_part(port: Option<u16>) -> Seq<char> {
    match port {
        None => Seq::<char>::empty(),
        Some(p) => ":"@ + dec_of(p as nat),
    }
}

/// Splitting a built URL recovers scheme, host, port and path exactly, and
/// hands the built query on whole.
proof fn lemma_roundtrip_split(a: AddressView)
    requires
        valid_address(a),
    ensures
        spec_split_url(spec_build(a)) == Some(
            RawUrlView {
                scheme: a.schema,
                host: a.host,
                port: a.port,
                path: a.path,
                query: spec_build_query(a),
            },
        ),
{
    reveal_strlit("ws");
    reveal_strlit("wss");
    reveal_strlit("://");
    reveal_strlit("?");
    reveal_strlit(":");
    reveal_strlit("compress=");
    reveal_strlit("1");
    reveal_strlit("0");
    reveal_strlit("&token=");
    reveal_strlit("&resume=1&sn=");
    reveal_strlit("&session_id=");
    let s = spec_build(a);
    let q = spec_build_query(a);
    let pp = port_part(a.port);
    let sl = a.schema.len() as int;
    let hl = a.host.len() as int;
    let ppl = pp.len() as int;
    let al = hl + ppl;
    let tl = a.path.len() as int;
    assert(s =~= a.schema + "://"@ + a.host + pp + a.path + "?"@ + q);

    // the query never holds '#'
    match a.resume {
        None => {
            assert(lacks(q, '#'));
        },
        Some(r) => {
            lemma_dec_of(r.sn as nat);
            lemma_digits_lack(dec_of(r.sn as nat), '#');
            assert(lacks(q, '#'));
        },
    }
    // port digits hold no delimiter
    match a.port {
        None => {},
        Some(p) => {
            lemma_dec_of(p as nat);
            lemma_digits_lack(dec_of(p as nat), '/');
            lemma_digits_lack(dec_of(p as nat), '?');
            lemma_digits_lack(dec_of(p as nat), '#');
            lemma_digits_lack(dec_of(p as nat), '@');
        },
    }

    // scheme ends at the first ':'
    assert(forall|j: int| 0 <= j < sl ==> s[j] == a.schema[j]);
    assert(forall|j: int| 0 <= j < sl ==> a.schema[j] != ':');
    assert(s[sl] == ':' && s[sl + 1] == '/' && s[sl + 2] == '/');
    lemma_find_one_at(s, ':', sl);
    assert(s.subrange(0, sl) =~= a.schema);
    assert(lower_char('w') == 'w' && lower_char('s') == 's');
    assert(ascii_lower(a.schema) =~= a.schema);
    let rest0 = s.subrange(sl + 3, s.len() as int);
    assert(rest0 =~= a.host + pp + a.path + "?"@ + q);

    // no fragment anywhere after the scheme
    assert(lacks(rest0, '#'));
    lemma_find_one_absent(rest0, '#');

    // the authority ends at the path's leading '/'
    assert(forall|j: int| 0 <= j < hl ==> rest0[j] == a.host[j]);
    assert(forall|j: int| hl <= j < al ==> rest0[j] == pp[j - hl]);
    assert(forall|j: int| 0 <= j < al ==> rest0[j] != '/' && rest0[j] != '?');
    assert(rest0[al] == a.path[0]);
    lemma_find_two_at(rest0, '/', '?', al);
    let authority = rest0.subrange(0, al);
    let after = rest0.subrange(al, rest0.len() as int);
    assert(authority =~= a.host + pp);
    assert(after =~= a.path + "?"@ + q);

    // no user-information part stands in a built authority
    assert(lacks(authority, '@'));
    lemma_find_one_absent(authority, '@');

    // host and port come back from the authority
    match a.port {
        None => {
            assert(authority =~= a.host);
            lemma_find_one_absent(authority, ':');
            assert(spec_split_authority(authority) == Some((a.host, None::<u16>)));
        },
        Some(p) => {
            assert(forall|j: int| 0 <= j < hl ==> authority[j] == a.host[j]);
            assert(authority[hl] == ':');
            lemma_find_one_at(authority, ':', hl);
            assert(authority.subrange(0, hl) =~= a.host);
            let ps = authority.subrange(hl + 1, al);
            assert(ps =~= dec_of(p as nat));
            assert(dec_val(ps) == p as int);
            assert(spec_parse_u64(ps) == Some(p as u64));
            assert((p as u64) as u16 == p);
            assert(spec_split_authority(authority) == Some((a.host, Some(p))));
        },
    }

    // the path ends at the first '?'
    assert(forall|j: int| 0 <= j < tl ==> after[j] == a.path[j]);
    assert(after[tl] == '?');
    lemma_find_one_at(after, '?', tl);
    assert(after.subrange(0, tl) =~= a.path);
    assert(after.subrange(tl + 1, after.len() as int) =~= q);
}


/// Peels the piece before the first `&` off a query.
proof fn lemma_pairs_step(q: Seq<char>, k: int)
    requires
        0 <= k < q.len(),
        q[k] == '&',
        forall|j: int| 0 <= j < k ==> q[j] != '&',
    ensures
        split_pairs(q) == seq![split_pair(q.subrange(0, k))] + split_pairs(
            q.subrange(k + 1, q.len() as int),
        ),
{
    lemma_find_one_at(q, '&', k);
}

/// A nonempty query without `&` is a single piece.
proof fn lemma_pairs_last(q: Seq<char>)
    requires
        q.len() > 0,
        lacks(q, '&'),
    ensures
        split_pairs(q) == seq![split_pair(q)],
{
    lemma_find_one_absent(q, '&');
}

/// A piece whose first `=` stands at `e` splits there.
proof fn lemma_pair_split(p: Seq<char>, e: int)
    requires
        0 <= e < p.len(),
        p[e] == '=',
        forall|j: int| 0 <= j < e ==> p[j] != '=',
    ensures
        split_pair(p) == (
            decode_query(p.subrange(0, e)),
            decode_query(p.subrange(e + 1, p.len() as int)),
        ),
{
    lemma_find_one_at(p, '=', e);
}

/// The compress value the built query carries.
pub open spec fn compress_value(compress: bool) -> Seq<char> {
    if compress {
        "1"@
    } else {
        "0"@
    }
}

/// The pair list a built query splits into: `compress` and `token` always,
/// and the resume triple exactly when resume state is present.
pub open spec fn built_pairs(a: AddressView) -> Seq<(Seq<char>, Seq<char>)> {
    match a.resume {
        None => seq![("compress"@, compress_value(a.compress)), ("token"@, a.token)],
        Some(r) => seq![
            ("compress"@, compress_value(a.compress)),
            ("token"@, a.token),
            ("resume"@, "1"@),
            ("sn"@, dec_of(r.sn as nat)),
            ("session_id"@, r.session_id),
        ],
    }
}

/// Splitting a built query yields exactly the pairs it was built from.
#[verifier::rlimit(100)]
proof fn lemma_roundtrip_pairs(a: AddressView)
    requires
        valid_address(a),
    ensures
        split_pairs(spec_build_query(a)) == built_pairs(a),
{
    reveal_strlit("compress=");
    reveal_strlit("compress");
    reveal_strlit("token");
    reveal_strlit("resume");
    reveal_strlit("sn");
    reveal_strlit("session_id");
    reveal_strlit("1");
    reveal_strlit("0");
    reveal_strlit("&token=");
    reveal_strlit("&resume=1&sn=");
    reveal_strlit("&session_id=");
    let q = spec_build_query(a);
    let c = compress_value(a.compress);
    let t = a.token;
    // the piece before the first '&' is "compress=" with the flag value
    assert(q[10] == '&');
    assert(forall|j: int| 0 <= j < 10 ==> q[j] != '&');
    lemma_pairs_step(q, 10);
    let piece1 = q.subrange(0, 10);
    assert(piece1[8] == '=');
    assert(forall|j: int| 0 <= j < 8 ==> piece1[j] != '=');
    lemma_pair_split(piece1, 8);
    assert(piece1.subrange(0, 8) =~= "compress"@);
    assert(piece1.subrange(9, 10) =~= c);
    lemma_decode_plain("compress"@);
    lemma_decode_plain(c);
    assert(split_pair(piece1) == ("compress"@, c));
    let rem1 = q.subrange(11, q.len() as int);
    match a.resume {
        None => {
            // one piece is left: "token=" with the token
            assert(rem1.len() == 6 + t.len());
            assert(forall|j: int| 0 <= j < 6 ==> rem1[j] == "&token="@[j + 1]);
            assert(forall|j: int| 6 <= j < rem1.len() ==> rem1[j] == t[j - 6]);
            assert(lacks(rem1, '&'));
            lemma_pairs_last(rem1);
            assert(rem1[5] == '=');
            assert(forall|j: int| 0 <= j < 5 ==> rem1[j] != '=');
            lemma_pair_split(rem1, 5);
            assert(rem1.subrange(0, 5) =~= "token"@);
            assert(rem1.subrange(6, rem1.len() as int) =~= t);
            lemma_decode_plain("token"@);
            lemma_decode_plain(t);
            assert(split_pair(rem1) == ("token"@, t));
            assert(split_pairs(q) =~= built_pairs(a));
        },
        Some(r) => {
            let d = dec_of(r.sn as nat);
            let dl = d.len() as int;
            let sid = r.session_id;
            lemma_dec_of(r.sn as nat);
            lemma_digits_lack(d, '&');
            lemma_digits_lack(d, '=');
            lemma_digits_lack(d, '%');
            lemma_digits_lack(d, '+');
            // "token=" with the token
            let tl = t.len() as int;
            assert(forall|j: int| 0 <= j < 6 ==> rem1[j] == "&token="@[j + 1]);
            assert(forall|j: int| 6 <= j < 6 + tl ==> rem1[j] == t[j - 6]);
            assert(rem1[6 + tl] == '&');
            assert(forall|j: int| 0 <= j < 6 + tl ==> rem1[j] != '&');
            lemma_pairs_step(rem1, 6 + tl);
            let piece2 = rem1.subrange(0, 6 + tl);
            assert(piece2[5] == '=');
            assert(forall|j: int| 0 <= j < 5 ==> piece2[j] != '=');
            lemma_pair_split(piece2, 5);
            assert(piece2.subrange(0, 5) =~= "token"@);
            assert(piece2.subrange(6, piece2.len() as int) =~= t);
            lemma_decode_plain("token"@);
            lemma_decode_plain(t);
            assert(split_pair(piece2) == ("token"@, t));
            // "resume=1"
            let rem2 = rem1.subrange(6 + tl + 1, rem1.len() as int);
            assert(forall|j: int| 0 <= j < 8 ==> rem2[j] == "&resume=1&sn="@[j + 1]);
            assert(rem2[8] == '&');
            assert(forall|j: int| 0 <= j < 8 ==> rem2[j] != '&');
            lemma_pairs_step(rem2, 8);
            let piece3 = rem2.subrange(0, 8);
            assert(piece3[6] == '=');
            assert(forall|j: int| 0 <= j < 6 ==> piece3[j] != '=');
            lemma_pair_split(piece3, 6);
            assert(piece3.subrange(0, 6) =~= "resume"@);
            assert(piece3.subrange(7, 8) =~= "1"@);
            lemma_decode_plain("resume"@);
            lemma_decode_plain("1"@);
            assert(split_pair(piece3) == ("resume"@, "1"@));
            // "sn=" with the numeral
            let rem3 = rem2.subrange(9, rem2.len() as int);
            assert(forall|j: int| 0 <= j < 3 ==> rem3[j] == "&resume=1&sn="@[j + 10]);
            assert(forall|j: int| 3 <= j < 3 + dl ==> rem3[j] == d[j - 3]);
            assert(rem3[3 + dl] == '&');
            assert(forall|j: int| 0 <= j < 3 + dl ==> rem3[j] != '&');
            lemma_pairs_step(rem3, 3 + dl);
            let piece4 = rem3.subrange(0, 3 + dl);
            assert(piece4[2] == '=');
            assert(forall|j: int| 0 <= j < 2 ==> piece4[j] != '=');
            lemma_pair_split(piece4, 2);
            assert(piece4.subrange(0, 2) =~= "sn"@);
            assert(piece4.subrange(3, piece4.len() as int) =~= d);
            lemma_decode_plain("sn"@);
            lemma_decode_plain(d);
            assert(split_pair(piece4) == ("sn"@, d));
            // "session_id=" with the id, the last piece
            let rem4 = rem3.subrange(3 + dl + 1, rem3.len() as int);
            assert(rem4.len() == 11 + sid.len());
            assert(forall|j: int| 0 <= j < 11 ==> rem4[j] == "&session_id="@[j + 1]);
            assert(forall|j: int| 11 <= j < rem4.len() ==> rem4[j] == sid[j - 11]);
            assert(lacks(rem4, '&'));
            lemma_pairs_last(rem4);
            assert(rem4[10] == '=');
            assert(forall|j: int| 0 <= j < 10 ==> rem4[j] != '=');
            lemma_pair_split(rem4, 10);
            assert(rem4.subrange(0, 10) =~= "session_id"@);
            assert(rem4.subrange(11, rem4.len() as int) =~= sid);
            lemma_decode_plain("session_id"@);
            lemma_decode_plain(sid);
            assert(split_pair(rem4) == ("session_id"@, sid));
            assert(split_pairs(q) =~= built_pairs(a));
        },
    }
}

/// The round-trip law: parsing a built URL gives back exactly the address
/// it was built from, for every valid address.
pub proof fn lemma_build_parse_roundtrip(a: AddressView)
    requires
        valid_address(a),
    ensures
        spec_parse(spec_build(a)) == Ok::<AddressView, ParseErrorView>(a),
{
    reveal_strlit("ws");
    reveal_strlit("wss");
    reveal_strlit("compress");
    reveal_strlit("token");
    reveal_strlit("resume");
    reveal_strlit("sn");
    reveal_strlit("session_id");
    reveal_strlit("1");
    reveal_strlit("0");
    lemma_roundtrip_split(a);
    lemma_roundtrip_pairs(a);
    let s = spec_build(a);
    let ps = built_pairs(a);
    let pc = ("compress"@, compress_value(a.compress));
    let pt = ("token"@, a.token);
    assert("compress"@.len() == 8 && "token"@.len() == 5 && "resume"@.len() == 6 && "sn"@.len()
        == 2 && "session_id"@.len() == 10);
    match a.resume {
        None => {
            reveal_with_fuel(lookup_pairs, 4);
            let two = seq![pc, pt];
            assert(two.drop_last() =~= seq![pc]);
            assert(seq![pc].drop_last() =~= Seq::<(Seq<char>, Seq<char>)>::empty());
            assert(lookup_pairs(ps, "token"@) == Some(a.token));
            assert(lookup_pairs(ps, "compress"@) == Some(compress_value(a.compress)));
            assert(lookup_pairs(ps, "resume"@) == None::<Seq<char>>);
        },
        Some(r) => {
            reveal_with_fuel(lookup_pairs, 7);
            let d = dec_of(r.sn as nat);
            lemma_dec_of(r.sn as nat);
            let five = ps;
            assert(five.drop_last() =~= seq![pc, pt, ("resume"@, "1"@), ("sn"@, d)]);
            assert(seq![pc, pt, ("resume"@, "1"@), ("sn"@, d)].drop_last() =~= seq![
                pc,
                pt,
                ("resume"@, "1"@),
            ]);
            assert(seq![pc, pt, ("resume"@, "1"@)].drop_last() =~= seq![pc, pt]);
            assert(seq![pc, pt].drop_last() =~= seq![pc]);
            assert(seq![pc].drop_last() =~= Seq::<(Seq<char>, Seq<char>)>::empty());
            assert(lookup_pairs(ps, "session_id"@) == Some(r.session_id));
            assert(lookup_pairs(ps, "sn"@) == Some(d));
            assert(lookup_pairs(ps, "resume"@) == Some("1"@));
            assert(lookup_pairs(ps, "token"@) == Some(a.token));
            assert(lookup_pairs(ps, "compress"@) == Some(compress_value(a.compress)));
            assert(d[0] != '+');
            assert(spec_parse_sn(d) == Some(r.sn));
        },
    }
    assert("0"@[0] != "1"@[0]);
    assert("0"@ != "1"@);
    assert(compress_value(a.compress) == "1"@ <==> a.compress);
}


/// A URL that splits cleanly, with a `ws`/`wss` scheme and a host, but no
/// `token` query parameter, always fails with `NoToken` and nothing else.
pub proof fn lemma_missing_token(s: Seq<char>, raw: RawUrlView)
    requires
        spec_split_url(s) == Some(raw),
        raw.scheme == "ws"@ || raw.scheme == "wss"@,
        raw.host.len() > 0,
        lookup_pairs(split_pairs(raw.query), "token"@) is None,
    ensures
        spec_parse(s) == Err::<AddressView, ParseErrorView>(ParseErrorView::NoToken { s }),
{
}

/// With `resume=1` but no `sn` parameter, parsing always fails with `NoSN`.
pub proof fn lemma_resume_missing_sn(s: Seq<char>, raw: RawUrlView)
    requires
        spec_split_url(s) == Some(raw),
        raw.scheme == "ws"@ || raw.scheme == "wss"@,
        raw.host.len() > 0,
        lookup_pairs(split_pairs(raw.query), "token"@) is Some,
        lookup_pairs(split_pairs(raw.query), "resume"@) == Some("1"@),
        lookup_pairs(split_pairs(raw.query), "sn"@) is None,
    ensures
        spec_parse(s) == Err::<AddressView, ParseErrorView>(ParseErrorView::NoSN { s }),
{
}

/// With `resume=1` and an `sn` present but no `session_id`, parsing always
/// fails with `NoSessionID`.
pub proof fn lemma_resume_missing_session_id(s: Seq<char>, raw: RawUrlView)
    requires
        spec_split_url(s) == Some(raw),
        raw.scheme == "ws"@ || raw.scheme == "wss"@,
        raw.host.len() > 0,
        lookup_pairs(split_pairs(raw.query), "token"@) is Some,
        lookup_pairs(split_pairs(raw.query), "resume"@) == Some("1"@),
        lookup_pairs(split_pairs(raw.query), "sn"@) is Some,
        lookup_pairs(split_pairs(raw.query), "session_id"@) is None,
    ensures
        spec_parse(s) == Err::<AddressView, ParseErrorView>(ParseErrorView::NoSessionID { s }),
{
}

} // verus!
