//! The mode-B reverse proxy's rules: where a request is forwarded, which headers pass,
//! how `Retry-After` is read, and when a limited key is rotated.
use vstd::prelude::*;

use crate::auth::{bearer_header, bearer_prefix};
use crate::provider::{spec_proxy_prefix, spec_real_base_url, Provider};
use crate::text::{chars_of, concat, lower, str_eq, strip_prefix, starts_with, to_ascii_lowercase};

use vstd::utf8::encode_utf8;

verus! {

/// Upstream requests a proxied call may make: on a rate-limit or quota answer the key is
/// rotated and the call retried, up to this many attempts in all.
pub const MAX_RETRY: usize = 2;

/// The largest request body the proxy forwards.
pub const MAX_BODY: usize = 16777216;

/// Headers that describe one hop and are not forwarded (compared in lower case).
pub open spec fn hop_by_hop(name: Seq<char>) -> bool {
    ||| name == "connection"@
    ||| name == "keep-alive"@
    ||| name == "proxy-authenticate"@
    ||| name == "proxy-authorization"@
    ||| name == "te"@
    ||| name == "trailers"@
    ||| name == "transfer-encoding"@
    ||| name == "upgrade"@
    ||| name == "host"@
    ||| name == "content-length"@
}

/// Whether a header named `name` is passed on (in either direction): all headers but the
/// hop-by-hop ones, whatever their case.
pub fn forward_header(name: &str) -> (r: bool)
    ensures
        r == !hop_by_hop(lower(name@)),
{
    let l = to_ascii_lowercase(name);
    let n = l.as_str();
    !(str_eq(n, "connection") || str_eq(n, "keep-alive") || str_eq(n, "proxy-authenticate")
        || str_eq(n, "proxy-authorization") || str_eq(n, "te") || str_eq(n, "trailers")
        || str_eq(n, "transfer-encoding") || str_eq(n, "upgrade") || str_eq(n, "host")
        || str_eq(n, "content-length"))
}

/// Whether a client header named `name` goes upstream: neither a hop-by-hop header nor the
/// client's own `Authorization` (which carries the user token), whatever the case.
pub open spec fn upstream_keeps(name: Seq<char>) -> bool {
    !hop_by_hop(lower(name)) && lower(name) != "authorization"@
}

pub open spec fn upstream_filter() -> spec_fn((Seq<char>, Seq<u8>)) -> bool {
    |h: (Seq<char>, Seq<u8>)| upstream_keeps(h.0)
}

/// A list of headers, each as its name and the bytes of its value.
pub open spec fn headers_view(hs: Seq<(String, Vec<u8>)>) -> Seq<(Seq<char>, Seq<u8>)> {
    hs.map_values(|h: (String, Vec<u8>)| (h.0@, h.1@))
}

/// The `Authorization` header sent upstream: `Bearer ` and the leased key, in UTF-8.
pub open spec fn upstream_auth_header(key: Seq<char>) -> (Seq<char>, Seq<u8>) {
    ("authorization"@, encode_utf8(bearer_prefix() + key))
}

/// The headers of a proxied request as sent upstream: the client's headers that go
/// upstream, in order, then the leased key as a bearer `Authorization`.
pub open spec fn spec_upstream_headers(hs: Seq<(Seq<char>, Seq<u8>)>, key: Seq<char>) -> Seq<(Seq<char>, Seq<u8>)> {
    hs.filter(upstream_filter()).push(upstream_auth_header(key))
}

/// Whether a client header named `name` goes upstream (see `upstream_keeps`).
pub fn keeps_upstream(name: &str) -> (r: bool)
    ensures
        r == upstream_keeps(name@),
{
    let l = to_ascii_lowercase(name);
    forward_header(name) && !str_eq(l.as_str(), "authorization")
}

/// Builds the headers of a proxied request: the client's headers that go upstream, then
/// `Authorization: Bearer <key>` for the leased key.
pub fn upstream_headers(headers: &Vec<(String, Vec<u8>)>, key: &str) -> (r: Vec<(String, Vec<u8>)>)
    ensures
        headers_view(r@) == spec_upstream_headers(headers_view(headers@), key@),
{
    let ghost hv = headers_view(headers@);
    let mut out: Vec<(String, Vec<u8>)> = Vec::new();
    let mut i: usize = 0;
    while i < headers.len()
        invariant
            i <= headers.len(),
            hv == headers_view(headers@),
            headers_view(out@) == hv.take(i as int).filter(upstream_filter()),
        decreases headers.len() - i,
    {
        let name = &headers[i].0;
        let keep = keeps_upstream(name.as_str());
        proof {
            assert(hv.take(i + 1) =~= hv.take(i as int).push(hv[i as int]));
            hv.take(i as int).lemma_filter_push(hv[i as int], upstream_filter());
        }
        if keep {
            let value = vstd::slice::slice_to_vec(headers[i].1.as_slice());
            out.push((name.clone(), value));
            proof {
                assert(headers_view(out@) =~= hv.take(i + 1).filter(upstream_filter()));
            }
        }
        i = i + 1;
    }
    proof {
        assert(hv.take(headers.len() as int) =~= hv);
    }
    let auth = bearer_header(key);
    let bytes = vstd::slice::slice_to_vec(auth.as_str().as_bytes());
    out.push(("authorization".to_owned(), bytes));
    proof {
        assert(headers_view(out@) =~= spec_upstream_headers(hv, key@));
    }
    out
}

/// Of the headers sent upstream, exactly one is an `Authorization` (in any case), the last,
/// and it carries `Bearer ` and the leased key; every other one is a client header that is
/// neither hop-by-hop nor an `Authorization`, so the user token is never forwarded.
pub proof fn lemma_upstream_authorization(hs: Seq<(Seq<char>, Seq<u8>)>, key: Seq<char>)
    ensures
        ({
            let r = spec_upstream_headers(hs, key);
            &&& r.len() >= 1
            &&& r.last() == upstream_auth_header(key)
            &&& forall|j: int| 0 <= j < r.len() ==> (lower(#[trigger] r[j].0) == "authorization"@ <==> j == r.len() - 1)
            &&& forall|j: int| 0 <= j < r.len() - 1 ==> upstream_keeps(#[trigger] r[j].0) && hs.contains(r[j])
        }),
{
    let f = hs.filter(upstream_filter());
    let r = spec_upstream_headers(hs, key);
    reveal_strlit("authorization");
    assert(lower("authorization"@) =~= "authorization"@);
    assert forall|j: int| 0 <= j < r.len() - 1 implies upstream_keeps(#[trigger] r[j].0) && hs.contains(r[j]) by {
        hs.lemma_filter_pred(upstream_filter(), j);
        assert(f.contains(f[j]));
        hs.lemma_filter_contains_rev(upstream_filter(), f[j]);
    }
}

/// The upstream URL of a proxied request: the provider's real base URL, then the request
/// path with the provider's mount prefix removed (nothing if the path lacks the prefix),
/// then `?` and the query, if there is one.
pub open spec fn spec_upstream_url(p: Provider, path: Seq<char>, query: Option<Seq<char>>) -> Seq<char> {
    let suffix = if starts_with(path, spec_proxy_prefix(p)) {
        path.skip(spec_proxy_prefix(p).len() as int)
    } else {
        Seq::<char>::empty()
    };
    let q = match query {
        Some(q) => "?"@ + q,
        None => Seq::<char>::empty(),
    };
    spec_real_base_url(p) + suffix + q
}

pub open spec fn opt_str_view(o: Option<&str>) -> Option<Seq<char>> {
    match o {
        Some(s) => Some(s@),
        None => None,
    }
}

/// Builds the upstream URL of a proxied request.
pub fn upstream_url(p: Provider, path: &str, query: Option<&str>) -> (r: String)
    ensures
        r@ == spec_upstream_url(p, path@, opt_str_view(query)),
        query matches Some(q) ==> r@ == spec_upstream_url(p, path@, None) + "?"@ + q@,
        r@.take(spec_real_base_url(p).len() as int) == spec_real_base_url(p),
{
    let suffix = match strip_prefix(path, p.proxy_prefix()) {
        Some(s) => s,
        None => {
            proof {
                reveal_strlit("");
            }
            let e = "".to_owned();
            assert(e@ =~= Seq::<char>::empty());
            e
        },
    };
    let base = concat(p.real_base_url(), suffix.as_str());
    proof {
        if let Some(q) = query {
            lemma_upstream_url_query(p, path@, q@);
        }
        assert(base@.take(spec_real_base_url(p).len() as int) =~= spec_real_base_url(p));
    }
    match query {
        Some(q) => {
            let qs = concat("?", q);
            let r = concat(base.as_str(), qs.as_str());
            assert(r@ =~= spec_upstream_url(p, path@, opt_str_view(query)));
            r
        },
        None => {
            assert(base@ =~= spec_upstream_url(p, path@, opt_str_view(query)));
            base
        },
    }
}

/// The query of a proxied request is forwarded unchanged, whatever the provider: the
/// upstream URL with a query `q` is the one without it followed by `?` and `q`. Without a
/// query, the URL is the provider's real base URL followed by the request path past the
/// provider's mount prefix (nothing when the path lacks the prefix).
pub proof fn lemma_upstream_url_query(p: Provider, path: Seq<char>, q: Seq<char>)
    ensures
        spec_upstream_url(p, path, Some(q)) == spec_upstream_url(p, path, None) + "?"@ + q,
        starts_with(path, spec_proxy_prefix(p)) ==> spec_upstream_url(p, path, None)
            == spec_real_base_url(p) + path.skip(spec_proxy_prefix(p).len() as int),
        !starts_with(path, spec_proxy_prefix(p)) ==> spec_upstream_url(p, path, None) == spec_real_base_url(p),
{
    assert(spec_upstream_url(p, path, Some(q)) =~= spec_upstream_url(p, path, None) + "?"@ + q);
    assert(spec_real_base_url(p) + Seq::<char>::empty() =~= spec_real_base_url(p));
    assert(spec_real_base_url(p) + path.skip(spec_proxy_prefix(p).len() as int) + Seq::<char>::empty()
        =~= spec_real_base_url(p) + path.skip(spec_proxy_prefix(p).len() as int));
}

/// An ASCII decimal digit.
pub open spec fn is_digit(c: char) -> bool {
    '0' <= c && c <= '9'
}

pub open spec fn digit_value(c: char) -> int {
    (c as int) - ('0' as int)
}

/// The value of a string of decimal digits.
pub open spec fn digits_value(s: Seq<char>) -> int
    decreases s.len(),
{
    if s.len() == 0 {
        0
    } else {
        digits_value(s.drop_last()) * 10 + digit_value(s.last())
    }
}

pub open spec fn all_digits(s: Seq<char>) -> bool {
    forall|i: int| 0 <= i < s.len() ==> is_digit(#[trigger] s[i])
}

/// How Rust reads a string as an `i64` (`str::parse::<i64>`): an optional `+` or `-`, then
/// one or more decimal digits, and the value must fit in an `i64`.
pub open spec fn spec_parse_i64(s: Seq<char>) -> Option<i64> {
    let neg = s.len() > 0 && s[0] == '-';
    let body = if s.len() > 0 && (s[0] == '-' || s[0] == '+') {
        s.skip(1)
    } else {
        s
    };
    if body.len() == 0 || !all_digits(body) {
        None
    } else {
        let v = if neg {
            -digits_value(body)
        } else {
            digits_value(body)
        };
        if i64::MIN <= v <= i64::MAX {
            Some(v as i64)
        } else {
            None
        }
    }
}

proof fn lemma_digits_grow(s: Seq<char>, k: int)
    requires
        all_digits(s),
        0 <= k <= s.len(),
    ensures
        0 <= digits_value(s.take(k)) <= digits_value(s),
    decreases s.len() - k,
{
    if k < s.len() {
        lemma_digits_grow(s, k + 1);
        assert(s.take(k + 1).drop_last() =~= s.take(k));
        assert(is_digit(s[k]));
    } else {
        assert(s.take(k) =~= s);
        lemma_digits_nonneg(s);
    }
}

proof fn lemma_digits_nonneg(s: Seq<char>)
    requires
        all_digits(s),
    ensures
        digits_value(s) >= 0,
    decreases s.len(),
{
    if s.len() > 0 {
        assert(all_digits(s.drop_last()));
        lemma_digits_nonneg(s.drop_last());
        assert(is_digit(s.last()));
    }
}

/// Reads a decimal `i64` exactly as `str::parse::<i64>` does.
pub fn parse_i64(s: &str) -> (r: Option<i64>)
    ensures
        r == spec_parse_i64(s@),
{
    let v = chars_of(s);
    let n = v.len();
    let neg = n > 0 && v[0] == '-';
    let start: usize = if n > 0 && (v[0] == '-' || v[0] == '+') {
        1
    } else {
        0
    };
    let ghost body = if s@.len() > 0 && (s@[0] == '-' || s@[0] == '+') {
        s@.skip(1)
    } else {
        s@
    };
    assert(body =~= v@.skip(start as int));
    if start == n {
        assert(body.len() == 0);
        return None;
    }
    let mut acc: i128 = 0;
    let mut i: usize = start;
    while i < n
        invariant
            start <= i <= n,
            n == v.len(),
            v@ == s@,
            body =~= v@.skip(start as int),
            body == (if s@.len() > 0 && (s@[0] == '-' || s@[0] == '+') {
                s@.skip(1)
            } else {
                s@
            }),
            all_digits(body.take(i - start)),
            acc == digits_value(body.take(i - start)),
            0 <= acc <= 9223372036854775808,
        decreases n - i,
    {
        let c = v[i];
        assert(c == body[i - start]);
        if !('0' <= c && c <= '9') {
            assert(!all_digits(body));
            return None;
        }
        let d: i128 = (c as u32 - '0' as u32) as i128;
        assert(body.take(i + 1 - start).drop_last() =~= body.take(i - start));
        acc = acc * 10 + d;
        assert(all_digits(body.take(i + 1 - start)));
        if acc > 9223372036854775808 {
            proof {
                if all_digits(body) {
                    lemma_digits_grow(body, i + 1 - start);
                    assert(digits_value(body) > 9223372036854775808);
                    assert(body.len() > 0);
                }
            }
            return None;
        }
        i = i + 1;
    }
    assert(body.take(n - start) =~= body);
    if neg {
        Some((0 - acc) as i64)
    } else if acc <= 9223372036854775807 {
        Some(acc as i64)
    } else {
        None
    }
}

/// The `Retry-After` seconds of an upstream reply, read from the header text (absent when
/// the header is missing or not valid visible ASCII).
pub fn retry_after_secs(header: Option<&str>) -> (r: Option<i64>)
    ensures
        header is None ==> r is None,
        header matches Some(h) ==> r == spec_parse_i64(h@),
{
    match header {
        None => None,
        Some(h) => parse_i64(h),
    }
}

/// What the proxy does with an upstream answer.
pub enum ProxyDecision {
    /// Report the key `ok` and forward this answer.
    Forward,
    /// Report the limit (`429` or `402`) for the key, lease another and try again.
    Retry { report: &'static str },
    /// Report the limit for the key and forward this (limited) answer: attempts are used up.
    ForwardLimited { report: &'static str },
}

/// The outcome reported for an upstream limit status: `402` for payment required, else `429`.
pub open spec fn limit_report(code: u16) -> Seq<char> {
    if code == 402 {
        "402"@
    } else {
        "429"@
    }
}

/// Decides on the upstream answer `code` of attempt number `attempt` (counted from 1):
/// 429 and 402 rotate the key while attempts remain, any other answer is forwarded.
pub fn proxy_decision(attempt: usize, code: u16) -> (r: ProxyDecision)
    requires
        1 <= attempt <= MAX_RETRY,
    ensures
        code != 429 && code != 402 ==> r is Forward,
        (code == 429 || code == 402) && attempt < MAX_RETRY ==> (r matches ProxyDecision::Retry { report } && report@ == limit_report(code)),
        (code == 429 || code == 402) && attempt == MAX_RETRY ==> (r matches ProxyDecision::ForwardLimited { report } && report@ == limit_report(code)),
{
    if code == 429 || code == 402 {
        let report = if code == 402 {
            "402"
        } else {
            "429"
        };
        if attempt < MAX_RETRY {
            ProxyDecision::Retry { report }
        } else {
            ProxyDecision::ForwardLimited { report }
        }
    } else {
        ProxyDecision::Forward
    }
}

} // verus!
