//! IP addresses and URLs as plain values: the address classes that the
//! marketplace host policy blocks, and the parts of a parsed URL that the
//! policy reads.
use vstd::prelude::*;

verus! {

/// An IP address, as `std::net::IpAddr` holds it.
#[derive(Clone, Copy, Debug, PartialEq, Eq)]
pub enum IpAddress {
    V4(u8, u8, u8, u8),
    V6(u16, u16, u16, u16, u16, u16, u16, u16),
}

// Address classes, as documented on `Ipv4Addr` / `Ipv6Addr`.

pub open spec fn v4_is_private(a: u8, b: u8) -> bool {
    a == 10 || (a == 172 && 16 <= b <= 31) || (a == 192 && b == 168)
}

pub open spec fn v4_is_loopback(a: u8) -> bool {
    a == 127
}

pub open spec fn v4_is_link_local(a: u8, b: u8) -> bool {
    a == 169 && b == 254
}

pub open spec fn v4_is_unspecified(a: u8, b: u8, c: u8, d: u8) -> bool {
    a == 0 && b == 0 && c == 0 && d == 0
}

pub open spec fn v4_is_multicast(a: u8) -> bool {
    224 <= a <= 239
}

pub open spec fn v4_is_broadcast(a: u8, b: u8, c: u8, d: u8) -> bool {
    a == 255 && b == 255 && c == 255 && d == 255
}

pub open spec fn v6_is_unspecified(ip: IpAddress) -> bool {
    ip matches IpAddress::V6(s0, s1, s2, s3, s4, s5, s6, s7) && s0 == 0 && s1 == 0 && s2 == 0
        && s3 == 0 && s4 == 0 && s5 == 0 && s6 == 0 && s7 == 0
}

pub open spec fn v6_is_loopback(ip: IpAddress) -> bool {
    ip matches IpAddress::V6(s0, s1, s2, s3, s4, s5, s6, s7) && s0 == 0 && s1 == 0 && s2 == 0
        && s3 == 0 && s4 == 0 && s5 == 0 && s6 == 0 && s7 == 1
}

/// `fe80::/10`.
pub open spec fn v6_is_unicast_link_local(s0: u16) -> bool {
    0xfe80 <= s0 <= 0xfebf
}

/// `fc00::/7`.
pub open spec fn v6_is_unique_local(s0: u16) -> bool {
    0xfc00 <= s0 <= 0xfdff
}

/// `ff00::/8`.
pub open spec fn v6_is_multicast(s0: u16) -> bool {
    s0 >= 0xff00
}

/// Private, loopback and link-local ranges.
pub open spec fn is_private_range(ip: IpAddress) -> bool {
    match ip {
        IpAddress::V4(a, b, _, _) => v4_is_private(a, b) || v4_is_loopback(a) || v4_is_link_local(
            a,
            b,
        ),
        IpAddress::V6(s0, _, _, _, _, _, _, _) => v6_is_loopback(ip) || v6_is_unicast_link_local(
            s0,
        ) || v6_is_unique_local(s0),
    }
}

/// Addresses that are never acceptable: unspecified, multicast, broadcast.
pub open spec fn is_never_routable(ip: IpAddress) -> bool {
    match ip {
        IpAddress::V4(a, b, c, d) => v4_is_unspecified(a, b, c, d) || v4_is_multicast(a)
            || v4_is_broadcast(a, b, c, d),
        IpAddress::V6(s0, _, _, _, _, _, _, _) => v6_is_unspecified(ip) || v6_is_multicast(s0),
    }
}

// ---------------------------------------------------------------------------
// IPv4 text, as `Ipv4Addr`'s `FromStr` reads it
// ---------------------------------------------------------------------------

/// The pieces of `s` between occurrences of `sep` (`str::split`).
pub open spec fn split_on(s: Seq<char>, sep: char) -> Seq<Seq<char>>
    decreases s.len(),
{
    if s.len() == 0 {
        seq![Seq::<char>::empty()]
    } else {
        let rest = split_on(s.drop_last(), sep);
        if s.last() == sep {
            rest.push(Seq::<char>::empty())
        } else {
            rest.update(rest.len() - 1, rest.last().push(s.last()))
        }
    }
}

pub open spec fn digits_value(p: Seq<char>) -> nat
    decreases p.len(),
{
    if p.len() == 0 {
        0
    } else {
        digits_value(p.drop_last()) * 10 + ((p.last() as u32) - ('0' as u32)) as nat
    }
}

/// One dotted-quad component: one to three decimal digits, no leading zero,
/// at most 255.
pub open spec fn is_octet_text(p: Seq<char>) -> bool {
    &&& 1 <= p.len() <= 3
    &&& forall|i: int| 0 <= i < p.len() ==> crate::text::is_ascii_digit(#[trigger] p[i])
    &&& (p.len() == 1 || p[0] != '0')
    &&& digits_value(p) <= 255
}

/// The IPv4 address that `s` spells in dotted-quad form, if any.
pub open spec fn ipv4_from_text(s: Seq<char>) -> Option<IpAddress> {
    let parts = split_on(s, '.');
    if parts.len() == 4 && is_octet_text(parts[0]) && is_octet_text(parts[1]) && is_octet_text(
        parts[2],
    ) && is_octet_text(parts[3]) {
        Some(
            IpAddress::V4(
                digits_value(parts[0]) as u8,
                digits_value(parts[1]) as u8,
                digits_value(parts[2]) as u8,
                digits_value(parts[3]) as u8,
            ),
        )
    } else {
        None
    }
}

pub proof fn lemma_split_on_nonempty(s: Seq<char>, sep: char)
    ensures
        split_on(s, sep).len() >= 1,
    decreases s.len(),
{
    if s.len() > 0 {
        lemma_split_on_nonempty(s.drop_last(), sep);
    }
}

/// Splits `s` at every `sep`.
pub fn split_chars(s: &Vec<char>, sep: char) -> (parts: Vec<Vec<char>>)
    ensures
        parts@.len() == split_on(s@, sep).len(),
        forall|i: int| 0 <= i < parts@.len() ==> #[trigger] parts@[i]@ == split_on(s@, sep)[i],
{
    let mut parts: Vec<Vec<char>> = Vec::new();
    let mut cur: Vec<char> = Vec::new();
    for i in 0..s.len()
        invariant
            parts@.len() + 1 == split_on(s@.take(i as int), sep).len(),
            forall|j: int| 0 <= j < parts@.len() ==> #[trigger] parts@[j]@ == split_on(
                s@.take(i as int),
                sep,
            )[j],
            cur@ == split_on(s@.take(i as int), sep).last(),
    {
        let ghost prev = s@.take(i as int);
        assert(s@.take(i + 1).drop_last() =~= prev);
        proof {
            lemma_split_on_nonempty(prev, sep);
        }
        let c = s[i];
        if c == sep {
            parts.push(cur);
            cur = Vec::new();
            assert(cur@ =~= Seq::<char>::empty());
        } else {
            cur.push(c);
        }
    }
    proof {
        assert(s@.take(s.len() as int) =~= s@);
        lemma_split_on_nonempty(s@, sep);
    }
    let ghost before = parts@;
    parts.push(cur);
    assert forall|i: int| 0 <= i < parts@.len() implies #[trigger] parts@[i]@ == split_on(
        s@,
        sep,
    )[i] by {
        if i < before.len() {
            assert(parts@[i] == before[i]);
        }
    }
    parts
}

fn octet_value(p: &Vec<char>) -> (r: Option<u8>)
    ensures
        r is Some <==> is_octet_text(p@),
        r matches Some(v) ==> v == digits_value(p@),
{
    if p.len() < 1 || p.len() > 3 {
        return None;
    }
    if p.len() > 1 && p[0] == '0' {
        return None;
    }
    let mut v: u32 = 0;
    for i in 0..p.len()
        invariant
            1 <= p.len() <= 3,
            forall|j: int| 0 <= j < i ==> crate::text::is_ascii_digit(#[trigger] p@[j]),
            v == digits_value(p@.take(i as int)),
            (i == 0 && v == 0) || (i == 1 && v < 10) || (i == 2 && v < 100) || (i == 3 && v
                < 1000),
    {
        let c = p[i];
        if !('0' <= c && c <= '9') {
            return None;
        }
        assert(p@.take(i + 1).drop_last() =~= p@.take(i as int));
        assert(p@.take(i + 1).last() == c);
        v = v * 10 + (c as u32 - 48);
    }
    assert(p@.take(p.len() as int) =~= p@);
    if v > 255 {
        return None;
    }
    Some(v as u8)
}

/// Reads `s` as a dotted-quad IPv4 address.
pub fn parse_ipv4(s: &str) -> (r: Option<IpAddress>)
    ensures
        r == ipv4_from_text(s@),
{
    let v = crate::text::chars_of(s);
    let parts = split_chars(&v, '.');
    if parts.len() != 4 {
        return None;
    }
    let a = match octet_value(&parts[0]) {
        Some(x) => x,
        None => return None,
    };
    let b = match octet_value(&parts[1]) {
        Some(x) => x,
        None => return None,
    };
    let c = match octet_value(&parts[2]) {
        Some(x) => x,
        None => return None,
    };
    let d = match octet_value(&parts[3]) {
        Some(x) => x,
        None => return None,
    };
    Some(IpAddress::V4(a, b, c, d))
}

pub fn is_private_range_ip(ip: &IpAddress) -> (r: bool)
    ensures
        r == is_private_range(*ip),
{
    match *ip {
        IpAddress::V4(a, b, _, _) => (a == 10 || (a == 172 && 16 <= b && b <= 31) || (a == 192
            && b == 168)) || a == 127 || (a == 169 && b == 254),
        IpAddress::V6(s0, s1, s2, s3, s4, s5, s6, s7) => (s0 == 0 && s1 == 0 && s2 == 0 && s3 == 0
            && s4 == 0 && s5 == 0 && s6 == 0 && s7 == 1) || (0xfe80 <= s0 && s0 <= 0xfebf) || (
        0xfc00 <= s0 && s0 <= 0xfdff),
    }
}

pub fn is_never_routable_ip(ip: &IpAddress) -> (r: bool)
    ensures
        r == is_never_routable(*ip),
{
    match *ip {
        IpAddress::V4(a, b, c, d) => (a == 0 && b == 0 && c == 0 && d == 0) || (224 <= a && a
            <= 239) || (a == 255 && b == 255 && c == 255 && d == 255),
        IpAddress::V6(s0, s1, s2, s3, s4, s5, s6, s7) => (s0 == 0 && s1 == 0 && s2 == 0 && s3 == 0
            && s4 == 0 && s5 == 0 && s6 == 0 && s7 == 0) || s0 >= 0xff00,
    }
}

// ---------------------------------------------------------------------------
// URLs
// ---------------------------------------------------------------------------

/// The parts of a parsed URL that the policy reads.
pub struct UrlModel {
    pub href: Seq<char>,
    pub scheme: Seq<char>,
    pub host: Option<Seq<char>>,
    pub port: Option<u16>,
}

/// A parsed URL: its serialization, scheme, host and explicit port.
#[derive(Clone, Debug)]
pub struct ParsedUrl {
    pub href: String,
    pub scheme: String,
    pub host: Option<String>,
    pub port: Option<u16>,
}

pub open spec fn opt_text(o: Option<String>) -> Option<Seq<char>> {
    match o {
        Some(s) => Some(s@),
        None => None,
    }
}

impl View for ParsedUrl {
    type V = UrlModel;

    open spec fn view(&self) -> UrlModel {
        UrlModel {
            href: self.href@,
            scheme: self.scheme@,
            host: opt_text(self.host),
            port: self.port,
        }
    }
}

pub open spec fn opt_url_view(o: Option<ParsedUrl>) -> Option<UrlModel> {
    match o {
        Some(u) => Some(u@),
        None => None,
    }
}

/// The name for what the `url` crate makes of a text (`Url::parse`).
pub uninterp spec fn url_parse_outcome(input: Seq<char>) -> Option<UrlModel>;

/// The name for what the `url` crate makes of `input` resolved against the
/// URL serialized as `base` (`Url::join`).
pub uninterp spec fn url_join_outcome(base: Seq<char>, input: Seq<char>) -> Option<UrlModel>;

/// Parses a URL.
///
/// Trusted: calls `reqwest::Url::parse` (the `url` crate's parser) and reads
/// back `as_str`, `scheme`, `host_str` and `port`; the contract only names the
/// outcome.
#[verifier::external_body]
pub(crate) fn parse_url(input: &str) -> (r: Option<ParsedUrl>)
    ensures
        opt_url_view(r) == url_parse_outcome(input@),
{
    reqwest::Url::parse(input).ok().map(|u| ParsedUrl {
        href: u.as_str().to_string(),
        scheme: u.scheme().to_string(),
        host: u.host_str().map(|h| h.to_string()),
        port: u.port(),
    })
}

/// Resolves `input` against `base`, as a browser follows a `Location` header.
///
/// Trusted: calls `reqwest::Url::join` on `base`'s serialization parsed back
/// by `Url::parse`; the contract only names the outcome.
#[verifier::external_body]
pub(crate) fn join_url(base: &ParsedUrl, input: &str) -> (r: Option<ParsedUrl>)
    ensures
        opt_url_view(r) == url_join_outcome(base.href@, input@),
{
    let b = reqwest::Url::parse(&base.href).ok()?;
    b.join(input).ok().map(|u| ParsedUrl {
        href: u.as_str().to_string(),
        scheme: u.scheme().to_string(),
        host: u.host_str().map(|h| h.to_string()),
        port: u.port(),
    })
}

/// The `url` crate's table of default ports (`port_or_known_default`).
pub open spec fn known_default_port(scheme: Seq<char>) -> Option<u16> {
    if scheme == "http"@ || scheme == "ws"@ {
        Some(80u16)
    } else if scheme == "https"@ || scheme == "wss"@ {
        Some(443u16)
    } else if scheme == "ftp"@ {
        Some(21u16)
    } else {
        None
    }
}

pub open spec fn port_or_known_default(u: UrlModel) -> Option<u16> {
    match u.port {
        Some(p) => Some(p),
        None => known_default_port(u.scheme),
    }
}

fn str_eq(a: &str, b: &str) -> (r: bool)
    ensures
        r == (a@ == b@),
{
    let va = crate::text::chars_of(a);
    let vb = crate::text::chars_of(b);
    crate::text::chars_equal(&va, &vb)
}

impl ParsedUrl {
    /// The explicit port, or the scheme's default one.
    pub fn port_or_known_default(&self) -> (r: Option<u16>)
        ensures
            r == port_or_known_default(self@),
    {
        match self.port {
            Some(p) => Some(p),
            None => {
                let s = self.scheme.as_str();
                if str_eq(s, "http") || str_eq(s, "ws") {
                    Some(80)
                } else if str_eq(s, "https") || str_eq(s, "wss") {
                    Some(443)
                } else if str_eq(s, "ftp") {
                    Some(21)
                } else {
                    None
                }
            },
        }
    }
}

} // verus!
