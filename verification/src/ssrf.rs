//! Validation of provider base URLs against server-side request forgery:
//! only http(s) URLs whose host is not a private, reserved or local address
//! or name are accepted.
//!
//! The check is made on the URL text only; a domain that resolves to a
//! private address later is not caught here.

use vstd::prelude::*;
use crate::text::{str_eq, str_ends_with, has_suffix, cat, cat3, cat5};

verus! {

/// The parts of a parsed URL that the validation reads.
pub struct ParsedUrl {
    pub scheme: String,
    pub host: Option<UrlHost>,
}

/// The host of a parsed URL, with its textual form for messages.
pub enum UrlHost {
    Ipv4([u8; 4], String),
    Ipv6([u16; 8], String),
    Domain(String),
}

/// A parsed URL as plain values.
pub struct UrlModel {
    pub scheme: Seq<char>,
    pub host: Option<HostModel>,
}

/// A URL host as plain values: octets or segments with their text, or a
/// domain name.
pub enum HostModel {
    Ipv4(Seq<u8>, Seq<char>),
    Ipv6(Seq<u16>, Seq<char>),
    Domain(Seq<char>),
}

impl View for UrlHost {
    type V = HostModel;

    open spec fn view(&self) -> HostModel {
        match self {
            UrlHost::Ipv4(o, t) => HostModel::Ipv4(o@, t@),
            UrlHost::Ipv6(s, t) => HostModel::Ipv6(s@, t@),
            UrlHost::Domain(d) => HostModel::Domain(d@),
        }
    }
}

impl View for ParsedUrl {
    type V = UrlModel;

    open spec fn view(&self) -> UrlModel {
        UrlModel {
            scheme: self.scheme@,
            host: match self.host {
                Some(h) => Some(h@),
                None => None,
            },
        }
    }
}

/// What `url::Url::parse` makes of a text: its scheme and host, or the text
/// of its parse error.
pub uninterp spec fn url_parse(input: Seq<char>) -> Result<UrlModel, Seq<char>>;

/// Lower-cases a text as `str::to_lowercase` does.
pub uninterp spec fn lowercase(s: Seq<char>) -> Seq<char>;

/// Parses a URL with `url::Url::parse` and returns its scheme and host (an
/// IPv4 or IPv6 address with the text `Display` gives it, or a domain), or
/// the `Display` text of the parse error. The result is named
/// [`url_parse`] of the input; what the URL standard makes of a text is not
/// stated here.
#[verifier::external_body]
fn parse_url(input: &str) -> (r: Result<ParsedUrl, String>)
    ensures
        match (r, url_parse(input@)) {
            (Ok(p), Ok(m)) => p@ == m,
            (Err(e), Err(m)) => e@ == m,
            _ => false,
        },
{
    match url::Url::parse(input) {
        Ok(u) => Ok(ParsedUrl {
            scheme: u.scheme().to_string(),
            host: match u.host() {
                None => None,
                Some(url::Host::Ipv4(a)) => Some(UrlHost::Ipv4(a.octets(), a.to_string())),
                Some(url::Host::Ipv6(a)) => Some(UrlHost::Ipv6(a.segments(), a.to_string())),
                Some(url::Host::Domain(d)) => Some(UrlHost::Domain(d.to_string())),
            },
        }),
        Err(e) => Err(e.to_string()),
    }
}

/// Lower-cases a text with `str::to_lowercase`; the result is named
/// [`lowercase`] of the input (the Unicode case mapping is not stated here).
#[verifier::external_body]
pub fn str_to_lowercase(s: &str) -> (r: String)
    ensures
        r@ == lowercase(s@),
{
    s.to_lowercase()
}

/// An IPv4 address that is loopback, private, link-local, broadcast,
/// documentation, "this network", shared (100.64/10), benchmarking
/// (198.18/16), IETF protocol (192.0.0/24) or multicast/reserved (224/3).
pub open spec fn v4_reserved(o: Seq<u8>) -> bool {
    let a = o[0];
    let b = o[1];
    let c = o[2];
    let d = o[3];
    a == 127 || a == 10 || (a == 172 && 16 <= b <= 31) || (a == 192 && b == 168) || (a == 169
        && b == 254) || (a == 255 && b == 255 && c == 255 && d == 255) || (a == 192 && b == 0 && c
        == 2) || (a == 198 && b == 51 && c == 100) || (a == 203 && b == 0 && c == 113) || a == 0 || (a
        == 100 && 64 <= b <= 127) || (a == 198 && b == 18) || (a == 192 && b == 0 && c == 0) || a
        >= 224
}

/// An IPv6 address that is loopback, unspecified, link-local (fe80::/16 in
/// its first segment), unique-local (fc00::/10), or an IPv4-mapped address
/// whose IPv4 form is reserved.
pub open spec fn v6_reserved(s: Seq<u16>) -> bool {
    let zero6 = s[0] == 0 && s[1] == 0 && s[2] == 0 && s[3] == 0 && s[4] == 0;
    (zero6 && s[5] == 0 && s[6] == 0 && s[7] == 1) || (zero6 && s[5] == 0 && s[6] == 0 && s[7]
        == 0) || s[0] == 0xfe80 || (0xfc00 <= s[0] <= 0xfc3f) || (zero6 && s[5] == 0xffff
        && v4_reserved(
        seq![(s[6] / 256) as u8, (s[6] % 256) as u8, (s[7] / 256) as u8, (s[7] % 256) as u8],
    ))
}

/// Host names that always denote the local machine or a private network.
pub open spec fn reserved_name(n: Seq<char>) -> bool {
    n == "localhost"@ || n == "localhost.localdomain"@ || n == "ip6-localhost"@ || n
        == "ip6-loopback"@ || has_suffix(n, ".local"@) || has_suffix(n, ".internal"@) || has_suffix(
        n,
        ".localhost"@,
    )
}

/// Whether an IPv4 address is private or reserved (see [`v4_reserved`]).
pub fn is_private_or_reserved_v4(o: [u8; 4]) -> (r: bool)
    ensures
        r == v4_reserved(o@),
{
    let a = o[0];
    let b = o[1];
    let c = o[2];
    let d = o[3];
    a == 127 || a == 10 || (a == 172 && 16 <= b && b <= 31) || (a == 192 && b == 168) || (a == 169
        && b == 254) || (a == 255 && b == 255 && c == 255 && d == 255) || (a == 192 && b == 0 && c
        == 2) || (a == 198 && b == 51 && c == 100) || (a == 203 && b == 0 && c == 113) || a == 0 || (a
        == 100 && 64 <= b && b <= 127) || (a == 198 && b == 18) || (a == 192 && b == 0 && c == 0)
        || a >= 224
}

/// Whether an IPv6 address is private or reserved (see [`v6_reserved`]).
pub fn is_private_or_reserved_v6(s: [u16; 8]) -> (r: bool)
    ensures
        r == v6_reserved(s@),
{
    let zero6 = s[0] == 0 && s[1] == 0 && s[2] == 0 && s[3] == 0 && s[4] == 0;
    if zero6 && s[5] == 0 && s[6] == 0 && (s[7] == 1 || s[7] == 0) {
        return true;
    }
    if s[0] == 0xfe80 || (0xfc00 <= s[0] && s[0] <= 0xfc3f) {
        return true;
    }
    if zero6 && s[5] == 0xffff {
        let v4: [u8; 4] = [(s[6] / 256) as u8, (s[6] % 256) as u8, (s[7] / 256) as u8, (s[7] % 256) as u8];
        assert(v4@ =~= seq![(s@[6] / 256) as u8, (s@[6] % 256) as u8, (s@[7] / 256) as u8, (s@[7] % 256) as u8]);
        return is_private_or_reserved_v4(v4);
    }
    false
}

/// Whether a lower-cased host name is reserved (see [`reserved_name`]).
pub fn is_reserved_hostname(n: &str) -> (r: bool)
    ensures
        r == reserved_name(n@),
{
    str_eq(n, "localhost") || str_eq(n, "localhost.localdomain") || str_eq(n, "ip6-localhost")
        || str_eq(n, "ip6-loopback") || str_ends_with(n, ".local") || str_ends_with(n, ".internal")
        || str_ends_with(n, ".localhost")
}

/// Why a base URL is refused, or `None` when it is accepted.
pub open spec fn base_url_error(input: Seq<char>) -> Option<Seq<char>> {
    match url_parse(input) {
        Err(e) => Some("Invalid URL '"@ + input + "': "@ + e),
        Ok(u) => if u.scheme != "http"@ && u.scheme != "https"@ {
            Some("base_url must use http or https scheme, got '"@ + u.scheme + "'"@)
        } else {
            match u.host {
                None => Some("base_url '"@ + input + "' has no host"@),
                Some(HostModel::Ipv4(o, t)) => if v4_reserved(o) {
                    Some(
                        "base_url '"@ + input + "' resolves to a private/reserved IPv4 address ("@ + t
                            + ")"@,
                    )
                } else {
                    None
                },
                Some(HostModel::Ipv6(sg, t)) => if v6_reserved(sg) {
                    Some(
                        "base_url '"@ + input + "' resolves to a private/reserved IPv6 address ("@ + t
                            + ")"@,
                    )
                } else {
                    None
                },
                Some(HostModel::Domain(d)) => if reserved_name(lowercase(d)) {
                    Some("base_url '"@ + input + "' uses a reserved hostname '"@ + d + "'"@)
                } else {
                    None
                },
            }
        },
    }
}

/// Validates that a base URL is safe for upstream requests: it must parse,
/// use http or https, and name a host that is not a private or reserved
/// address or a local host name. The error says which rule failed.
pub fn validate_base_url(base_url: &str) -> (r: Result<(), String>)
    ensures
        r is Ok <==> base_url_error(base_url@) is None,
        r matches Err(m) ==> base_url_error(base_url@) == Some(m@),
{
    let parsed = match parse_url(base_url) {
        Ok(p) => p,
        Err(e) => {
            let head = cat3("Invalid URL '", base_url, "': ");
            return Err(cat(head.as_str(), e.as_str()));
        },
    };
    if !str_eq(parsed.scheme.as_str(), "http") && !str_eq(parsed.scheme.as_str(), "https") {
        return Err(cat3("base_url must use http or https scheme, got '", parsed.scheme.as_str(), "'"));
    }
    match &parsed.host {
        None => Err(cat3("base_url '", base_url, "' has no host")),
        Some(UrlHost::Ipv4(o, t)) => {
            if is_private_or_reserved_v4(*o) {
                Err(cat5("base_url '", base_url, "' resolves to a private/reserved IPv4 address (", t.as_str(), ")"))
            } else {
                Ok(())
            }
        },
        Some(UrlHost::Ipv6(sg, t)) => {
            if is_private_or_reserved_v6(*sg) {
                Err(cat5("base_url '", base_url, "' resolves to a private/reserved IPv6 address (", t.as_str(), ")"))
            } else {
                Ok(())
            }
        },
        Some(UrlHost::Domain(d)) => {
            let lower = str_to_lowercase(d.as_str());
            if is_reserved_hostname(lower.as_str()) {
                Err(cat5("base_url '", base_url, "' uses a reserved hostname '", d.as_str(), "'"))
            } else {
                Ok(())
            }
        },
    }
}

} // verus!
