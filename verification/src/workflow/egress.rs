//! How a lane reaches its provider: directly, or masked behind an HTTP
//! CONNECT or SOCKS5 proxy. A masked lane never falls back to a direct
//! connection.

use vstd::prelude::*;

verus! {

/// What `http::Uri`'s `FromStr` makes of `s`: the URI's scheme (none when
/// it has none), or the text of its `InvalidUri` error.
pub uninterp spec fn spec_uri_scheme(s: Seq<char>) -> Result<Option<Seq<char>>, Seq<char>>;

/// `str::parse::<http::Uri>`, read back with `Uri::scheme_str`, its error
/// shown as text. Claimed: the outcome is named by `spec_uri_scheme`.
#[verifier::external_body]
fn uri_scheme(s: &str) -> (r: Result<Option<String>, String>)
    ensures
        match r {
            Ok(Some(x)) => spec_uri_scheme(s@) == Ok::<Option<Seq<char>>, Seq<char>>(Some(x@)),
            Ok(None) => spec_uri_scheme(s@) == Ok::<Option<Seq<char>>, Seq<char>>(None),
            Err(m) => spec_uri_scheme(s@) == Err::<Option<Seq<char>>, Seq<char>>(m@),
        },
{
    match s.parse::<http::Uri>() {
        Ok(u) => Ok(u.scheme_str().map(|x| x.to_string())),
        Err(e) => Err(e.to_string()),
    }
}

/// `c` with ASCII upper-case letters made lower-case.
pub open spec fn ascii_lower_char(c: char) -> char {
    if 'A' <= c && c <= 'Z' {
        ((c as u32) + 32) as char
    } else {
        c
    }
}

/// `str::to_ascii_lowercase`.
pub open spec fn ascii_lower(s: Seq<char>) -> Seq<char> {
    s.map_values(|c: char| ascii_lower_char(c))
}

/// `str::to_ascii_lowercase`: ASCII letters lowered, everything else kept.
pub fn to_ascii_lower(s: &str) -> (r: String)
    ensures
        r@ == ascii_lower(s@),
{
    let cs = crate::text::str_chars(s);
    let mut out = String::new();
    let mut i: usize = 0;
    while i < cs.len()
        invariant
            i <= cs@.len(),
            cs@ == s@,
            out@ == ascii_lower(s@.subrange(0, i as int)),
        decreases cs@.len() - i,
    {
        let c = cs[i];
        let l = if 'A' <= c && c <= 'Z' {
            let v: u32 = (c as u32) + 32;
            proof {
                assert(v == (c as u32) + 32);
            }
            char_from_ascii_letter(v)
        } else {
            c
        };
        crate::text::push_char(&mut out, l);
        assert(s@.subrange(0, i + 1) =~= s@.subrange(0, i as int).push(c));
        assert(ascii_lower(s@.subrange(0, i + 1)) =~= ascii_lower(s@.subrange(0, i as int)).push(ascii_lower_char(c)));
        i = i + 1;
    }
    assert(s@.subrange(0, s@.len() as int) =~= s@);
    out
}

/// The character of a lower-case ASCII letter's code.
fn char_from_ascii_letter(v: u32) -> (c: char)
    requires
        97 <= v <= 122,
    ensures
        c == v as char,
{
    let b: u8 = v as u8;
    b as char
}

/// The position of the first `://` in `s`, if any.
pub open spec fn scheme_end(s: Seq<char>) -> Option<int> {
    if exists|i: int| 0 <= i && i + 3 <= s.len() && #[trigger] s.subrange(i, i + 3) == "://"@ {
        Some(choose|i: int| 0 <= i && i + 3 <= s.len() && #[trigger] s.subrange(i, i + 3) == "://"@
            && forall|j: int| 0 <= j < i ==> #[trigger] s.subrange(j, j + 3) != "://"@)
    } else {
        None
    }
}

/// What precedes the first `://` of a proxy URL, lower-cased; empty when
/// there is none (`split_once("://")`).
pub open spec fn url_scheme(s: Seq<char>) -> Seq<char> {
    match scheme_end(s) {
        Some(i) => ascii_lower(s.subrange(0, i)),
        None => Seq::empty(),
    }
}

/// The kind of proxy that masks a lane.
#[derive(Debug, Clone, Copy, PartialEq, Eq, Structural)]
pub enum ProxyKind {
    /// HTTP CONNECT tunnelling.
    HttpConnect,
    /// SOCKS5.
    Socks5,
}

/// How a lane reaches its provider.
#[derive(Debug, Clone)]
pub enum LaneEgress {
    /// A direct connection.
    Direct,
    /// Through a proxy at this URL.
    Masked { kind: ProxyKind, proxy_url: String },
}

/// The scheme of a parsed URI, lower-cased; empty when it has none.
pub open spec fn lowered_scheme(s: Option<Seq<char>>) -> Seq<char> {
    match s {
        Some(x) => ascii_lower(x),
        None => Seq::empty(),
    }
}

/// `r` is the outcome of checking `url` as the URL of a proxy of `kind`:
/// it must parse as a URI whose scheme is `http` or `https` for HTTP
/// CONNECT, `socks5` for SOCKS5 (in any case).
pub open spec fn proxy_checked(kind: ProxyKind, url: Seq<char>, r: Result<LaneEgress, String>) -> bool {
    match spec_uri_scheme(url) {
        Err(e) => r matches Err(m) && m@ == "invalid proxy_url: "@ + e,
        Ok(sch) => {
            let scheme = lowered_scheme(sch);
            match kind {
                ProxyKind::HttpConnect => if scheme == "http"@ || scheme == "https"@ {
                    r matches Ok(LaneEgress::Masked { kind: k, proxy_url }) && k == kind && proxy_url@ == url
                } else {
                    r matches Err(m) && m@ == "invalid proxy_url: scheme '"@ + scheme
                        + "' is not supported for HTTP CONNECT (use http:// or https://)"@
                },
                ProxyKind::Socks5 => if scheme == "socks5"@ {
                    r matches Ok(LaneEgress::Masked { kind: k, proxy_url }) && k == kind && proxy_url@ == url
                } else {
                    r matches Err(m) && m@ == "invalid proxy_url: scheme '"@ + scheme + "' is not SOCKS5 (use socks5://)"@
                },
            }
        },
    }
}

/// `r` is the egress of a lane configured with `egress` and `proxy_url`.
pub open spec fn egress_planned(egress: Seq<char>, proxy_url: Option<Seq<char>>, r: Result<LaneEgress, String>) -> bool {
    if egress == "direct"@ {
        r matches Ok(LaneEgress::Direct)
    } else if egress == "masked"@ {
        match proxy_url {
            None => r matches Err(m) && m@ == "lane egress=masked requires a proxy_url"@,
            Some(url) => {
                let scheme = url_scheme(url);
                if scheme == "socks5"@ {
                    proxy_checked(ProxyKind::Socks5, url, r)
                } else if scheme == "http"@ || scheme == "https"@ {
                    proxy_checked(ProxyKind::HttpConnect, url, r)
                } else {
                    r matches Err(m) && m@ == "lane egress=masked: unsupported proxy scheme '"@ + scheme + "' in '"@ + url
                        + "' (expected socks5://, http://, or https://)"@
                }
            },
        }
    } else {
        r matches Err(m) && m@ == "unknown egress '"@ + egress + "' (expected 'direct' or 'masked')"@
    }
}

/// The position of the first `://` in `s`.
fn find_scheme_end(s: &[char]) -> (r: Option<usize>)
    ensures
        match r {
            Some(i) => scheme_end(s@) == Some(i as int) && i + 3 <= s@.len(),
            None => scheme_end(s@) is None,
        },
{
    proof {
        reveal_strlit("://");
    }
    let ghost sep: Seq<char> = seq![':', '/', '/'];
    assert(sep =~= "://"@);
    if s.len() < 3 {
        assert forall|j: int| 0 <= j && j + 3 <= s@.len() implies #[trigger] s@.subrange(j, j + 3) != "://"@ by {}
        return None;
    }
    let mut i: usize = 0;
    while i <= s.len() - 3
        invariant
            s@.len() >= 3,
            i <= s@.len() - 2,
            sep == "://"@,
            sep == seq![':', '/', '/'],
            forall|j: int| 0 <= j < i ==> #[trigger] s@.subrange(j, j + 3) != "://"@,
        decreases s@.len() - i,
    {
        if s[i] == ':' && s[i + 1] == '/' && s[i + 2] == '/' {
            assert(s@.subrange(i as int, i + 3) =~= sep);
            let ghost k = choose|k: int| 0 <= k && k + 3 <= s@.len() && #[trigger] s@.subrange(k, k + 3) == "://"@
                && forall|j: int| 0 <= j < k ==> #[trigger] s@.subrange(j, j + 3) != "://"@;
            assert(k == i) by {
                if k < i {
                    assert(s@.subrange(k, k + 3) != "://"@);
                } else if k > i {
                    assert(s@.subrange(i as int, i + 3) != "://"@);
                }
            }
            return Some(i);
        }
        assert(s@.subrange(i as int, i + 3) != "://"@) by {
            if s@.subrange(i as int, i + 3) == "://"@ {
                assert(s@.subrange(i as int, i + 3)[0] == s@[i as int]);
                assert(s@.subrange(i as int, i + 3)[1] == s@[i + 1]);
                assert(s@.subrange(i as int, i + 3)[2] == s@[i + 2]);
                assert(sep[0] == ':' && sep[1] == '/' && sep[2] == '/');
            }
        }
        i = i + 1;
    }
    assert forall|j: int| 0 <= j && j + 3 <= s@.len() implies #[trigger] s@.subrange(j, j + 3) != "://"@ by {}
    None
}

/// What precedes the first `://` of a proxy URL, lower-cased.
fn scheme_of(url: &str) -> (r: String)
    ensures
        r@ == url_scheme(url@),
{
    let cs = crate::text::str_chars(url);
    let scheme = match find_scheme_end(cs.as_slice()) {
        Some(i) => {
            let mut head = String::new();
            let mut k: usize = 0;
            while k < i
                invariant
                    k <= i,
                    i + 3 <= cs@.len(),
                    head@ == cs@.subrange(0, k as int),
                decreases i - k,
            {
                crate::text::push_char(&mut head, cs[k]);
                assert(cs@.subrange(0, k + 1) =~= cs@.subrange(0, k as int).push(cs@[k as int]));
                k = k + 1;
            }
            to_ascii_lower(head.as_str())
        },
        None => String::new(),
    };
    proof {
        reveal_strlit("");
    }
    scheme
}

impl LaneEgress {
    /// A direct connection.
    pub fn direct() -> (e: Self)
        ensures
            e is Direct,
    {
        LaneEgress::Direct
    }

    /// Check a proxy URL for `kind`.
    fn proxy(kind: ProxyKind, proxy_url: &str) -> (r: Result<Self, String>)
        ensures
            proxy_checked(kind, proxy_url@, r),
    {
        let scheme = match uri_scheme(proxy_url) {
            Ok(Some(s)) => to_ascii_lower(s.as_str()),
            Ok(None) => String::new(),
            Err(e) => {
                let mut m = String::from_str("invalid proxy_url: ");
                m.append(e.as_str());
                return Err(m);
            },
        };
        proof {
            reveal_strlit("");
        }
        let s = scheme.as_str();
        match kind {
            ProxyKind::HttpConnect => {
                if crate::json::str_eq(s, "http") || crate::json::str_eq(s, "https") {
                    Ok(LaneEgress::Masked { kind, proxy_url: String::from_str(proxy_url) })
                } else {
                    let mut m = String::from_str("invalid proxy_url: scheme '");
                    m.append(s);
                    m.append("' is not supported for HTTP CONNECT (use http:// or https://)");
                    Err(m)
                }
            },
            ProxyKind::Socks5 => {
                if crate::json::str_eq(s, "socks5") {
                    Ok(LaneEgress::Masked { kind, proxy_url: String::from_str(proxy_url) })
                } else {
                    let mut m = String::from_str("invalid proxy_url: scheme '");
                    m.append(s);
                    m.append("' is not SOCKS5 (use socks5://)");
                    Err(m)
                }
            },
        }
    }

    /// Egress through an HTTP CONNECT proxy: the URL must parse with an
    /// `http` or `https` scheme.
    pub fn http_proxy(proxy_url: &str) -> (r: Result<Self, String>)
        ensures
            proxy_checked(ProxyKind::HttpConnect, proxy_url@, r),
    {
        LaneEgress::proxy(ProxyKind::HttpConnect, proxy_url)
    }

    /// Egress through a SOCKS5 proxy: the URL must parse with the `socks5`
    /// scheme.
    pub fn socks5(proxy_url: &str) -> (r: Result<Self, String>)
        ensures
            proxy_checked(ProxyKind::Socks5, proxy_url@, r),
    {
        LaneEgress::proxy(ProxyKind::Socks5, proxy_url)
    }

    /// The egress of a lane: `direct`, or `masked` behind the proxy that
    /// the proxy URL's scheme names; anything else fails closed.
    pub fn from_lane(egress: &str, proxy_url: Option<&str>) -> (r: Result<Self, String>)
        ensures
            egress_planned(egress@, match proxy_url {
                Some(u) => Some(u@),
                None => None,
            }, r),
    {
        if crate::json::str_eq(egress, "direct") {
            return Ok(LaneEgress::Direct);
        }
        if !crate::json::str_eq(egress, "masked") {
            let mut m = String::from_str("unknown egress '");
            m.append(egress);
            m.append("' (expected 'direct' or 'masked')");
            return Err(m);
        }
        match proxy_url {
            None => Err(String::from_str("lane egress=masked requires a proxy_url")),
            Some(url) => {
                let scheme = scheme_of(url);
                proof {
                    reveal_strlit("");
                }
                let s = scheme.as_str();
                if crate::json::str_eq(s, "socks5") {
                    LaneEgress::socks5(url)
                } else if crate::json::str_eq(s, "http") || crate::json::str_eq(s, "https") {
                    LaneEgress::http_proxy(url)
                } else {
                    let mut m = String::from_str("lane egress=masked: unsupported proxy scheme '");
                    m.append(s);
                    m.append("' in '");
                    m.append(url);
                    m.append("' (expected socks5://, http://, or https://)");
                    Err(m)
                }
            },
        }
    }

    /// `direct` or `masked`.
    pub fn egress(&self) -> (s: &'static str)
        ensures
            s@ == match *self {
                LaneEgress::Direct => "direct"@,
                LaneEgress::Masked { .. } => "masked"@,
            },
    {
        match self {
            LaneEgress::Direct => "direct",
            LaneEgress::Masked { .. } => "masked",
        }
    }

    /// Every built lane client is available.
    pub fn available(&self) -> (b: bool)
        ensures
            b,
    {
        true
    }
}

/// A masked lane fails closed: whatever its proxy URL, its egress is never
/// a direct connection.
pub proof fn masked_never_direct(proxy_url: Option<Seq<char>>, r: Result<LaneEgress, String>)
    requires
        egress_planned("masked"@, proxy_url, r),
    ensures
        !(r matches Ok(LaneEgress::Direct)),
{
    reveal_strlit("masked");
    reveal_strlit("direct");
    assert("masked"@ != "direct"@) by {
        assert("masked"@[0] != "direct"@[0]);
    }
}

} // verus!
