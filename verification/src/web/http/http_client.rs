//! Where a download goes: the host, port and path taken from a URL, and the
//! requests sent there.

use vstd::prelude::*;
use crate::text::{all_digits, chars_of, decimal, decimal_string, find_char, find_first, is_digit, lemma_decimal_digits, lemma_find_first, lemma_first_at, lemma_parse_decimal_roundtrip, parse_decimal, parse_unsigned};
use crate::web::http::http_requests::{HttpProtocolVersion, HttpRequest, rendered_request_text};

verus! {

/// `s` with every leading `"http://"` removed, as
/// `str::trim_start_matches("http://")` leaves it.
pub open spec fn strip_http_prefix(s: Seq<char>) -> Seq<char>
    decreases s.len(),
{
    if s.len() >= 7 && s.take(7) == "http://"@ {
        strip_http_prefix(s.skip(7))
    } else {
        s
    }
}

/// The port written after a `:`, or 80 where it does not parse as a `u16`.
pub open spec fn port_or_default(s: Seq<char>) -> u16 {
    match parse_unsigned(s, 65535) {
        Some(p) => p as u16,
        None => 80,
    }
}

/// Host, port and path of a URL: after the `http://` prefixes, the path
/// starts at the first `/` (`"/"` if there is none); before it, a `:`
/// separates the host from the port (80 if absent or unreadable).
pub open spec fn spec_split_url(url: Seq<char>) -> (Seq<char>, u16, Seq<char>) {
    let u = strip_http_prefix(url);
    let (host_port, path) = match find_first(u, '/') {
        Some(i) => (u.take(i), "/"@ + u.skip(i + 1)),
        None => (u, "/"@),
    };
    match find_first(host_port, ':') {
        Some(j) => (host_port.take(j), port_or_default(host_port.skip(j + 1)), path),
        None => (host_port, 80u16, path),
    }
}

/// A text that starts with a host holding no `:` (followed by `:` and a
/// number, or by a path) does not start with `http://`, so no prefix is
/// removed from it.
proof fn lemma_no_http_prefix(rest: Seq<char>, host: Seq<char>, next: char, after: char)
    requires
        rest.len() > host.len() + 1,
        rest.take(host.len() as int) == host,
        rest[host.len() as int] == next,
        rest[host.len() as int + 1] == after,
        !host.contains(':'),
        next == ':' ==> after != '/',
        next == '/' || next == ':',
    ensures
        strip_http_prefix(rest) == rest,
{
    reveal_strlit("http://");
    if rest.len() >= 7 && rest.take(7) == "http://"@ {
        let p = "http://"@;
        assert(p[4] == ':' && p[5] == '/' && p[0] == 'h' && p[1] == 't' && p[2] == 't' && p[3] == 'p');
        assert(rest[4] == ':') by {
            assert(rest.take(7)[4] == p[4]);
        }
        if host.len() > 4 {
            assert(host[4] == rest[4]);
        } else if host.len() == 4 {
            assert(rest.take(7)[5] == p[5]);
            assert(rest[4] == next);
        } else {
            let h = host.len() as int;
            assert(rest.take(7)[h] == p[h]);
        }
    }
}

/// A URL written as `http://host:port/path` is split back into its host,
/// port and path, whatever the host (without `/` or `:`), port and path
/// (starting with `/`).
pub proof fn lemma_split_url_roundtrip(host: Seq<char>, port: u16, path: Seq<char>)
    requires
        !host.contains('/'),
        !host.contains(':'),
        path.len() > 0,
        path[0] == '/',
    ensures
        spec_split_url("http://"@ + host + ":"@ + decimal(port as nat) + path) == (host, port, path),
{
    reveal_strlit("http://");
    reveal_strlit(":");
    reveal_strlit("/");
    let d = decimal(port as nat);
    lemma_decimal_digits(port as nat);
    let rest = host + ":"@ + d + path;
    let url = "http://"@ + rest;
    assert(url.take(7) =~= "http://"@);
    assert(url.skip(7) =~= rest);
    assert(rest.take(host.len() as int) =~= host);
    assert(rest[host.len() as int] == ':');
    assert(rest[host.len() as int + 1] == d[0]);
    assert(is_digit(d[0]));
    lemma_no_http_prefix(rest, host, ':', d[0]);
    assert(strip_http_prefix(url) == rest);
    let k: int = host.len() as int + 1 + d.len() as int;
    assert forall|j: int| 0 <= j < k implies rest[j] != '/' by {
        if j < host.len() {
            assert(rest[j] == host[j]);
        } else if j > host.len() {
            assert(rest[j] == d[j - host.len() - 1]);
            assert(is_digit(d[j - host.len() - 1]));
        }
    }
    assert(rest[k] == path[0]);
    lemma_first_at(rest, '/', k);
    let host_port = rest.take(k);
    assert(host_port =~= host + ":"@ + d);
    assert("/"@ + rest.skip(k + 1) =~= path);
    assert forall|j: int| 0 <= j < host.len() implies host_port[j] != ':' by {
        assert(host_port[j] == host[j]);
    }
    lemma_first_at(host_port, ':', host.len() as int);
    assert(host_port.take(host.len() as int) =~= host);
    assert(host_port.skip(host.len() as int + 1) =~= d);
    lemma_parse_decimal_roundtrip(port as nat, 65535);
    assert(port_or_default(d) == port);
    assert(url =~= "http://"@ + host + ":"@ + d + path);
    assert(spec_split_url(url) == (host, port, path));
}

/// A text that starts with a host holding no `:`, followed by `/`, does
/// not start with `http://`, so no prefix is removed from it.
proof fn lemma_no_http_prefix_before_slash(rest: Seq<char>, host: Seq<char>)
    requires
        rest.len() > host.len(),
        rest.take(host.len() as int) == host,
        rest[host.len() as int] == '/',
        !host.contains(':'),
    ensures
        strip_http_prefix(rest) == rest,
{
    reveal_strlit("http://");
    if rest.len() >= 7 && rest.take(7) == "http://"@ {
        let p = "http://"@;
        assert(p[4] == ':' && p[5] == '/' && p[0] == 'h' && p[1] == 't' && p[2] == 't' && p[3] == 'p');
        assert(rest[4] == ':') by {
            assert(rest.take(7)[4] == p[4]);
        }
        if host.len() > 4 {
            assert(host[4] == rest[4]);
        } else {
            let h = host.len() as int;
            assert(rest.take(7)[h] == p[h]);
        }
    }
}

/// A URL written as `http://host/rest`, with no port, is split into its
/// host, port 80, and the path `/rest`: a `/` followed by everything after
/// the host's `/`, whatever `rest` is (empty included).
pub proof fn lemma_split_url_default_port(host: Seq<char>, path: Seq<char>)
    requires
        !host.contains('/'),
        !host.contains(':'),
        path.len() > 0,
        path[0] == '/',
    ensures
        spec_split_url("http://"@ + host + path) == (host, 80u16, path),
{
    reveal_strlit("http://");
    reveal_strlit("/");
    let rest = host + path;
    let url = "http://"@ + rest;
    assert(url.take(7) =~= "http://"@);
    assert(url.skip(7) =~= rest);
    assert(rest.take(host.len() as int) =~= host);
    lemma_no_http_prefix_before_slash(rest, host);
    let k = host.len() as int;
    assert forall|j: int| 0 <= j < k implies rest[j] != '/' by {
        assert(rest[j] == host[j]);
    }
    lemma_first_at(rest, '/', k);
    assert(rest.take(k) =~= host);
    assert("/"@ + rest.skip(k + 1) =~= path);
    lemma_find_first(host, ':');
    assert(find_first(host, ':') is None) by {
        if let Some(i) = find_first(host, ':') {
            assert(host.contains(':'));
        }
    }
    assert(url =~= "http://"@ + host + path);
    assert(spec_split_url(url) == (host, 80u16, path));
}

/// A URL with a host and a trailing `/` only, such as `http://host/`, asks
/// for the path `/` on port 80.
pub proof fn lemma_split_url_root_path(host: Seq<char>)
    requires
        !host.contains('/'),
        !host.contains(':'),
    ensures
        spec_split_url("http://"@ + host + "/"@) == (host, 80u16, "/"@),
{
    reveal_strlit("/");
    lemma_split_url_default_port(host, "/"@);
}

/// A URL with no `/` after its `http://` asks for the path `/` on port 80
/// of the host it names.
pub proof fn lemma_split_url_without_path(host: Seq<char>)
    requires
        !host.contains('/'),
        !host.contains(':'),
    ensures
        spec_split_url("http://"@ + host) == (host, 80u16, "/"@),
{
    reveal_strlit("http://");
    let url = "http://"@ + host;
    assert(url.take(7) =~= "http://"@);
    assert(url.skip(7) =~= host);
    if host.len() >= 7 && host.take(7) == "http://"@ {
        assert(host.take(7)[5] == "http://"@[5]);
        assert(host[5] == '/');
        assert(host.contains('/'));
    }
    assert(strip_http_prefix(host) == host);
    lemma_find_first(host, '/');
    assert(find_first(host, '/') is None) by {
        if let Some(i) = find_first(host, '/') {
            assert(host.contains('/'));
        }
    }
    lemma_find_first(host, ':');
    assert(find_first(host, ':') is None) by {
        if let Some(i) = find_first(host, ':') {
            assert(host.contains(':'));
        }
    }
}

/// Index where `s` is left after removing every leading `"http://"`.
fn http_prefix_end(s: &[char]) -> (a: usize)
    ensures
        a <= s@.len(),
        strip_http_prefix(s@) == s@.skip(a as int),
{
    let n = s.len();
    let mut a: usize = 0;
    assert(s@.skip(0) =~= s@);
    while n - a >= 7 && s[a] == 'h' && s[a + 1] == 't' && s[a + 2] == 't' && s[a + 3] == 'p'
        && s[a + 4] == ':' && s[a + 5] == '/' && s[a + 6] == '/'
        invariant
            n == s@.len(),
            a <= n,
            strip_http_prefix(s@) == strip_http_prefix(s@.skip(a as int)),
        decreases n - a,
    {
        proof {
            reveal_strlit("http://");
            let t = s@.skip(a as int);
            assert(t.take(7) =~= "http://"@);
            assert(t.skip(7) =~= s@.skip(a + 7));
        }
        a = a + 7;
    }
    proof {
        reveal_strlit("http://");
        let t = s@.skip(a as int);
        if t.len() >= 7 && t.take(7) == "http://"@ {
            assert("http://"@[0] == 'h' && "http://"@[1] == 't' && "http://"@[2] == 't');
            assert("http://"@[3] == 'p' && "http://"@[4] == ':' && "http://"@[5] == '/');
            assert("http://"@[6] == '/');
            assert(s@[a as int] == t.take(7)[0]);
            assert(s@[a + 1] == t.take(7)[1]);
            assert(s@[a + 2] == t.take(7)[2]);
            assert(s@[a + 3] == t.take(7)[3]);
            assert(s@[a + 4] == t.take(7)[4]);
            assert(s@[a + 5] == t.take(7)[5]);
            assert(s@[a + 6] == t.take(7)[6]);
            assert(false);
        }
    }
    a
}

/// Host and port of `url[lo..hi]`, whose characters are `s`: split at the
/// first `:`, the port defaulting to 80.
fn split_host_port(url: &str, s: &[char], lo: usize, hi: usize) -> (r: (String, u16))
    requires
        s@ == url@,
        lo <= hi <= s@.len(),
    ensures
        ({
            let hp = s@.subrange(lo as int, hi as int);
            match find_first(hp, ':') {
                Some(j) => r.0@ == hp.take(j) && r.1 == port_or_default(hp.skip(j + 1)),
                None => r.0@ == hp && r.1 == 80,
            }
        }),
{
    let ghost hp = s@.subrange(lo as int, hi as int);
    proof {
        lemma_find_first(hp, ':');
    }
    match find_char(s, lo, hi, ':') {
        Some(j) => {
            let host = String::from_str(url.substring_char(lo, j));
            let p = parse_decimal(s, j + 1, hi, 65535);
            assert(s@.subrange(j + 1, hi as int) =~= hp.skip(j - lo + 1));
            assert(host@ =~= hp.take(j - lo));
            let port: u16 = match p {
                Some(v) => v as u16,
                None => 80,
            };
            (host, port)
        },
        None => {
            let host = String::from_str(url.substring_char(lo, hi));
            (host, 80)
        },
    }
}

/// The server and resource that a URL names.
pub struct HttpTarget {
    /// Host name, as written in the URL.
    pub host: String,
    /// TCP port.
    pub port: u16,
    /// Resource path, starting with `/`.
    pub path: String,
}

impl HttpTarget {
    /// Splits `url` into host, port and path.
    pub fn parse(url: &str) -> (t: Self)
        ensures
            (t.host@, t.port, t.path@) == spec_split_url(url@),
    {
        let chars = chars_of(url);
        let n = chars.len();
        let a = http_prefix_end(chars.as_slice());
        let ghost u = url@.skip(a as int);
        assert(u =~= chars@.subrange(a as int, n as int));
        proof {
            lemma_find_first(u, '/');
        }
        let slash = find_char(chars.as_slice(), a, n, '/');
        let (hp_end, path) = match slash {
            Some(i) => {
                let mut path = String::from_str("/");
                let rest = url.substring_char(i + 1, n);
                path.append(rest);
                assert(rest@ =~= u.skip(i - a + 1));
                (i, path)
            },
            None => (n, String::from_str("/")),
        };
        let ghost host_port = chars@.subrange(a as int, hp_end as int);
        assert(host_port =~= (match find_first(u, '/') {
            Some(i) => u.take(i),
            None => u,
        }));
        let (host, port) = split_host_port(url, chars.as_slice(), a, hp_end);
        HttpTarget { host, port, path }
    }

    /// `host:port`, the address that is resolved to connect.
    pub fn authority(&self) -> (s: String)
        ensures
            s@ == self.host@ + ":"@ + decimal(self.port as nat),
    {
        let mut s = self.host.clone();
        s.append(":");
        let p = decimal_string(self.port as u64);
        s.append(p.as_str());
        s
    }

    /// The `Host: <host>` header line sent with every request.
    pub fn host_header(&self) -> (s: String)
        ensures
            s@ == "Host: "@ + self.host@,
    {
        let mut s = String::from_str("Host: ");
        s.append(self.host.as_str());
        s
    }

    /// The HTTP/1.1 HEAD request that asks for the resource's metadata.
    pub fn head_request(&self) -> (s: String)
        ensures
            s@ == rendered_request_text("HEAD"@, self.path@, HttpProtocolVersion::Http11, "Host: "@ + self.host@),
    {
        let host_header = self.host_header();
        let request = HttpRequest::HEAD {
            path: self.path.as_str(),
            protocol_version: HttpProtocolVersion::Http11,
            request_head: host_header.as_str(),
        };
        request.to_string()
    }

    /// The HTTP/1.1 GET request that asks for the resource.
    pub fn get_request(&self) -> (s: String)
        ensures
            s@ == rendered_request_text("GET"@, self.path@, HttpProtocolVersion::Http11, "Host: "@ + self.host@),
    {
        let host_header = self.host_header();
        let request = HttpRequest::GET {
            path: self.path.as_str(),
            protocol_version: HttpProtocolVersion::Http11,
            request_head: host_header.as_str(),
        };
        request.to_string()
    }
}

} // verus!
