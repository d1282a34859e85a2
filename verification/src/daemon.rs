//! Policy for the daemon URL that proposals are requested from: only plain
//! `http` or `https` URLs whose authority is the local machine are allowed,
//! so that the runner cannot be turned against other hosts.
use vstd::prelude::*;
use vstd::string::*;

verus! {

/// Why a daemon URL was refused.
#[derive(Debug, Clone, Copy, PartialEq, Eq, Structural)]
pub enum DaemonUrlError {
    /// The URL does not start with `http://` or `https://`.
    UnsupportedScheme,
    /// The authority is not `localhost`, `127.0.0.1` or `[::1]`, with an
    /// optional numeric port.
    DisallowedHost,
}

pub open spec fn http_prefix() -> Seq<u8> {
    seq!['h' as u8, 't' as u8, 't' as u8, 'p' as u8, ':' as u8, '/' as u8, '/' as u8]
}

pub open spec fn https_prefix() -> Seq<u8> {
    seq!['h' as u8, 't' as u8, 't' as u8, 'p' as u8, 's' as u8, ':' as u8, '/' as u8, '/' as u8]
}

pub open spec fn localhost_name() -> Seq<u8> {
    seq!['l' as u8, 'o' as u8, 'c' as u8, 'a' as u8, 'l' as u8, 'h' as u8, 'o' as u8, 's' as u8, 't' as u8]
}

pub open spec fn loopback_v4() -> Seq<u8> {
    seq!['1' as u8, '2' as u8, '7' as u8, '.' as u8, '0' as u8, '.' as u8, '0' as u8, '.' as u8, '1' as u8]
}

pub open spec fn loopback_v6() -> Seq<u8> {
    seq!['[' as u8, ':' as u8, ':' as u8, '1' as u8, ']' as u8]
}

pub open spec fn has_prefix(b: Seq<u8>, p: Seq<u8>) -> bool {
    p.len() <= b.len() && b.take(p.len() as int) == p
}

/// Length of the scheme part (`http://` or `https://`), 0 when the URL has
/// neither.
pub open spec fn scheme_len(b: Seq<u8>) -> int {
    if has_prefix(b, http_prefix()) {
        7
    } else if has_prefix(b, https_prefix()) {
        8
    } else {
        0
    }
}

/// The bytes that end an authority: `/`, `?` and `#`.
pub open spec fn ends_authority(c: u8) -> bool {
    c == '/' as u8 || c == '?' as u8 || c == '#' as u8
}

/// Length of the authority at the start of `r` (what follows the scheme):
/// everything up to the first `/`, `?` or `#`.
pub open spec fn authority_len(r: Seq<u8>) -> int
    decreases r.len(),
{
    if r.len() == 0 {
        0
    } else if ends_authority(r[0]) {
        0
    } else {
        1 + authority_len(r.drop_first())
    }
}

pub proof fn lemma_authority_len(r: Seq<u8>)
    ensures
        0 <= authority_len(r) <= r.len(),
        forall|j: int| 0 <= j < authority_len(r) ==> !ends_authority(r[j]),
        authority_len(r) < r.len() ==> ends_authority(r[authority_len(r)]),
    decreases r.len(),
{
    if r.len() > 0 && !ends_authority(r[0]) {
        let t = r.drop_first();
        lemma_authority_len(t);
        assert forall|j: int| 0 <= j < authority_len(r) implies !ends_authority(r[j]) by {
            if j > 0 {
                assert(r[j] == t[j - 1]);
            }
        }
    }
}

pub open spec fn is_digit(c: u8) -> bool {
    '0' as u8 <= c <= '9' as u8
}

/// A port: one or more decimal digits.
pub open spec fn is_port(p: Seq<u8>) -> bool {
    p.len() > 0 && forall|i: int| 0 <= i < p.len() ==> is_digit(p[i])
}

/// `a` is the host `h`, alone or followed by `:` and a port.
pub open spec fn host_with_port(a: Seq<u8>, h: Seq<u8>) -> bool {
    ||| a == h
    ||| {
        &&& a.len() > h.len()
        &&& a.take(h.len() as int) == h
        &&& a[h.len() as int] == ':' as u8
        &&& is_port(a.skip(h.len() as int + 1))
    }
}

/// An authority that names the local machine.
pub open spec fn local_authority(a: Seq<u8>) -> bool {
    ||| host_with_port(a, localhost_name())
    ||| host_with_port(a, loopback_v4())
    ||| host_with_port(a, loopback_v6())
}

/// The verdict on a daemon URL, given its bytes.
pub open spec fn daemon_url_verdict(b: Seq<u8>) -> Result<(), DaemonUrlError> {
    let s = scheme_len(b);
    if s == 0 {
        Err(DaemonUrlError::UnsupportedScheme)
    } else {
        let rest = b.skip(s);
        if local_authority(rest.take(authority_len(rest))) {
            Ok(())
        } else {
            Err(DaemonUrlError::DisallowedHost)
        }
    }
}

fn starts_with(b: &[u8], p: &[u8]) -> (r: bool)
    ensures
        r == has_prefix(b@, p@),
{
    if p.len() > b.len() {
        return false;
    }
    let mut i: usize = 0;
    while i < p.len()
        invariant
            p@.len() <= b@.len(),
            i <= p@.len(),
            forall|j: int| 0 <= j < i ==> b@[j] == p@[j],
        decreases p@.len() - i,
    {
        if b[i] != p[i] {
            proof {
                assert(b@.take(p@.len() as int)[i as int] != p@[i as int]);
            }
            return false;
        }
        i = i + 1;
    }
    proof {
        assert(b@.take(p@.len() as int) =~= p@);
    }
    true
}

fn all_digits(p: &[u8]) -> (r: bool)
    ensures
        r == is_port(p@),
{
    if p.len() == 0 {
        return false;
    }
    let mut i: usize = 0;
    while i < p.len()
        invariant
            i <= p@.len(),
            forall|j: int| 0 <= j < i ==> is_digit(p@[j]),
        decreases p@.len() - i,
    {
        if p[i] < '0' as u8 || p[i] > '9' as u8 {
            return false;
        }
        i = i + 1;
    }
    true
}

fn matches_host(a: &[u8], h: &[u8]) -> (r: bool)
    ensures
        r == host_with_port(a@, h@),
{
    if !starts_with(a, h) {
        proof {
            if a@ == h@ {
                assert(a@.take(h@.len() as int) =~= a@);
            }
        }
        return false;
    }
    if a.len() == h.len() {
        proof {
            assert(a@ =~= a@.take(h@.len() as int));
        }
        return true;
    }
    if a[h.len()] != ':' as u8 {
        return false;
    }
    let (_host, tail) = a.split_at(h.len() + 1);
    let r = all_digits(tail);
    proof {
        assert(tail@ =~= a@.skip(h@.len() as int + 1));
        assert(a@ != h@);
    }
    r
}

/// Checks that `url` points at the local daemon: scheme `http` or `https`,
/// and an authority that is `localhost`, `127.0.0.1` or `[::1]` with an
/// optional numeric port.
pub fn validate_daemon_url(url: &str) -> (r: Result<(), DaemonUrlError>)
    ensures
        r == daemon_url_verdict(url.spec_bytes()),
{
    let b = url.as_bytes();
    let http: Vec<u8> = vec!['h' as u8, 't' as u8, 't' as u8, 'p' as u8, ':' as u8, '/' as u8, '/' as u8];
    let https: Vec<u8> = vec!['h' as u8, 't' as u8, 't' as u8, 'p' as u8, 's' as u8, ':' as u8, '/' as u8, '/' as u8];
    proof {
        assert(http@ =~= http_prefix());
        assert(https@ =~= https_prefix());
    }
    let skip: usize = if starts_with(b, http.as_slice()) {
        7
    } else if starts_with(b, https.as_slice()) {
        8
    } else {
        return Err(DaemonUrlError::UnsupportedScheme);
    };
    let (_scheme, rest) = b.split_at(skip);
    let mut n: usize = 0;
    while n < rest.len()
        invariant
            n <= rest@.len(),
            forall|j: int| 0 <= j < n ==> !ends_authority(rest@[j]),
        ensures
            n <= rest@.len(),
            forall|j: int| 0 <= j < n ==> !ends_authority(rest@[j]),
            n == rest@.len() || ends_authority(rest@[n as int]),
        decreases rest@.len() - n,
    {
        let c = rest[n];
        if c == '/' as u8 || c == '?' as u8 || c == '#' as u8 {
            break;
        }
        n = n + 1;
    }
    proof {
        let r = rest@;
        assert(r =~= b@.skip(skip as int));
        lemma_authority_len(r);
        let f = authority_len(r);
        if (n as int) < f {
            assert(!ends_authority(r[n as int]));
        }
        if f < (n as int) {
            assert(!ends_authority(r[f]));
        }
    }
    let (authority, _path) = rest.split_at(n);
    let localhost: Vec<u8> = vec!['l' as u8, 'o' as u8, 'c' as u8, 'a' as u8, 'l' as u8, 'h' as u8, 'o' as u8, 's' as u8, 't' as u8];
    let v4: Vec<u8> = vec!['1' as u8, '2' as u8, '7' as u8, '.' as u8, '0' as u8, '.' as u8, '0' as u8, '.' as u8, '1' as u8];
    let v6: Vec<u8> = vec!['[' as u8, ':' as u8, ':' as u8, '1' as u8, ']' as u8];
    proof {
        assert(localhost@ =~= localhost_name());
        assert(v4@ =~= loopback_v4());
        assert(v6@ =~= loopback_v6());
        assert(authority@ =~= rest@.take(n as int));
    }
    if matches_host(authority, localhost.as_slice()) || matches_host(authority, v4.as_slice())
        || matches_host(authority, v6.as_slice()) {
        Ok(())
    } else {
        Err(DaemonUrlError::DisallowedHost)
    }
}

proof fn lemma_byte_values()
    ensures
        'h' as u8 == 104u8,
        't' as u8 == 116u8,
        'p' as u8 == 112u8,
        's' as u8 == 115u8,
        ':' as u8 == 58u8,
        '/' as u8 == 47u8,
        '?' as u8 == 63u8,
        '#' as u8 == 35u8,
        '0' as u8 == 48u8,
        '9' as u8 == 57u8,
        'l' as u8 == 108u8,
        'o' as u8 == 111u8,
        'c' as u8 == 99u8,
        'a' as u8 == 97u8,
        '1' as u8 == 49u8,
        '2' as u8 == 50u8,
        '7' as u8 == 55u8,
        '.' as u8 == 46u8,
        '[' as u8 == 91u8,
        ']' as u8 == 93u8,
{
}

proof fn lemma_scheme_of(scheme: Seq<u8>, rest: Seq<u8>)
    requires
        scheme == http_prefix() || scheme == https_prefix(),
    ensures
        scheme_len(scheme + rest) == scheme.len(),
        (scheme + rest).skip(scheme.len() as int) == rest,
{
    lemma_byte_values();
    let u = scheme + rest;
    assert(u.take(scheme.len() as int) =~= scheme);
    if scheme == https_prefix() {
        assert(u.take(7)[4] != http_prefix()[4]);
    }
    assert(u.skip(scheme.len() as int) =~= rest);
}

proof fn lemma_authority_of(a: Seq<u8>, tail: Seq<u8>)
    requires
        forall|j: int| 0 <= j < a.len() ==> !#[trigger] ends_authority(a[j]),
        tail.len() == 0 || ends_authority(tail[0]),
    ensures
        authority_len(a + tail) == a.len(),
        (a + tail).take(a.len() as int) == a,
{
    let r = a + tail;
    lemma_authority_len(r);
    let f = authority_len(r);
    if f < a.len() {
        assert(r[f] == a[f]);
    }
    if f > a.len() {
        assert(r[a.len() as int] == tail[0]);
    }
    assert(r.take(a.len() as int) =~= a);
}

proof fn lemma_verdict_of(scheme: Seq<u8>, a: Seq<u8>, tail: Seq<u8>)
    requires
        scheme == http_prefix() || scheme == https_prefix(),
        forall|j: int| 0 <= j < a.len() ==> !#[trigger] ends_authority(a[j]),
        tail.len() == 0 || ends_authority(tail[0]),
        local_authority(a),
    ensures
        daemon_url_verdict(scheme + (a + tail)) == Ok::<(), DaemonUrlError>(()),
{
    lemma_scheme_of(scheme, a + tail);
    lemma_authority_of(a, tail);
}

proof fn lemma_local_hosts(host: Seq<u8>, port: Seq<u8>)
    requires
        host == localhost_name() || host == loopback_v4() || host == loopback_v6(),
        forall|i: int| 0 <= i < port.len() ==> 48 <= #[trigger] port[i] <= 57,
    ensures
        forall|j: int| 0 <= j < host.len() ==> !#[trigger] ends_authority(host[j]),
        forall|j: int|
            0 <= j < (host + seq![58u8] + port).len() ==> !#[trigger] ends_authority(
                (host + seq![58u8] + port)[j],
            ),
        local_authority(host),
        port.len() > 0 ==> local_authority(host + seq![58u8] + port),
{
    lemma_byte_values();
    let hp = host + seq![58u8] + port;
    assert forall|j: int| 0 <= j < hp.len() implies !#[trigger] ends_authority(hp[j]) by {
        if j < host.len() {
            assert(hp[j] == host[j]);
        } else if j == host.len() {
            assert(hp[j] == 58u8);
        } else {
            assert(hp[j] == port[j - host.len() - 1]);
        }
    }
    if port.len() > 0 {
        assert(hp.take(host.len() as int) =~= host);
        assert(hp.skip(host.len() as int + 1) =~= port);
        assert(hp[host.len() as int] == 58u8);
        assert(is_port(hp.skip(host.len() as int + 1)));
        assert(host_with_port(hp, host));
    }
}

proof fn lemma_no_at_host_with_port(a: Seq<u8>, h: Seq<u8>, at: int)
    requires
        forall|i: int| 0 <= i < h.len() ==> h[i] != 64u8,
        0 <= at < a.len(),
        a[at] == 64u8,
    ensures
        !host_with_port(a, h),
{
    lemma_byte_values();
    if a == h {
        assert(h[at] == 64u8);
    }
    if a.len() > h.len() && a.take(h.len() as int) == h && a[h.len() as int] == 58u8 && is_port(
        a.skip(h.len() as int + 1),
    ) {
        if at < h.len() {
            assert(a.take(h.len() as int)[at] == 64u8);
        } else if at > h.len() {
            assert(a.skip(h.len() as int + 1)[at - h.len() - 1] == 64u8);
        }
    }
}

/// An authority that carries user information (an `@`), such as
/// `localhost:8420@evil.com`, is never local, so such a URL is refused.
pub proof fn lemma_userinfo_refused(scheme: Seq<u8>, a: Seq<u8>, tail: Seq<u8>, at: int)
    requires
        scheme == http_prefix() || scheme == https_prefix(),
        forall|j: int| 0 <= j < a.len() ==> !#[trigger] ends_authority(a[j]),
        tail.len() == 0 || ends_authority(tail[0]),
        0 <= at < a.len(),
        a[at] == 64u8,
    ensures
        daemon_url_verdict(scheme + (a + tail)) == Err::<(), DaemonUrlError>(
            DaemonUrlError::DisallowedHost,
        ),
{
    lemma_byte_values();
    lemma_scheme_of(scheme, a + tail);
    lemma_authority_of(a, tail);
    lemma_no_at_host_with_port(a, localhost_name(), at);
    lemma_no_at_host_with_port(a, loopback_v4(), at);
    lemma_no_at_host_with_port(a, loopback_v6(), at);
}

/// Every local URL is accepted: `http://` or `https://`, then `localhost`,
/// `127.0.0.1` or `[::1]`, then nothing, or `:` and a port of any number
/// of decimal digits, and then possibly a path starting with `/`.
pub proof fn lemma_local_urls_accepted(
    scheme: Seq<u8>,
    host: Seq<u8>,
    port: Seq<u8>,
    path: Seq<u8>,
)
    requires
        scheme == http_prefix() || scheme == https_prefix(),
        host == localhost_name() || host == loopback_v4() || host == loopback_v6(),
        port.len() > 0,
        forall|i: int| 0 <= i < port.len() ==> 48 <= #[trigger] port[i] <= 57,
    ensures
        daemon_url_verdict(scheme + host) == Ok::<(), DaemonUrlError>(()),
        daemon_url_verdict(scheme + host + seq![58u8] + port) == Ok::<(), DaemonUrlError>(()),
        daemon_url_verdict(scheme + host + seq![47u8] + path) == Ok::<(), DaemonUrlError>(()),
        daemon_url_verdict(scheme + host + seq![58u8] + port + seq![47u8] + path) == Ok::<
            (),
            DaemonUrlError,
        >(()),
{
    lemma_local_hosts(host, port);
    let hp = host + seq![58u8] + port;
    let tail = seq![47u8] + path;
    let empty = Seq::<u8>::empty();
    assert(daemon_url_verdict(scheme + host) == Ok::<(), DaemonUrlError>(())) by {
        assert(scheme + (host + empty) =~= scheme + host);
        lemma_verdict_of(scheme, host, empty);
    }
    assert(daemon_url_verdict(scheme + host + seq![58u8] + port) == Ok::<(), DaemonUrlError>(()))
        by {
        assert(scheme + (hp + empty) =~= scheme + host + seq![58u8] + port);
        lemma_verdict_of(scheme, hp, empty);
    }
    assert(daemon_url_verdict(scheme + host + seq![47u8] + path) == Ok::<(), DaemonUrlError>(()))
        by {
        assert(scheme + (host + tail) =~= scheme + host + seq![47u8] + path);
        lemma_verdict_of(scheme, host, tail);
    }
    assert(daemon_url_verdict(scheme + host + seq![58u8] + port + seq![47u8] + path) == Ok::<
        (),
        DaemonUrlError,
    >(())) by {
        assert(scheme + (hp + tail) =~= scheme + host + seq![58u8] + port + seq![47u8] + path);
        lemma_verdict_of(scheme, hp, tail);
    }
}

/// Path of the completion endpoint on the daemon.
pub const COMPLETION_PATH: &'static str = "/api/inference/complete";

/// The URL that proposals are requested from: the daemon URL followed by
/// the completion path.
pub fn completion_endpoint(daemon_url: &str) -> (r: String)
    ensures
        r@ == daemon_url@ + COMPLETION_PATH@,
{
    let mut r = String::from_str(daemon_url);
    r.append(COMPLETION_PATH);
    r
}

} // verus!
