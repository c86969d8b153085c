//! Reading and writing the system proxy through the tools of macOS
//! (`networksetup`) and Windows (`reg`).
use vstd::prelude::*;
use crate::lines::{lines, split_lines};
use crate::proxy::{colon, parse_port, parse_u16};
use crate::text::{
    chars_of, contains, contains_chars, split, split_chars, string_of, trim, trim_chars, views,
};

verus! {

/// The separator between a URL's scheme and the rest.
pub open spec fn scheme_sep() -> Seq<char> {
    "://"@
}

/// A URL without its scheme: the text after the first `://`, up to a second
/// one if there is one; the whole URL when it has none.
pub open spec fn after_scheme(url: Seq<char>) -> Seq<char> {
    let parts = split(url, scheme_sep());
    if parts.len() > 1 {
        parts[1]
    } else {
        url
    }
}

fn after_scheme_chars(url: &Vec<char>) -> (r: Vec<char>)
    ensures
        r@ == after_scheme(url@),
{
    let sep = chars_of("://");
    proof {
        reveal_strlit("://");
    }
    let parts = split_chars(url, &sep);
    if parts.len() > 1 {
        assert(views(parts@)[1] == parts@[1]@);
        parts[1].clone()
    } else {
        url.clone()
    }
}

/// The host that the macOS system proxy is set to: what precedes the first
/// `':'` of the URL without its scheme.
pub open spec fn mac_proxy_host(url: Seq<char>) -> Seq<char> {
    split(after_scheme(url), colon())[0]
}

/// The port that the macOS system proxy is set to: the number after the
/// first `':'`, or 8080 when there is none or it is not a port number.
pub open spec fn mac_proxy_port(url: Seq<char>) -> u16 {
    let parts = split(after_scheme(url), colon());
    if parts.len() > 1 {
        match parse_u16(parts[1]) {
            Some(p) => p,
            None => 8080,
        }
    } else {
        8080
    }
}

/// The host and port that `networksetup` receives for the proxy URL.
pub fn mac_proxy_target(proxy_url: &str) -> (r: (String, u16))
    ensures
        r.0@ == mac_proxy_host(proxy_url@),
        r.1 == mac_proxy_port(proxy_url@),
{
    let url = chars_of(proxy_url);
    let host_port = after_scheme_chars(&url);
    let sep: Vec<char> = vec![':'];
    assert(sep@ == colon());
    let parts = split_chars(&host_port, &sep);
    proof {
        crate::lines::lemma_split_from_join(host_port@, colon(), 0);
    }
    assert(views(parts@)[0] == parts@[0]@);
    let host = string_of(&parts[0]);
    let port = if parts.len() > 1 {
        assert(views(parts@)[1] == parts@[1]@);
        match parse_port(&parts[1]) {
            Some(p) => p,
            None => 8080,
        }
    } else {
        8080
    };
    (host, port)
}

/// The network services that `networksetup -listallnetworkservices` lists:
/// every line of its output but the first, which is a header.
pub open spec fn network_services(listing: Seq<char>) -> Seq<Seq<char>> {
    if lines(listing).len() == 0 {
        Seq::empty()
    } else {
        lines(listing).drop_first()
    }
}

/// The network services named in the output of `networksetup -listallnetworkservices`.
pub fn network_service_names(listing: &str) -> (r: Vec<String>)
    ensures
        r@.len() == network_services(listing@).len(),
        forall|i: int| 0 <= i < r@.len() ==> #[trigger] r@[i]@ == network_services(listing@)[i],
{
    let ls = split_lines(&chars_of(listing));
    let mut r: Vec<String> = Vec::new();
    if ls.len() == 0 {
        return r;
    }
    let ghost all = views(ls@);
    let mut i: usize = 1;
    while i < ls.len()
        invariant
            all == views(ls@),
            all == lines(listing@),
            1 <= i <= ls@.len(),
            r@.len() == i - 1,
            forall|k: int| 0 <= k < r@.len() ==> #[trigger] r@[k]@ == all[k + 1],
        decreases ls@.len() - i,
    {
        assert(all[i as int] == ls@[i as int]@);
        r.push(string_of(&ls[i]));
        i += 1;
    }
    r
}

/// Whether `networksetup -getwebproxy` reports the proxy as enabled.
pub open spec fn web_proxy_enabled(output: Seq<char>) -> bool {
    contains(output, "Enabled: Yes"@)
}

/// Whether the output of `networksetup -getwebproxy` says the proxy is enabled.
pub fn web_proxy_is_enabled(output: &str) -> (r: bool)
    ensures
        r == web_proxy_enabled(output@),
{
    contains_chars(&chars_of(output), &chars_of("Enabled: Yes"))
}

/// The proxy server that Windows receives: the URL without its scheme.
pub fn windows_proxy_server(proxy_url: &str) -> (r: String)
    ensures
        r@ == after_scheme(proxy_url@),
{
    string_of(&after_scheme_chars(&chars_of(proxy_url)))
}

/// Whether `reg query ... /v ProxyEnable` reports the proxy as enabled: its
/// output mentions `0x1`.
pub open spec fn registry_proxy_enabled(output: Seq<char>) -> bool {
    contains(output, "0x1"@)
}

/// Whether the output of `reg query ... /v ProxyEnable` says the proxy is enabled.
pub fn registry_proxy_is_enabled(output: &str) -> (r: bool)
    ensures
        r == registry_proxy_enabled(output@),
{
    contains_chars(&chars_of(output), &chars_of("0x1"))
}

/// The proxy server that `reg query ... /v ProxyServer` reports: the trimmed
/// text after the first `REG_SZ` (up to a second one), or `Not set` when the
/// output has no `REG_SZ`.
pub open spec fn registry_proxy_server(output: Seq<char>) -> Seq<char> {
    if contains(output, "REG_SZ"@) {
        let parts = split(output, "REG_SZ"@);
        if parts.len() > 1 {
            trim(parts[1])
        } else {
            "Unknown"@
        }
    } else {
        "Not set"@
    }
}

/// The proxy server named in the output of `reg query ... /v ProxyServer`.
pub fn registry_proxy_server_of(output: &str) -> (r: String)
    ensures
        r@ == registry_proxy_server(output@),
{
    let out = chars_of(output);
    let tag = chars_of("REG_SZ");
    proof {
        reveal_strlit("REG_SZ");
    }
    if contains_chars(&out, &tag) {
        let parts = split_chars(&out, &tag);
        if parts.len() > 1 {
            assert(views(parts@)[1] == parts@[1]@);
            string_of(&trim_chars(&parts[1]))
        } else {
            string_of(&chars_of("Unknown"))
        }
    } else {
        string_of(&chars_of("Not set"))
    }
}

} // verus!

verus! {

use crate::lines::lemma_find_from_shift;
use crate::proxy::{all_digits, law_valid_proxy_is_host_colon_port, unsigned_digits, valid_proxy};
use crate::text::{find_from, lemma_find_from, occurs_at, split_from};

/// An accepted `host:port` address holds no `://`.
proof fn lemma_valid_proxy_has_no_scheme_sep(p: Seq<char>)
    requires
        valid_proxy(p),
    ensures
        find_from(p, scheme_sep(), 0) == -1,
{
    reveal_strlit("://");
    lemma_find_from(p, scheme_sep(), 0);
    let m = find_from(p, scheme_sep(), 0);
    if m >= 0 {
        assert(occurs_at(p, scheme_sep(), m));
        assert(p.subrange(m, m + 3)[0] == p[m]);
        assert(p.subrange(m, m + 3)[1] == p[m + 1]);
        assert(p[m] == ':' && p[m + 1] == '/');
        law_valid_proxy_is_host_colon_port(p);
        let i = choose|i: int|
            0 <= i < p.len() && #[trigger] p[i] == ':' && (forall|j: int|
                0 <= j < p.len() && j != i ==> p[j] != ':') && parse_u16(
                p.subrange(i + 1, p.len() as int),
            ) is Some;
        assert(m == i);
        let d = p.subrange(i + 1, p.len() as int);
        assert(d[0] == '/');
        assert(unsigned_digits(d) == d);
        assert(all_digits(d));
        assert(crate::proxy::is_digit(d[0]));
    }
}

/// The URL that a `--set host:port` request writes gives `networksetup`
/// the host before the `':'` and the port number after it, whatever its
/// number of digits.
pub proof fn law_mac_target_of_set_url(p: Seq<char>)
    requires
        valid_proxy(p),
    ensures
        mac_proxy_host("http://"@ + p) == split(p, colon())[0],
        Some(mac_proxy_port("http://"@ + p)) == parse_u16(split(p, colon())[1]),
{
    reveal_strlit("http://");
    reveal_strlit("://");
    let a = "http://"@;
    let x = a + p;
    let sep = scheme_sep();
    assert(x.subrange(4, 7) =~= sep);
    assert(occurs_at(x, sep, 4));
    lemma_find_from(x, sep, 0);
    let f = find_from(x, sep, 0);
    if f < 4 {
        assert(x.subrange(f, f + 3)[0] == x[f]);
    }
    assert(f == 4);
    lemma_valid_proxy_has_no_scheme_sep(p);
    lemma_find_from_shift(a, p, sep, 0);
    assert(find_from(x, sep, 7) == -1);
    assert(x.subrange(7, x.len() as int) =~= p);
    assert(split_from(x, sep, 7) =~= seq![p]);
    assert(split(x, sep) =~= seq![x.subrange(0, 4)] + seq![p]);
    assert(after_scheme(x) == p);
}

} // verus!
