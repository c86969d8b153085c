//! The proxy address given on the command line: its validation and the URL
//! that the configuration files receive.
use vstd::prelude::*;
use crate::text::{chars_of, split, split_chars, string_of, views};

verus! {

/// An ASCII decimal digit.
pub open spec fn is_digit(c: char) -> bool {
    48 <= (c as u32) <= 57
}

/// Every character of `d` is a decimal digit.
pub open spec fn all_digits(d: Seq<char>) -> bool {
    forall|i: int| 0 <= i < d.len() ==> is_digit(#[trigger] d[i])
}

/// The number that the decimal digits `d` spell.
pub open spec fn digits_value(d: Seq<char>) -> nat
    decreases d.len(),
{
    if d.len() == 0 {
        0
    } else {
        digits_value(d.drop_last()) * 10 + ((d.last() as u32) - 48) as nat
    }
}

/// The digits of an unsigned number: one leading `'+'` is allowed.
pub open spec fn unsigned_digits(s: Seq<char>) -> Seq<char> {
    if s.len() > 0 && s[0] == '+' {
        s.drop_first()
    } else {
        s
    }
}

/// What `str::parse::<u16>` returns: an optional `'+'`, then at least one
/// decimal digit and nothing else, spelling a number of at most 65535.
pub open spec fn parse_u16(s: Seq<char>) -> Option<u16> {
    let d = unsigned_digits(s);
    if d.len() > 0 && all_digits(d) && digits_value(d) <= 65535 {
        Some(digits_value(d) as u16)
    } else {
        None
    }
}

/// `s` parsed as a port number.
pub fn parse_port(s: &Vec<char>) -> (r: Option<u16>)
    ensures
        r == parse_u16(s@),
{
    let n = s.len();
    let start: usize = if n > 0 && s[0] == '+' {
        1
    } else {
        0
    };
    let ghost d = unsigned_digits(s@);
    assert(d =~= s@.subrange(start as int, n as int));
    if start == n {
        return None;
    }
    let mut value: u32 = 0;
    let mut over = false;
    let mut i = start;
    while i < n
        invariant
            n == s@.len(),
            start <= i <= n,
            d == s@.subrange(start as int, n as int),
            d == unsigned_digits(s@),
            all_digits(d.take(i - start)),
            over ==> digits_value(d.take(i - start)) > 65535,
            !over ==> value == digits_value(d.take(i - start)) && value <= 65535,
        decreases n - i,
    {
        let c = s[i];
        let code = c as u32;
        if code < 48 || code > 57 {
            assert(d[i - start] == c);
            assert(!is_digit(d[i - start]));
            assert(!all_digits(d));
            return None;
        }
        let ghost prefix = d.take(i - start);
        assert(d.take(i - start + 1).drop_last() =~= prefix);
        assert(d.take(i - start + 1).last() == c);
        if !over {
            let next = value * 10 + (code - 48);
            if next > 65535 {
                over = true;
            } else {
                value = next;
            }
        }
        i += 1;
        assert(all_digits(d.take(i - start))) by {
            assert forall|k: int| 0 <= k < d.take(i - start).len() implies is_digit(
                #[trigger] d.take(i - start)[k],
            ) by {
                if k < i - 1 - start {
                    assert(d.take(i - start)[k] == prefix[k]);
                }
            }
        }
    }
    assert(d.take(n - start) =~= d);
    if over {
        None
    } else {
        Some(value as u16)
    }
}

/// The separator between host and port.
pub open spec fn colon() -> Seq<char> {
    seq![':']
}

/// An accepted `host:port` proxy address: cutting it at
/// each `':'` gives exactly two parts, and the second is a port number.
pub open spec fn valid_proxy(p: Seq<char>) -> bool {
    let parts = split(p, colon());
    parts.len() == 2 && parse_u16(parts[1]) is Some
}

/// Whether `proxy` has the form `host:port`.
pub fn isValidProxy(proxy: &str) -> (r: bool)
    ensures
        r == valid_proxy(proxy@),
{
    let p = chars_of(proxy);
    let sep: Vec<char> = vec![':'];
    assert(sep@ == colon());
    let parts = split_chars(&p, &sep);
    if parts.len() != 2 {
        return false;
    }
    assert(views(parts@)[1] == parts@[1]@);
    match parse_port(&parts[1]) {
        Some(_) => true,
        None => false,
    }
}

} // verus!

verus! {

/// The URL written into every configuration: the scheme
/// `http://` in front of the host and port.
pub open spec fn proxy_url(p: Seq<char>) -> Seq<char> {
    let parts = split(p, colon());
    "http://"@ + parts[0] + colon() + parts[1]
}

/// For an accepted address the URL is `http://` followed by the address as given.
pub proof fn law_proxy_url_keeps_address(p: Seq<char>)
    requires
        valid_proxy(p),
    ensures
        proxy_url(p) == "http://"@ + p,
{
    let parts = split(p, colon());
    crate::lines::lemma_split_join(p, colon());
    assert(parts =~= seq![parts[0]] + seq![parts[1]]);
    assert(parts.drop_last() =~= seq![parts[0]]);
    assert(crate::lines::join(parts.drop_last(), colon()) == parts[0]);
    assert(crate::lines::join(parts, colon()) == parts[0] + colon() + parts[1]);
    assert(proxy_url(p) =~= "http://"@ + p);
}

/// The proxy URL for an accepted `host:port` address.
pub fn http_proxy_url(proxy: &str) -> (r: String)
    requires
        valid_proxy(proxy@),
    ensures
        r@ == proxy_url(proxy@),
        r@ == "http://"@ + proxy@,
{
    proof {
        law_proxy_url_keeps_address(proxy@);
    }
    let p = chars_of(proxy);
    let sep: Vec<char> = vec![':'];
    assert(sep@ == colon());
    let parts = split_chars(&p, &sep);
    assert(views(parts@)[0] == parts@[0]@);
    assert(views(parts@)[1] == parts@[1]@);
    let mut url = chars_of("http://");
    url.extend_from_slice(parts[0].as_slice());
    url.push(':');
    url.extend_from_slice(parts[1].as_slice());
    string_of(&url)
}

} // verus!

verus! {

use crate::text::{find_from, lemma_find_from, occurs_at, split_from};

/// `p` has exactly one `':'`, and what follows it is a port number.
pub open spec fn host_colon_port(p: Seq<char>) -> bool {
    exists|i: int|
        0 <= i < p.len() && #[trigger] p[i] == ':' && (forall|j: int|
            0 <= j < p.len() && j != i ==> p[j] != ':') && parse_u16(
            p.subrange(i + 1, p.len() as int),
        ) is Some
}

proof fn lemma_occurs_colon(p: Seq<char>, i: int)
    ensures
        occurs_at(p, colon(), i) <==> (0 <= i < p.len() && p[i] == ':'),
{
    if 0 <= i < p.len() {
        if p[i] == ':' {
            assert(p.subrange(i, i + 1) =~= colon());
        }
        if occurs_at(p, colon(), i) {
            assert(p.subrange(i, i + 1)[0] == p[i]);
        }
    }
}

/// `isValidProxy` accepts exactly the addresses with one `':'` followed by a
/// port number (an optional `+` and decimal digits worth at most 65535).
pub proof fn law_valid_proxy_is_host_colon_port(p: Seq<char>)
    ensures
        valid_proxy(p) <==> host_colon_port(p),
{
    let parts = split(p, colon());
    lemma_find_from(p, colon(), 0);
    let i0 = find_from(p, colon(), 0);
    if i0 < 0 {
        assert(parts =~= seq![p.subrange(0, p.len() as int)]);
        if host_colon_port(p) {
            let i = choose|i: int|
                0 <= i < p.len() && #[trigger] p[i] == ':' && (forall|j: int|
                    0 <= j < p.len() && j != i ==> p[j] != ':') && parse_u16(
                    p.subrange(i + 1, p.len() as int),
                ) is Some;
            lemma_occurs_colon(p, i);
        }
    } else {
        lemma_occurs_colon(p, i0);
        let rest = split_from(p, colon(), i0 + 1);
        assert(parts == seq![p.subrange(0, i0)] + rest);
        lemma_find_from(p, colon(), i0 + 1);
        let i1 = find_from(p, colon(), i0 + 1);
        if i1 < 0 {
            assert(rest =~= seq![p.subrange(i0 + 1, p.len() as int)]);
            assert(parts.len() == 2);
            assert(parts[1] == p.subrange(i0 + 1, p.len() as int));
            assert forall|j: int| 0 <= j < p.len() && j != i0 implies p[j] != ':' by {
                lemma_occurs_colon(p, j);
            }
            if valid_proxy(p) {
                assert(p[i0] == ':');
            }
            if host_colon_port(p) {
                let i = choose|i: int|
                    0 <= i < p.len() && #[trigger] p[i] == ':' && (forall|j: int|
                        0 <= j < p.len() && j != i ==> p[j] != ':') && parse_u16(
                        p.subrange(i + 1, p.len() as int),
                    ) is Some;
                assert(i == i0);
            }
        } else {
            lemma_occurs_colon(p, i1);
            crate::lines::lemma_split_from_join(p, colon(), i1 + 1);
            assert(rest == seq![p.subrange(i0 + 1, i1)] + split_from(p, colon(), i1 + 1));
            assert(parts.len() >= 3);
            if host_colon_port(p) {
                let i = choose|i: int|
                    0 <= i < p.len() && #[trigger] p[i] == ':' && (forall|j: int|
                        0 <= j < p.len() && j != i ==> p[j] != ':') && parse_u16(
                        p.subrange(i + 1, p.len() as int),
                    ) is Some;
                assert(p[i0] == ':' && p[i1] == ':');
            }
        }
    }
}

} // verus!
