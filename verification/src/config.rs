//! The proxy lines of the configuration files that the program edits
//! (`.npmrc`, the shell start-up files, `/etc/apt/apt.conf`): which lines a
//! setting appends, which lines an unsetting removes, and how a status check
//! reads a file.
//!
//! Every function here takes the file's current text; a file that does not
//! exist, or cannot be read as text, is passed as the empty text: neither
//! holds any entry.
use vstd::prelude::*;
use crate::lines::{drop_lines_mentioning, without_lines_mentioning};
use crate::text::{chars_of, contains, contains_chars, opt_view, string_of, views};

verus! {

/// The text that an optional addition appends (nothing for `None`).
pub open spec fn added(o: Option<Seq<char>>) -> Seq<char> {
    match o {
        Some(t) => t,
        None => Seq::empty(),
    }
}

/// `prefix` followed by `url`.
fn prefixed(prefix: &str, url: &Vec<char>) -> (r: Vec<char>)
    ensures
        r@ == prefix@ + url@,
{
    let mut r = chars_of(prefix);
    r.extend_from_slice(url.as_slice());
    r
}

// ---------------------------------------------------------------- npm

/// The `.npmrc` entry for the HTTP proxy.
pub open spec fn npm_entry(url: Seq<char>) -> Seq<char> {
    "proxy="@ + url
}

/// The `.npmrc` entry for the HTTPS proxy.
pub open spec fn npm_https_entry(url: Seq<char>) -> Seq<char> {
    "https-proxy="@ + url
}

/// What setting the npm proxy appends to `.npmrc`: `None` when both entries
/// for `url` are already present, else each missing entry on a line of its own.
pub open spec fn npm_addition(content: Seq<char>, url: Seq<char>) -> Option<Seq<char>> {
    let has_http = contains(content, npm_entry(url));
    let has_https = contains(content, npm_https_entry(url));
    if has_http && has_https {
        None
    } else {
        Some(
            (if has_http {
                Seq::empty()
            } else {
                npm_entry(url) + "\n"@
            }) + (if has_https {
                Seq::empty()
            } else {
                npm_https_entry(url) + "\n"@
            }),
        )
    }
}

/// The text to append to `.npmrc` so that it sets `proxy_url`, or `None`
/// when it already does.
pub fn setNpmProxy(content: &str, proxy_url: &str) -> (r: Option<String>)
    ensures
        opt_view(r) == npm_addition(content@, proxy_url@),
{
    let c = chars_of(content);
    let url = chars_of(proxy_url);
    let http = prefixed("proxy=", &url);
    let https = prefixed("https-proxy=", &url);
    let has_http = contains_chars(&c, &http);
    let has_https = contains_chars(&c, &https);
    if has_http && has_https {
        return None;
    }
    let mut out: Vec<char> = Vec::new();
    if !has_http {
        out.extend_from_slice(http.as_slice());
        out.push('\n');
    }
    let ghost first = out@;
    if !has_https {
        out.extend_from_slice(https.as_slice());
        out.push('\n');
    }
    proof {
        reveal_strlit("\n");
        assert(first =~= (if has_http {
            Seq::empty()
        } else {
            npm_entry(proxy_url@) + "\n"@
        }));
        assert(out@ =~= first + (if has_https {
            Seq::empty()
        } else {
            npm_https_entry(proxy_url@) + "\n"@
        }));
    }
    Some(string_of(&out))
}

/// The lines that unsetting the npm proxy removes: those mentioning one of these.
pub open spec fn npm_patterns() -> Seq<Seq<char>> {
    seq!["proxy="@, "https-proxy="@]
}

/// `.npmrc` without its proxy lines: every line mentioning `proxy=` or
/// `https-proxy=` is dropped and the rest are joined with `"\n"`.
pub fn unsetNpmProxy(content: &str) -> (r: String)
    ensures
        r@ == without_lines_mentioning(content@, npm_patterns()),
        r@ == join(
            lines(content@).filter(
                |l: Seq<char>| !contains(l, "proxy="@) && !contains(l, "https-proxy="@),
            ),
            newline(),
        ),
{
    proof {
        law_npm_unset_keeps_other_lines(content@);
    }
    let c = chars_of(content);
    let pats = vec![chars_of("proxy="), chars_of("https-proxy=")];
    assert(views(pats@) =~= npm_patterns());
    string_of(&drop_lines_mentioning(&c, &pats))
}

/// Whether a status check reports the npm proxy as set: `.npmrc` mentions `proxy=`.
pub open spec fn npm_proxy_set(content: Seq<char>) -> bool {
    contains(content, "proxy="@)
}

/// Whether `.npmrc` sets a proxy, as the status check reports it.
pub fn npm_proxy_is_set(content: &str) -> (r: bool)
    ensures
        r == npm_proxy_set(content@),
{
    contains_chars(&chars_of(content), &chars_of("proxy="))
}

} // verus!

verus! {

// ---------------------------------------------------------------- shells

/// The shell line exporting `HTTP_PROXY`.
pub open spec fn shell_http_entry(url: Seq<char>) -> Seq<char> {
    "export HTTP_PROXY="@ + url
}

/// The shell line exporting `http_proxy`.
pub open spec fn shell_http_lower_entry(url: Seq<char>) -> Seq<char> {
    "export http_proxy="@ + url
}

/// The shell line exporting `HTTPS_PROXY`.
pub open spec fn shell_https_entry(url: Seq<char>) -> Seq<char> {
    "export HTTPS_PROXY="@ + url
}

/// The shell line exporting `https_proxy`.
pub open spec fn shell_https_lower_entry(url: Seq<char>) -> Seq<char> {
    "export https_proxy="@ + url
}

/// What setting the proxy appends to a shell start-up file: `None` when it
/// already exports `HTTP_PROXY` and `HTTPS_PROXY` as `url`; else a blank
/// line, the `# Proxy settings` comment, and the upper- and lower-case
/// exports of each missing variable.
pub open spec fn shell_addition(content: Seq<char>, url: Seq<char>) -> Option<Seq<char>> {
    let has_http = contains(content, shell_http_entry(url));
    let has_https = contains(content, shell_https_entry(url));
    if has_http && has_https {
        None
    } else {
        Some(
            "\n# Proxy settings\n"@ + (if has_http {
                Seq::empty()
            } else {
                shell_http_entry(url) + "\n"@ + shell_http_lower_entry(url) + "\n"@
            }) + (if has_https {
                Seq::empty()
            } else {
                shell_https_entry(url) + "\n"@ + shell_https_lower_entry(url) + "\n"@
            }),
        )
    }
}

fn shell_addition_text(content: &str, proxy_url: &str) -> (r: Option<String>)
    ensures
        opt_view(r) == shell_addition(content@, proxy_url@),
{
    let c = chars_of(content);
    let url = chars_of(proxy_url);
    let http = prefixed("export HTTP_PROXY=", &url);
    let https = prefixed("export HTTPS_PROXY=", &url);
    let has_http = contains_chars(&c, &http);
    let has_https = contains_chars(&c, &https);
    if has_http && has_https {
        return None;
    }
    let mut out = chars_of("\n# Proxy settings\n");
    let ghost header = out@;
    if !has_http {
        out.extend_from_slice(http.as_slice());
        out.push('\n');
        let lower = prefixed("export http_proxy=", &url);
        out.extend_from_slice(lower.as_slice());
        out.push('\n');
    }
    let ghost first = out@;
    if !has_https {
        out.extend_from_slice(https.as_slice());
        out.push('\n');
        let lower = prefixed("export https_proxy=", &url);
        out.extend_from_slice(lower.as_slice());
        out.push('\n');
    }
    proof {
        reveal_strlit("\n");
        assert(first =~= header + (if has_http {
            Seq::empty()
        } else {
            shell_http_entry(proxy_url@) + "\n"@ + shell_http_lower_entry(proxy_url@) + "\n"@
        }));
        assert(out@ =~= first + (if has_https {
            Seq::empty()
        } else {
            shell_https_entry(proxy_url@) + "\n"@ + shell_https_lower_entry(proxy_url@) + "\n"@
        }));
    }
    Some(string_of(&out))
}

/// The text to append to the Bash start-up file so that it exports
/// `proxy_url`, or `None` when it already does.
pub fn setBashProxy(content: &str, proxy_url: &str) -> (r: Option<String>)
    ensures
        opt_view(r) == shell_addition(content@, proxy_url@),
{
    shell_addition_text(content, proxy_url)
}

/// The text to append to `.zshrc` so that it exports `proxy_url`, or `None`
/// when it already does.
pub fn setZshProxy(content: &str, proxy_url: &str) -> (r: Option<String>)
    ensures
        opt_view(r) == shell_addition(content@, proxy_url@),
{
    shell_addition_text(content, proxy_url)
}

/// The lines that unsetting a shell proxy removes: those mentioning one of these.
pub open spec fn shell_patterns() -> Seq<Seq<char>> {
    seq![
        "export HTTP_PROXY="@,
        "export http_proxy="@,
        "export HTTPS_PROXY="@,
        "export https_proxy="@,
        "# Proxy settings"@,
    ]
}

fn strip_shell_lines(content: &str) -> (r: String)
    ensures
        r@ == without_lines_mentioning(content@, shell_patterns()),
{
    let c = chars_of(content);
    let pats = vec![
        chars_of("export HTTP_PROXY="),
        chars_of("export http_proxy="),
        chars_of("export HTTPS_PROXY="),
        chars_of("export https_proxy="),
        chars_of("# Proxy settings"),
    ];
    assert(views(pats@) =~= shell_patterns());
    string_of(&drop_lines_mentioning(&c, &pats))
}

/// The Bash start-up file without its proxy lines.
pub fn unsetBashProxy(content: &str) -> (r: String)
    ensures
        r@ == without_lines_mentioning(content@, shell_patterns()),
        r@ == join(
            lines(content@).filter(
                |l: Seq<char>|
                    !contains(l, "export HTTP_PROXY="@) && !contains(l, "export http_proxy="@)
                        && !contains(l, "export HTTPS_PROXY="@) && !contains(
                        l,
                        "export https_proxy="@,
                    ) && !contains(l, "# Proxy settings"@),
            ),
            newline(),
        ),
{
    proof {
        law_shell_unset_keeps_other_lines(content@);
    }
    strip_shell_lines(content)
}

/// `.zshrc` without its proxy lines.
pub fn unsetZshProxy(content: &str) -> (r: String)
    ensures
        r@ == without_lines_mentioning(content@, shell_patterns()),
        r@ == join(
            lines(content@).filter(
                |l: Seq<char>|
                    !contains(l, "export HTTP_PROXY="@) && !contains(l, "export http_proxy="@)
                        && !contains(l, "export HTTPS_PROXY="@) && !contains(
                        l,
                        "export https_proxy="@,
                    ) && !contains(l, "# Proxy settings"@),
            ),
            newline(),
        ),
{
    proof {
        law_shell_unset_keeps_other_lines(content@);
    }
    strip_shell_lines(content)
}

/// Whether a status check reports a shell proxy as set: the file mentions
/// `export HTTP_PROXY=`.
pub open spec fn shell_proxy_set(content: Seq<char>) -> bool {
    contains(content, "export HTTP_PROXY="@)
}

/// Whether a shell start-up file sets a proxy, as the status check reports it.
pub fn shell_proxy_is_set(content: &str) -> (r: bool)
    ensures
        r == shell_proxy_set(content@),
{
    contains_chars(&chars_of(content), &chars_of("export HTTP_PROXY="))
}

// ---------------------------------------------------------------- apt

/// The `apt.conf` entry for the HTTP proxy.
pub open spec fn apt_entry(url: Seq<char>) -> Seq<char> {
    "Acquire::http::proxy \""@ + url + "\";"@
}

/// The `apt.conf` entry for the HTTPS proxy.
pub open spec fn apt_https_entry(url: Seq<char>) -> Seq<char> {
    "Acquire::https::proxy \""@ + url + "\";"@
}

/// What setting the APT proxy appends to `apt.conf`: `None` when both
/// entries for `url` are present, else each missing entry on a line of its own.
pub open spec fn apt_addition(content: Seq<char>, url: Seq<char>) -> Option<Seq<char>> {
    let has_http = contains(content, apt_entry(url));
    let has_https = contains(content, apt_https_entry(url));
    if has_http && has_https {
        None
    } else {
        Some(
            (if has_http {
                Seq::empty()
            } else {
                apt_entry(url) + "\n"@
            }) + (if has_https {
                Seq::empty()
            } else {
                apt_https_entry(url) + "\n"@
            }),
        )
    }
}

/// The text to append to `apt.conf` so that it sets `proxy_url`, or `None`
/// when it already does.
pub fn setAptProxy(content: &str, proxy_url: &str) -> (r: Option<String>)
    ensures
        opt_view(r) == apt_addition(content@, proxy_url@),
{
    let c = chars_of(content);
    let url = chars_of(proxy_url);
    let mut http = prefixed("Acquire::http::proxy \"", &url);
    let close = chars_of("\";");
    http.extend_from_slice(close.as_slice());
    let mut https = prefixed("Acquire::https::proxy \"", &url);
    https.extend_from_slice(close.as_slice());
    assert(http@ == apt_entry(proxy_url@));
    assert(https@ == apt_https_entry(proxy_url@));
    let has_http = contains_chars(&c, &http);
    let has_https = contains_chars(&c, &https);
    if has_http && has_https {
        return None;
    }
    let mut out: Vec<char> = Vec::new();
    if !has_http {
        out.extend_from_slice(http.as_slice());
        out.push('\n');
    }
    let ghost first = out@;
    if !has_https {
        out.extend_from_slice(https.as_slice());
        out.push('\n');
    }
    proof {
        reveal_strlit("\n");
        assert(first =~= (if has_http {
            Seq::empty()
        } else {
            apt_entry(proxy_url@) + "\n"@
        }));
        assert(out@ =~= first + (if has_https {
            Seq::empty()
        } else {
            apt_https_entry(proxy_url@) + "\n"@
        }));
    }
    Some(string_of(&out))
}

/// The lines that unsetting the APT proxy removes: those mentioning one of these.
pub open spec fn apt_patterns() -> Seq<Seq<char>> {
    seq!["Acquire::http::proxy"@, "Acquire::https::proxy"@]
}

/// `apt.conf` without its proxy lines.
pub fn unsetAptProxy(content: &str) -> (r: String)
    ensures
        r@ == without_lines_mentioning(content@, apt_patterns()),
        r@ == join(
            lines(content@).filter(
                |l: Seq<char>|
                    !contains(l, "Acquire::http::proxy"@) && !contains(
                        l,
                        "Acquire::https::proxy"@,
                    ),
            ),
            newline(),
        ),
{
    proof {
        law_apt_unset_keeps_other_lines(content@);
    }
    let c = chars_of(content);
    let pats = vec![chars_of("Acquire::http::proxy"), chars_of("Acquire::https::proxy")];
    assert(views(pats@) =~= apt_patterns());
    string_of(&drop_lines_mentioning(&c, &pats))
}

/// Whether a status check reports the APT proxy as set: `apt.conf`
/// mentions `Acquire::http::proxy`.
pub open spec fn apt_proxy_set(content: Seq<char>) -> bool {
    contains(content, "Acquire::http::proxy"@)
}

/// Whether `apt.conf` sets a proxy, as the status check reports it.
pub fn apt_proxy_is_set(content: &str) -> (r: bool)
    ensures
        r == apt_proxy_set(content@),
{
    contains_chars(&chars_of(content), &chars_of("Acquire::http::proxy"))
}

} // verus!

verus! {

use crate::text::{lemma_contains_append, lemma_contains_middle, lemma_contains_shorter};

/// The text `c + first + second`, where each part is either empty (when `c`
/// already holds its entry) or starts a new occurrence of it, holds both entries.
proof fn lemma_two_entries(
    c: Seq<char>,
    header: Seq<char>,
    e1: Seq<char>,
    rest1: Seq<char>,
    e2: Seq<char>,
    rest2: Seq<char>,
)
    ensures
        ({
            let t1 = if contains(c, e1) {
                Seq::empty()
            } else {
                e1 + rest1
            };
            let t2 = if contains(c, e2) {
                Seq::empty()
            } else {
                e2 + rest2
            };
            let u = c + (header + t1 + t2);
            contains(u, e1) && contains(u, e2)
        }),
{
    let t1 = if contains(c, e1) {
        Seq::empty()
    } else {
        e1 + rest1
    };
    let t2 = if contains(c, e2) {
        Seq::empty()
    } else {
        e2 + rest2
    };
    let u = c + (header + t1 + t2);
    if contains(c, e1) {
        lemma_contains_append(c, header + t1 + t2, e1);
    } else {
        assert(u =~= (c + header) + e1 + (rest1 + t2));
        lemma_contains_middle(c + header, e1, rest1 + t2);
    }
    if contains(c, e2) {
        lemma_contains_append(c, header + t1 + t2, e2);
    } else {
        assert(u =~= (c + header + t1) + e2 + rest2);
        lemma_contains_middle(c + header + t1, e2, rest2);
    }
}

/// Setting the npm proxy makes `.npmrc` hold both entries for the URL, the
/// status check then reports the proxy as set, and setting it again appends nothing.
pub proof fn law_npm_set_then_status(content: Seq<char>, url: Seq<char>)
    ensures
        ({
            let updated = content + added(npm_addition(content, url));
            &&& contains(updated, npm_entry(url))
            &&& contains(updated, npm_https_entry(url))
            &&& npm_proxy_set(updated)
            &&& npm_addition(updated, url) is None
        }),
{
    let updated = content + added(npm_addition(content, url));
    lemma_two_entries(content, Seq::empty(), npm_entry(url), "\n"@, npm_https_entry(url), "\n"@);
    if npm_addition(content, url) is None {
        assert(updated =~= content + (Seq::empty() + Seq::empty() + Seq::empty()));
    } else {
        assert(updated =~= content + (Seq::empty() + (if contains(content, npm_entry(url)) {
            Seq::empty()
        } else {
            npm_entry(url) + "\n"@
        }) + (if contains(content, npm_https_entry(url)) {
            Seq::empty()
        } else {
            npm_https_entry(url) + "\n"@
        })));
    }
    lemma_contains_shorter(updated, "proxy="@, url);
}

/// Setting a shell proxy makes the start-up file export `HTTP_PROXY` and
/// `HTTPS_PROXY` as the URL, the status check then reports the proxy as set,
/// and setting it again appends nothing.
pub proof fn law_shell_set_then_status(content: Seq<char>, url: Seq<char>)
    ensures
        ({
            let updated = content + added(shell_addition(content, url));
            &&& contains(updated, shell_http_entry(url))
            &&& contains(updated, shell_https_entry(url))
            &&& shell_proxy_set(updated)
            &&& shell_addition(updated, url) is None
        }),
{
    let updated = content + added(shell_addition(content, url));
    let r1 = "\n"@ + shell_http_lower_entry(url) + "\n"@;
    let r2 = "\n"@ + shell_https_lower_entry(url) + "\n"@;
    lemma_two_entries(
        content,
        "\n# Proxy settings\n"@,
        shell_http_entry(url),
        r1,
        shell_https_entry(url),
        r2,
    );
    if shell_addition(content, url) is None {
        assert(updated =~= content + (Seq::empty() + Seq::empty() + Seq::empty()));
        lemma_contains_append(content, Seq::empty(), shell_http_entry(url));
        lemma_contains_append(content, Seq::empty(), shell_https_entry(url));
    } else {
        assert(updated =~= content + ("\n# Proxy settings\n"@ + (if contains(
            content,
            shell_http_entry(url),
        ) {
            Seq::empty()
        } else {
            shell_http_entry(url) + r1
        }) + (if contains(content, shell_https_entry(url)) {
            Seq::empty()
        } else {
            shell_https_entry(url) + r2
        })));
    }
    lemma_contains_shorter(updated, "export HTTP_PROXY="@, url);
}

/// Setting the APT proxy makes `apt.conf` hold both entries for the URL, the
/// status check then reports the proxy as set, and setting it again appends nothing.
pub proof fn law_apt_set_then_status(content: Seq<char>, url: Seq<char>)
    ensures
        ({
            let updated = content + added(apt_addition(content, url));
            &&& contains(updated, apt_entry(url))
            &&& contains(updated, apt_https_entry(url))
            &&& apt_proxy_set(updated)
            &&& apt_addition(updated, url) is None
        }),
{
    let updated = content + added(apt_addition(content, url));
    lemma_two_entries(content, Seq::empty(), apt_entry(url), "\n"@, apt_https_entry(url), "\n"@);
    if apt_addition(content, url) is None {
        assert(updated =~= content + (Seq::empty() + Seq::empty() + Seq::empty()));
    } else {
        assert(updated =~= content + (Seq::empty() + (if contains(content, apt_entry(url)) {
            Seq::empty()
        } else {
            apt_entry(url) + "\n"@
        }) + (if contains(content, apt_https_entry(url)) {
            Seq::empty()
        } else {
            apt_https_entry(url) + "\n"@
        })));
    }
    assert(apt_entry(url) =~= "Acquire::http::proxy"@ + (" \""@ + url + "\";"@)) by {
        reveal_strlit("Acquire::http::proxy \"");
        reveal_strlit("Acquire::http::proxy");
        reveal_strlit(" \"");
    }
    lemma_contains_shorter(updated, "Acquire::http::proxy"@, " \""@ + url + "\";"@);
}

} // verus!

verus! {

use crate::lines::lemma_without_lines_lacks;
use crate::text::no_newline;

/// After unsetting the npm proxy, `.npmrc` mentions neither `proxy=` nor
/// `https-proxy=` anywhere, so the status check reports the proxy as not set.
pub proof fn law_npm_unset_then_status(content: Seq<char>)
    ensures
        ({
            let updated = without_lines_mentioning(content, npm_patterns());
            &&& forall|j: int| 0 <= j < npm_patterns().len() ==> !contains(updated, #[trigger] npm_patterns()[j])
            &&& !npm_proxy_set(updated)
        }),
{
    reveal_strlit("proxy=");
    reveal_strlit("https-proxy=");
    let pats = npm_patterns();
    assert forall|j: int| 0 <= j < pats.len() implies !contains(
        without_lines_mentioning(content, pats),
        #[trigger] pats[j],
    ) by {
        assert(no_newline(pats[j]));
        lemma_without_lines_lacks(content, pats, j);
    }
    assert(pats[0] == "proxy="@);
}

/// After unsetting a shell proxy, the start-up file mentions none of the
/// proxy exports nor the `# Proxy settings` comment, so the status check
/// reports the proxy as not set.
pub proof fn law_shell_unset_then_status(content: Seq<char>)
    ensures
        ({
            let updated = without_lines_mentioning(content, shell_patterns());
            &&& forall|j: int| 0 <= j < shell_patterns().len() ==> !contains(updated, #[trigger] shell_patterns()[j])
            &&& !shell_proxy_set(updated)
        }),
{
    reveal_strlit("export HTTP_PROXY=");
    reveal_strlit("export http_proxy=");
    reveal_strlit("export HTTPS_PROXY=");
    reveal_strlit("export https_proxy=");
    reveal_strlit("# Proxy settings");
    let pats = shell_patterns();
    assert forall|j: int| 0 <= j < pats.len() implies !contains(
        without_lines_mentioning(content, pats),
        #[trigger] pats[j],
    ) by {
        assert(no_newline(pats[j]));
        lemma_without_lines_lacks(content, pats, j);
    }
    assert(pats[0] == "export HTTP_PROXY="@);
}

/// After unsetting the APT proxy, `apt.conf` mentions neither
/// `Acquire::http::proxy` nor `Acquire::https::proxy`, so the status check
/// reports the proxy as not set.
pub proof fn law_apt_unset_then_status(content: Seq<char>)
    ensures
        ({
            let updated = without_lines_mentioning(content, apt_patterns());
            &&& forall|j: int| 0 <= j < apt_patterns().len() ==> !contains(updated, #[trigger] apt_patterns()[j])
            &&& !apt_proxy_set(updated)
        }),
{
    reveal_strlit("Acquire::http::proxy");
    reveal_strlit("Acquire::https::proxy");
    let pats = apt_patterns();
    assert forall|j: int| 0 <= j < pats.len() implies !contains(
        without_lines_mentioning(content, pats),
        #[trigger] pats[j],
    ) by {
        assert(no_newline(pats[j]));
        lemma_without_lines_lacks(content, pats, j);
    }
    assert(pats[0] == "Acquire::http::proxy"@);
}

} // verus!

verus! {

use crate::lines::{
    join, lemma_no_newline_concat, lemma_strip_cr_keeps_prefix, lemma_terminated_push,
    lemma_unset_appended, lemma_unset_appended_after_newline, lines, mentions_any, newline,
    strip_cr, terminated,
};
use crate::text::lemma_contains_suffix;

/// Unsetting the npm proxy undoes setting it: for `.npmrc` text that is
/// empty or ends with a line terminator and mentions no `proxy=`, and a URL
/// without line terminators, setting appends something, and unsetting the
/// result gives the text's lines joined with `"\n"` (the text without its
/// final line terminator when it has no carriage returns).
pub proof fn law_npm_unset_undoes_set(s: Seq<char>, u: Seq<char>)
    requires
        s.len() == 0 || s.last() == '\n',
        !contains(s, "proxy="@),
        no_newline(u),
    ensures
        npm_addition(s, u) is Some,
        without_lines_mentioning(s + added(npm_addition(s, u)), npm_patterns()) == join(
            lines(s),
            newline(),
        ),
{
    reveal_strlit("proxy=");
    reveal_strlit("https-proxy=");
    reveal_strlit("\n");
    let pats = npm_patterns();
    let e1 = npm_entry(u);
    let e2 = npm_https_entry(u);
    let https_prefix = seq!['h', 't', 't', 'p', 's', '-'];
    assert("https-proxy="@ =~= https_prefix + "proxy="@);
    if contains(s, "https-proxy="@) {
        lemma_contains_suffix(s, https_prefix, "proxy="@);
    }
    if contains(s, e1) {
        lemma_contains_shorter(s, "proxy="@, u);
    }
    if contains(s, e2) {
        lemma_contains_shorter(s, "https-proxy="@, u);
    }
    assert forall|j: int| 0 <= j < pats.len() implies !contains(s, #[trigger] pats[j]) by {}
    let xs = Seq::<Seq<char>>::empty().push(e1).push(e2);
    lemma_terminated_push(Seq::<Seq<char>>::empty(), e1);
    lemma_terminated_push(Seq::<Seq<char>>::empty().push(e1), e2);
    assert(added(npm_addition(s, u)) =~= terminated(xs));
    assert(no_newline("proxy="@));
    assert(no_newline("https-proxy="@));
    lemma_no_newline_concat("proxy="@, u);
    lemma_no_newline_concat("https-proxy="@, u);
    lemma_strip_cr_keeps_prefix("proxy="@, u);
    lemma_strip_cr_keeps_prefix("https-proxy="@, u);
    assert(mentions_any(strip_cr(e1), pats)) by {
        assert(contains(strip_cr(e1), pats[0]));
    }
    assert(mentions_any(strip_cr(e2), pats)) by {
        assert(contains(strip_cr(e2), pats[1]));
    }
    assert forall|i: int| 0 <= i < xs.len() implies no_newline(#[trigger] xs[i]) && mentions_any(
        strip_cr(xs[i]),
        pats,
    ) by {
        if i == 0 {
            assert(xs[i] == e1);
        } else {
            assert(xs[i] == e2);
        }
    }
    lemma_unset_appended(s, xs, pats);
}

} // verus!

verus! {

/// Unsetting the APT proxy undoes setting it: for `apt.conf` text that is
/// empty or ends with a line terminator and mentions neither
/// `Acquire::http::proxy` nor `Acquire::https::proxy`, and a URL without line
/// terminators, setting appends something, and unsetting the result gives
/// the text's lines joined with `"\n"`.
pub proof fn law_apt_unset_undoes_set(s: Seq<char>, u: Seq<char>)
    requires
        s.len() == 0 || s.last() == '\n',
        !contains(s, "Acquire::http::proxy"@),
        !contains(s, "Acquire::https::proxy"@),
        no_newline(u),
    ensures
        apt_addition(s, u) is Some,
        without_lines_mentioning(s + added(apt_addition(s, u)), apt_patterns()) == join(
            lines(s),
            newline(),
        ),
{
    reveal_strlit("Acquire::http::proxy");
    reveal_strlit("Acquire::https::proxy");
    reveal_strlit("Acquire::http::proxy \"");
    reveal_strlit("Acquire::https::proxy \"");
    reveal_strlit(" \"");
    reveal_strlit("\";");
    reveal_strlit("\n");
    let pats = apt_patterns();
    let e1 = apt_entry(u);
    let e2 = apt_https_entry(u);
    let r = " \""@ + u + "\";"@;
    assert(e1 =~= "Acquire::http::proxy"@ + r);
    assert(e2 =~= "Acquire::https::proxy"@ + r);
    if contains(s, e1) {
        lemma_contains_shorter(s, "Acquire::http::proxy"@, r);
    }
    if contains(s, e2) {
        lemma_contains_shorter(s, "Acquire::https::proxy"@, r);
    }
    assert forall|j: int| 0 <= j < pats.len() implies !contains(s, #[trigger] pats[j]) by {}
    let xs = Seq::<Seq<char>>::empty().push(e1).push(e2);
    lemma_terminated_push(Seq::<Seq<char>>::empty(), e1);
    lemma_terminated_push(Seq::<Seq<char>>::empty().push(e1), e2);
    assert(added(apt_addition(s, u)) =~= terminated(xs));
    assert(no_newline(" \""@));
    assert(no_newline("\";"@));
    assert(no_newline("Acquire::http::proxy"@));
    assert(no_newline("Acquire::https::proxy"@));
    lemma_no_newline_concat(" \""@, u);
    lemma_no_newline_concat(" \""@ + u, "\";"@);
    lemma_no_newline_concat("Acquire::http::proxy"@, r);
    lemma_no_newline_concat("Acquire::https::proxy"@, r);
    lemma_strip_cr_keeps_prefix("Acquire::http::proxy"@, r);
    lemma_strip_cr_keeps_prefix("Acquire::https::proxy"@, r);
    assert(mentions_any(strip_cr(e1), pats)) by {
        assert(contains(strip_cr(e1), pats[0]));
    }
    assert(mentions_any(strip_cr(e2), pats)) by {
        assert(contains(strip_cr(e2), pats[1]));
    }
    assert forall|i: int| 0 <= i < xs.len() implies no_newline(#[trigger] xs[i]) && mentions_any(
        strip_cr(xs[i]),
        pats,
    ) by {
        if i == 0 {
            assert(xs[i] == e1);
        } else {
            assert(xs[i] == e2);
        }
    }
    lemma_unset_appended(s, xs, pats);
}

/// The lines that setting a shell proxy appends after the blank line.
pub open spec fn shell_added_lines(u: Seq<char>) -> Seq<Seq<char>> {
    seq![
        "# Proxy settings"@,
        shell_http_entry(u),
        shell_http_lower_entry(u),
        shell_https_entry(u),
        shell_https_lower_entry(u),
    ]
}

proof fn lemma_shell_addition_shape(s: Seq<char>, u: Seq<char>)
    requires
        !contains(s, shell_http_entry(u)),
        !contains(s, shell_https_entry(u)),
    ensures
        s + added(shell_addition(s, u)) == s + newline() + terminated(shell_added_lines(u)),
{
    reveal_strlit("\n# Proxy settings\n");
    reveal_strlit("# Proxy settings");
    reveal_strlit("\n");
    let xs = shell_added_lines(u);
    let x0 = Seq::<Seq<char>>::empty();
    let x1 = x0.push(xs[0]);
    let x2 = x1.push(xs[1]);
    let x3 = x2.push(xs[2]);
    let x4 = x3.push(xs[3]);
    assert(x4.push(xs[4]) =~= xs);
    lemma_terminated_push(x0, xs[0]);
    lemma_terminated_push(x1, xs[1]);
    lemma_terminated_push(x2, xs[2]);
    lemma_terminated_push(x3, xs[3]);
    lemma_terminated_push(x4, xs[4]);
    assert(s + added(shell_addition(s, u)) =~= s + newline() + terminated(xs));
}

proof fn lemma_shell_added_lines(u: Seq<char>)
    requires
        no_newline(u),
    ensures
        forall|i: int|
            0 <= i < shell_added_lines(u).len() ==> no_newline(#[trigger] shell_added_lines(u)[i])
                && mentions_any(strip_cr(shell_added_lines(u)[i]), shell_patterns()),
{
    reveal_strlit("export HTTP_PROXY=");
    reveal_strlit("export http_proxy=");
    reveal_strlit("export HTTPS_PROXY=");
    reveal_strlit("export https_proxy=");
    reveal_strlit("# Proxy settings");
    let pats = shell_patterns();
    let xs = shell_added_lines(u);
    assert forall|i: int| 0 <= i < xs.len() implies no_newline(#[trigger] xs[i]) && mentions_any(
        strip_cr(xs[i]),
        pats,
    ) by {
        let (p, v) = if i == 0 {
            (pats[4], Seq::<char>::empty())
        } else {
            (pats[i - 1], u)
        };
        assert(xs[i] =~= p + v);
        assert(no_newline(p));
        lemma_no_newline_concat(p, v);
        lemma_strip_cr_keeps_prefix(p, v);
        if i == 0 {
            assert(contains(strip_cr(xs[i]), pats[4]));
        } else {
            assert(contains(strip_cr(xs[i]), pats[i - 1]));
        }
    }
}

/// Unsetting a shell proxy undoes setting it: for start-up file text without
/// carriage returns that mentions none of the proxy exports nor the
/// `# Proxy settings` comment, and a URL without line terminators, setting
/// appends something, and unsetting the result gives back the text.
pub proof fn law_shell_unset_undoes_set(s: Seq<char>, u: Seq<char>)
    requires
        forall|i: int| 0 <= i < s.len() ==> #[trigger] s[i] != '\r',
        forall|j: int| 0 <= j < shell_patterns().len() ==> !contains(s, #[trigger] shell_patterns()[j]),
        no_newline(u),
    ensures
        shell_addition(s, u) is Some,
        without_lines_mentioning(s + added(shell_addition(s, u)), shell_patterns()) == s,
{
    reveal_strlit("export HTTP_PROXY=");
    reveal_strlit("export http_proxy=");
    reveal_strlit("export HTTPS_PROXY=");
    reveal_strlit("export https_proxy=");
    reveal_strlit("# Proxy settings");
    let pats = shell_patterns();
    assert(!contains(s, pats[0]));
    assert(!contains(s, pats[2]));
    if contains(s, shell_http_entry(u)) {
        lemma_contains_shorter(s, "export HTTP_PROXY="@, u);
    }
    if contains(s, shell_https_entry(u)) {
        lemma_contains_shorter(s, "export HTTPS_PROXY="@, u);
    }
    lemma_shell_addition_shape(s, u);
    lemma_shell_added_lines(u);
    assert forall|j: int| 0 <= j < pats.len() implies (#[trigger] pats[j]).len() > 0 && no_newline(
        pats[j],
    ) && !contains(s, pats[j]) by {}
    lemma_unset_appended_after_newline(s, shell_added_lines(u), pats);
}

} // verus!

verus! {

use crate::lines::lemma_kept_is_filter;

/// Unsetting the npm proxy keeps exactly the lines of `.npmrc` that contain
/// neither `proxy=` nor `https-proxy=`, in their order, joined with `"\n"`.
pub proof fn law_npm_unset_keeps_other_lines(content: Seq<char>)
    ensures
        without_lines_mentioning(content, npm_patterns()) == join(
            lines(content).filter(
                |l: Seq<char>| !contains(l, "proxy="@) && !contains(l, "https-proxy="@),
            ),
            newline(),
        ),
{
    let keep = |l: Seq<char>| !contains(l, "proxy="@) && !contains(l, "https-proxy="@);
    let pats = npm_patterns();
    assert forall|l: Seq<char>| #[trigger] keep(l) == !mentions_any(l, pats) by {
        if contains(l, "proxy="@) {
            assert(contains(l, pats[0]));
        }
        if contains(l, "https-proxy="@) {
            assert(contains(l, pats[1]));
        }
    }
    lemma_kept_is_filter(lines(content), pats, keep);
}

/// Unsetting a shell proxy keeps exactly the lines of the start-up file that
/// contain none of `export HTTP_PROXY=`, `export http_proxy=`,
/// `export HTTPS_PROXY=`, `export https_proxy=` and `# Proxy settings`, in
/// their order, joined with `"\n"`.
pub proof fn law_shell_unset_keeps_other_lines(content: Seq<char>)
    ensures
        without_lines_mentioning(content, shell_patterns()) == join(
            lines(content).filter(
                |l: Seq<char>|
                    !contains(l, "export HTTP_PROXY="@) && !contains(l, "export http_proxy="@)
                        && !contains(l, "export HTTPS_PROXY="@) && !contains(
                        l,
                        "export https_proxy="@,
                    ) && !contains(l, "# Proxy settings"@),
            ),
            newline(),
        ),
{
    let keep = |l: Seq<char>|
        !contains(l, "export HTTP_PROXY="@) && !contains(l, "export http_proxy="@) && !contains(
            l,
            "export HTTPS_PROXY="@,
        ) && !contains(l, "export https_proxy="@) && !contains(l, "# Proxy settings"@);
    let pats = shell_patterns();
    assert forall|l: Seq<char>| #[trigger] keep(l) == !mentions_any(l, pats) by {
        if contains(l, "export HTTP_PROXY="@) {
            assert(contains(l, pats[0]));
        }
        if contains(l, "export http_proxy="@) {
            assert(contains(l, pats[1]));
        }
        if contains(l, "export HTTPS_PROXY="@) {
            assert(contains(l, pats[2]));
        }
        if contains(l, "export https_proxy="@) {
            assert(contains(l, pats[3]));
        }
        if contains(l, "# Proxy settings"@) {
            assert(contains(l, pats[4]));
        }
    }
    lemma_kept_is_filter(lines(content), pats, keep);
}

/// Unsetting the APT proxy keeps exactly the lines of `apt.conf` that
/// contain neither `Acquire::http::proxy` nor `Acquire::https::proxy`, in
/// their order, joined with `"\n"`.
pub proof fn law_apt_unset_keeps_other_lines(content: Seq<char>)
    ensures
        without_lines_mentioning(content, apt_patterns()) == join(
            lines(content).filter(
                |l: Seq<char>|
                    !contains(l, "Acquire::http::proxy"@) && !contains(
                        l,
                        "Acquire::https::proxy"@,
                    ),
            ),
            newline(),
        ),
{
    let keep = |l: Seq<char>|
        !contains(l, "Acquire::http::proxy"@) && !contains(l, "Acquire::https::proxy"@);
    let pats = apt_patterns();
    assert forall|l: Seq<char>| #[trigger] keep(l) == !mentions_any(l, pats) by {
        if contains(l, "Acquire::http::proxy"@) {
            assert(contains(l, pats[0]));
        }
        if contains(l, "Acquire::https::proxy"@) {
            assert(contains(l, pats[1]));
        }
    }
    lemma_kept_is_filter(lines(content), pats, keep);
}

} // verus!

verus! {

/// Setting the npm proxy appends exactly the entries that `.npmrc` lacks,
/// `proxy=URL` before `https-proxy=URL`, each on a line of its own, and
/// nothing when it holds both.
pub proof fn law_npm_set_appends_missing_entries(content: Seq<char>, url: Seq<char>)
    ensures
        ({
            let http = "proxy="@ + url;
            let https = "https-proxy="@ + url;
            let has_http = contains(content, http);
            let has_https = contains(content, https);
            &&& has_http && has_https ==> npm_addition(content, url) is None
            &&& has_http && !has_https ==> npm_addition(content, url) == Some(https + "\n"@)
            &&& !has_http && has_https ==> npm_addition(content, url) == Some(http + "\n"@)
            &&& !has_http && !has_https ==> npm_addition(content, url) == Some(
                http + "\n"@ + https + "\n"@,
            )
        }),
{
    let http = "proxy="@ + url;
    let https = "https-proxy="@ + url;
    assert(Seq::<char>::empty() + (https + "\n"@) =~= https + "\n"@);
    assert((http + "\n"@) + Seq::<char>::empty() =~= http + "\n"@);
    assert((http + "\n"@) + (https + "\n"@) =~= http + "\n"@ + https + "\n"@);
}

/// Setting a shell proxy appends, after a blank line and `# Proxy settings`,
/// the upper- and lower-case exports of each variable that the start-up
/// file does not export as the URL (`HTTP_PROXY`/`http_proxy` before
/// `HTTPS_PROXY`/`https_proxy`), and nothing when it exports both.
pub proof fn law_shell_set_appends_missing_exports(content: Seq<char>, url: Seq<char>)
    ensures
        ({
            let header = "\n# Proxy settings\n"@;
            let http = "export HTTP_PROXY="@ + url + "\n"@ + "export http_proxy="@ + url + "\n"@;
            let https = "export HTTPS_PROXY="@ + url + "\n"@ + "export https_proxy="@ + url
                + "\n"@;
            let has_http = contains(content, "export HTTP_PROXY="@ + url);
            let has_https = contains(content, "export HTTPS_PROXY="@ + url);
            &&& has_http && has_https ==> shell_addition(content, url) is None
            &&& has_http && !has_https ==> shell_addition(content, url) == Some(header + https)
            &&& !has_http && has_https ==> shell_addition(content, url) == Some(header + http)
            &&& !has_http && !has_https ==> shell_addition(content, url) == Some(
                header + http + https,
            )
        }),
{
    let header = "\n# Proxy settings\n"@;
    let http = "export HTTP_PROXY="@ + url + "\n"@ + "export http_proxy="@ + url + "\n"@;
    let https = "export HTTPS_PROXY="@ + url + "\n"@ + "export https_proxy="@ + url + "\n"@;
    assert(header + Seq::<char>::empty() + https =~= header + https);
    assert(header + http + Seq::<char>::empty() =~= header + http);
}

/// Setting the APT proxy appends exactly the entries that `apt.conf` lacks,
/// `Acquire::http::proxy "URL";` before `Acquire::https::proxy "URL";`, each
/// on a line of its own, and nothing when it holds both.
pub proof fn law_apt_set_appends_missing_entries(content: Seq<char>, url: Seq<char>)
    ensures
        ({
            let http = "Acquire::http::proxy \""@ + url + "\";"@;
            let https = "Acquire::https::proxy \""@ + url + "\";"@;
            let has_http = contains(content, http);
            let has_https = contains(content, https);
            &&& has_http && has_https ==> apt_addition(content, url) is None
            &&& has_http && !has_https ==> apt_addition(content, url) == Some(https + "\n"@)
            &&& !has_http && has_https ==> apt_addition(content, url) == Some(http + "\n"@)
            &&& !has_http && !has_https ==> apt_addition(content, url) == Some(
                http + "\n"@ + https + "\n"@,
            )
        }),
{
    let http = "Acquire::http::proxy \""@ + url + "\";"@;
    let https = "Acquire::https::proxy \""@ + url + "\";"@;
    assert(Seq::<char>::empty() + (https + "\n"@) =~= https + "\n"@);
    assert((http + "\n"@) + Seq::<char>::empty() =~= http + "\n"@);
    assert((http + "\n"@) + (https + "\n"@) =~= http + "\n"@ + https + "\n"@);
}

} // verus!
