//! The home directory whose start-up files the proxy settings go into.
use vstd::prelude::*;
use crate::proxy::colon;
use crate::text::{chars_of, opt_view, split, split_chars, string_of, text_or, trim, trim_chars, views};

verus! {

/// The home directory field of a `getent passwd` entry: the sixth
/// `':'`-separated field, trimmed; `None` when it is missing or blank.
pub open spec fn passwd_home(entry: Seq<char>) -> Option<Seq<char>> {
    let fields = split(entry, colon());
    let field = if fields.len() > 5 {
        fields[5]
    } else {
        Seq::empty()
    };
    if trim(field).len() > 0 {
        Some(trim(field))
    } else {
        None
    }
}

/// The home directory that a `getent passwd` entry names, if any.
pub fn passwd_home_field(entry: &str) -> (r: Option<String>)
    ensures
        r matches Some(h) ==> passwd_home(entry@) == Some(h@),
        r is None ==> passwd_home(entry@) is None,
{
    let e = chars_of(entry);
    let sep: Vec<char> = vec![':'];
    assert(sep@ == colon());
    let fields = split_chars(&e, &sep);
    let field: Vec<char> = if fields.len() > 5 {
        assert(views(fields@)[5] == fields@[5]@);
        fields[5].clone()
    } else {
        Vec::new()
    };
    let t = trim_chars(&field);
    if t.len() > 0 {
        Some(string_of(&t))
    } else {
        None
    }
}

/// `std::path::PathBuf`, carried through unread.
#[verifier::external_type_specification]
#[verifier::external_body]
pub struct ExPathBuf(std::path::PathBuf);

/// `dirs::home_dir`. What it returns depends on the environment (`$HOME`)
/// and the user database, and on some targets it may be an empty path, so
/// nothing is stated of it.
#[verifier::external_body]
fn dirs_home_dir() -> (r: Option<std::path::PathBuf>) {
    dirs::home_dir()
}

/// A home directory: text that names it, or a path found by `dirs`, kept as
/// `dirs` gave it.
pub enum UserHome {
    Text(String),
    Path(std::path::PathBuf),
}

/// `r` is the Linux home directory: the one from the `getent passwd` entry
/// of the user who ran `sudo` when that names one, else the path `dirs`
/// found, else `/home`.
pub open spec fn is_linux_home(
    r: UserHome,
    passwd: Option<Seq<char>>,
    dirs_home: Option<std::path::PathBuf>,
) -> bool {
    match passwd {
        Some(h) => r matches UserHome::Text(t) && t@ == h,
        None => match dirs_home {
            Some(p) => r == UserHome::Path(p),
            None => r matches UserHome::Text(t) && t@ == "/home"@,
        },
    }
}

/// The Linux home directory chosen from what was found.
pub fn choose_linux_home(passwd: Option<String>, dirs_home: Option<std::path::PathBuf>) -> (r:
    UserHome)
    ensures
        is_linux_home(r, opt_view(passwd), dirs_home),
{
    match passwd {
        Some(h) => UserHome::Text(h),
        None => match dirs_home {
            Some(p) => UserHome::Path(p),
            None => UserHome::Text(string_of(&chars_of("/home"))),
        },
    }
}

/// The Linux home directory, given the `getent passwd` entry of the user
/// who ran `sudo` (`None` when the program was not run through `sudo`).
/// `dirs` is asked only when the entry names no home directory.
pub fn getUserHome(sudo_passwd_entry: Option<&str>) -> (r: UserHome)
    ensures
        sudo_passwd_entry matches Some(e) ==> (passwd_home(e@) matches Some(h) ==> r matches UserHome::Text(t) && t@ == h),
        !(sudo_passwd_entry matches Some(e) && passwd_home(e@) is Some) ==> !(r matches UserHome::Text(t) && t@ != "/home"@),
{
    let passwd = match sudo_passwd_entry {
        Some(e) => passwd_home_field(e),
        None => None,
    };
    match passwd {
        Some(h) => UserHome::Text(h),
        None => choose_linux_home(None, dirs_home_dir()),
    }
}

/// The macOS home directory: `$HOME`, else `/Users/`.
pub fn mac_user_home(home: Option<String>) -> (r: String)
    ensures
        r@ == text_or(home, "/Users/"@),
{
    match home {
        Some(h) => h,
        None => string_of(&chars_of("/Users/")),
    }
}

/// The Windows home directory: `%USERPROFILE%`, else `%HOMEDRIVE%` (default
/// `C:`) followed by `%HOMEPATH%` (default `\Users\Default`).
pub fn windows_user_home(
    profile: Option<String>,
    home_drive: Option<String>,
    home_path: Option<String>,
) -> (r: String)
    ensures
        r@ == match profile {
            Some(p) => p@,
            None => text_or(home_drive, "C:"@) + text_or(home_path, "\\Users\\Default"@),
        },
{
    match profile {
        Some(p) => p,
        None => {
            let mut out = match home_drive {
                Some(d) => chars_of(d.as_str()),
                None => chars_of("C:"),
            };
            let rest = match home_path {
                Some(p) => chars_of(p.as_str()),
                None => chars_of("\\Users\\Default"),
            };
            out.extend_from_slice(rest.as_slice());
            string_of(&out)
        },
    }
}

} // verus!
