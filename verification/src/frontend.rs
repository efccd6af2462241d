//! What the viewers decide before talking to a server: the server's
//! address and token (from the page's query, the browser's memory, the
//! page's own directory, or a default), and the texts of the progress row.

use vstd::prelude::*;
use vstd::string::*;
use crate::text::{
    chars_of, decimal, format_two_digits, format_u64, nonblank, rfind_char, rfind_char_in, trim,
    trim_end_char, trim_trailing_slashes, zero_padded,
};

verus! {

broadcast use vstd::string::group_string_axioms;

/// The server a viewer talks to when nothing else names one.
pub const DEFAULT_SERVER: &'static str = "http://127.0.0.1:8787";

/// The directory of the page at `pathname`: the path up to its last `/`
/// (empty without one).
pub open spec fn path_directory(pathname: Seq<char>) -> Seq<char> {
    match rfind_char(pathname, '/') {
        Some(end) => pathname.take(end as int),
        None => Seq::empty(),
    }
}

/// The directory a page lives in, as a URL without its trailing slash:
/// the origin plus the path up to its last `/` (`/` → the origin,
/// `/odeon/` and `/odeon/index.html` → `<origin>/odeon`).
pub fn page_directory(origin: &str, pathname: &str) -> (r: String)
    ensures
        r@ == trim_end_char(origin@, '/') + path_directory(pathname@),
{
    let mut s = String::from_str(trim_trailing_slashes(origin));
    let v = chars_of(pathname);
    match rfind_char_in(&v, '/') {
        Some(end) => {
            proof {
                lemma_rfind_fits(v@, '/');
            }
            let dir = pathname.substring_char(0, end);
            s.append(dir);
        },
        None => {},
    }
    s
}

proof fn lemma_rfind_fits(s: Seq<char>, c: char)
    ensures
        rfind_char(s, c) matches Some(i) ==> i < s.len(),
    decreases s.len(),
{
    if s.len() > 0 && s.last() != c {
        lemma_rfind_fits(s.drop_last(), c);
    }
}

/// An optional reading, blank meaning unset: the value trimmed.
pub open spec fn reading(raw: Option<Seq<char>>) -> Option<Seq<char>> {
    match raw {
        Some(v) => if trim(v).len() > 0 { Some(trim(v)) } else { None },
        None => None,
    }
}

/// The text of an optional string.
pub open spec fn opt_text(s: Option<String>) -> Option<Seq<char>> {
    match s {
        Some(v) => Some(v@),
        None => None,
    }
}

/// An optional reading (a query parameter, a remembered value, an
/// environment variable): trimmed, and unset when blank.
pub fn read_setting(raw: Option<&str>) -> (r: Option<String>)
    ensures
        opt_text(r) == reading(match raw { Some(v) => Some(v@), None => None }),
{
    match raw {
        Some(v) => nonblank(v),
        None => None,
    }
}

/// The query parameter when present (to be remembered for the next visit:
/// the second value), else the remembered value (nothing to remember).
pub fn setting(query: Option<String>, remembered: Option<String>) -> (r: (Option<String>, bool))
    ensures
        opt_text(r.0) == (if query is Some { opt_text(query) } else { opt_text(remembered) }),
        r.1 == query is Some,
{
    match query {
        Some(q) => (Some(q), true),
        None => (remembered, false),
    }
}

/// The server's URL: the setting (query parameter or remembered value),
/// else the page's own directory, else the local default.
pub fn server_url(setting: Option<String>, page: Option<(&str, &str)>) -> (r: String)
    ensures
        r@ == match setting {
            Some(s) => s@,
            None => match page {
                Some((origin, pathname)) => trim_end_char(origin@, '/') + path_directory(pathname@),
                None => DEFAULT_SERVER@,
            },
        },
{
    match setting {
        Some(s) => s,
        None => match page {
            Some((origin, pathname)) => page_directory(origin, pathname),
            None => String::from_str(DEFAULT_SERVER),
        },
    }
}

/// The token: the setting, else none (empty).
pub fn token(setting: Option<String>) -> (r: String)
    ensures
        r@ == match setting {
            Some(s) => s@,
            None => Seq::<char>::empty(),
        },
{
    match setting {
        Some(s) => s,
        None => String::new(),
    }
}

/// The raw text of an optional value.
pub open spec fn raw_of(raw: Option<&str>) -> Option<Seq<char>> {
    match raw {
        Some(v) => Some(v@),
        None => None,
    }
}

/// The setting from the raw query parameter and the raw remembered value:
/// the query's reading when present, else the remembered reading.
pub open spec fn chosen(query: Option<&str>, remembered: Option<&str>) -> Option<Seq<char>> {
    if reading(raw_of(query)) is Some {
        reading(raw_of(query))
    } else {
        reading(raw_of(remembered))
    }
}

/// The page's token from the raw `?token=` parameter and the raw
/// remembered token: the parameter (trimmed, when not blank), else the
/// remembered one, else none (empty); and the value to remember for the
/// next visit, the parameter's when it was used.
pub fn token_setting(query: Option<&str>, remembered: Option<&str>) -> (r: (String, Option<String>))
    ensures
        r.0@ == match chosen(query, remembered) {
            Some(t) => t,
            None => Seq::<char>::empty(),
        },
        opt_text(r.1) == reading(raw_of(query)),
{
    let q = read_setting(query);
    let m = read_setting(remembered);
    let remember = q.clone();
    let (value, _) = setting(q, m);
    (token(value), remember)
}

/// The page's server from the raw `?server=` parameter, the raw
/// remembered URL and the page's own address: the parameter, else the
/// remembered URL, else the page's directory, else the local default; and
/// the value to remember, the parameter's when it was used.
pub fn server_setting(query: Option<&str>, remembered: Option<&str>, page: Option<(&str, &str)>) -> (r: (String, Option<String>))
    ensures
        r.0@ == match chosen(query, remembered) {
            Some(u) => u,
            None => match page {
                Some((origin, pathname)) => trim_end_char(origin@, '/') + path_directory(pathname@),
                None => DEFAULT_SERVER@,
            },
        },
        opt_text(r.1) == reading(raw_of(query)),
{
    let q = read_setting(query);
    let m = read_setting(remembered);
    let remember = q.clone();
    let (value, _) = setting(q, m);
    (server_url(value, page), remember)
}

/// The token sent with a job: the token trimmed, none when blank.
pub fn bearer(token: &str) -> (r: Option<String>)
    ensures
        opt_text(r) == reading(Some(token@)),
{
    nonblank(token)
}

/// A duration of `s` whole seconds, human-readable: `"42 s"`,
/// `"3 min 05 s"`, `"1 h 12 min"`.
pub open spec fn duration_text(s: nat) -> Seq<char> {
    if s < 60 {
        decimal(s) + " s"@
    } else if s < 3600 {
        decimal(s / 60) + " min "@ + zero_padded(s % 60, 2) + " s"@
    } else {
        decimal(s / 3600) + " h "@ + zero_padded((s % 3600) / 60, 2) + " min"@
    }
}

/// Human-readable duration of `s` whole seconds.
pub fn format_duration(s: u64) -> (r: String)
    ensures
        r@ == duration_text(s as nat),
{
    if s < 60 {
        let mut t = format_u64(s);
        t.append(" s");
        t
    } else if s < 3600 {
        let mut t = format_u64(s / 60);
        t.append(" min ");
        t.append(format_two_digits(s % 60).as_str());
        t.append(" s");
        t
    } else {
        let mut t = format_u64(s / 3600);
        t.append(" h ");
        t.append(format_two_digits((s % 3600) / 60).as_str());
        t.append(" min");
        t
    }
}

} // verus!
