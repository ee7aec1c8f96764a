//! Web client addresses and the files kept for it.

use vstd::prelude::*;
use vstd::string::*;

use crate::config::{is_space, whitespace, Config};
use crate::text::{decimal_of, join, join_path, push_decimal, same_text};

verus! {

/// The address of the web client: over TLS at the machine's address
/// `local_ip` when certificates are in use, else plain HTTP on localhost.
pub open spec fn web_url_text(port: u16, token: Seq<char>, use_ssl: bool, local_ip: Seq<char>) -> Seq<char> {
    if use_ssl {
        "https://"@ + local_ip + ":"@ + decimal_of(port as nat) + "/?token="@ + token
    } else {
        "http://localhost:"@ + decimal_of(port as nat) + "/?token="@ + token
    }
}

/// The address of the web client with its token.
pub fn web_url(port: u16, token: &str, use_ssl: bool, local_ip: &str) -> (r: String)
    ensures
        r@ == web_url_text(port, token@, use_ssl, local_ip@),
{
    let mut r: String;
    if use_ssl {
        r = String::from_str("https://");
        r.append(local_ip);
        r.append(":");
    } else {
        r = String::from_str("http://localhost:");
    }
    push_decimal(&mut r, port as u64);
    r.append("/?token=");
    r.append(token);
    r
}

/// The file that holds the web client's address, `web_url` in the default
/// directory.
pub fn web_url_path() -> (r: String)
    ensures
        exists|b: Seq<char>| r@ == join_path(join_path(b, "gzc"@), "web_url"@),
{
    join(Config::default_dir().as_str(), "web_url")
}

/// The directory of the certificates, `ssl` in the default directory.
pub fn ssl_dir() -> (r: String)
    ensures
        exists|b: Seq<char>| r@ == join_path(join_path(b, "gzc"@), "ssl"@),
{
    join(Config::default_dir().as_str(), "ssl")
}

/// The certificate file, `cert.pem` in the certificate directory.
pub fn ssl_cert_path() -> (r: String)
    ensures
        exists|b: Seq<char>| r@ == join_path(join_path(join_path(b, "gzc"@), "ssl"@), "cert.pem"@),
{
    join(ssl_dir().as_str(), "cert.pem")
}

/// The key file, `key.pem` in the certificate directory.
pub fn ssl_key_path() -> (r: String)
    ensures
        exists|b: Seq<char>| r@ == join_path(join_path(join_path(b, "gzc"@), "ssl"@), "key.pem"@),
{
    join(ssl_dir().as_str(), "key.pem")
}

/// Whether `pat` occurs in `s` at position `p`.
pub open spec fn occurs_at(s: Seq<char>, p: int, pat: Seq<char>) -> bool {
    0 <= p && p + pat.len() <= s.len() && s.subrange(p, p + pat.len()) == pat
}

/// The first position at or after `from` where `pat` occurs in `s`.
pub open spec fn first_at(s: Seq<char>, from: int, pat: Seq<char>) -> Option<int>
    decreases s.len() - from,
{
    if from < 0 || from + pat.len() > s.len() {
        None
    } else if occurs_at(s, from, pat) {
        Some(from)
    } else if from >= s.len() {
        None
    } else {
        first_at(s, from + 1, pat)
    }
}

/// A position that `first_at` finds is one where the pattern occurs.
pub proof fn lemma_first_at_occurs(s: Seq<char>, from: int, pat: Seq<char>)
    ensures
        first_at(s, from, pat) matches Some(p) ==> from <= p && occurs_at(s, p, pat),
    decreases s.len() - from,
{
    if from >= 0 && from + pat.len() <= s.len() && !occurs_at(s, from, pat) && from < s.len() {
        lemma_first_at_occurs(s, from + 1, pat);
    }
}

/// The first position at or after `from` where `pat` occurs in `s`.
pub fn find_from(s: &str, from: usize, pat: &str) -> (r: Option<usize>)
    ensures
        match r {
            Some(p) => first_at(s@, from as int, pat@) == Some(p as int),
            None => first_at(s@, from as int, pat@) is None,
        },
    decreases s@.len() - from,
{
    let n = s.unicode_len();
    let m = pat.unicode_len();
    if from > n || m > n - from {
        return None;
    }
    let mut k: usize = 0;
    while k < m
        invariant
            n == s@.len(),
            m == pat@.len(),
            from + m <= n,
            k <= m,
            forall|j: int| 0 <= j < k ==> s@[from + j] == pat@[j],
        decreases m - k,
    {
        if s.get_char(from + k) != pat.get_char(k) {
            let r = find_from(s, from + 1, pat);
            assert(!occurs_at(s@, from as int, pat@)) by {
                if occurs_at(s@, from as int, pat@) {
                    assert(s@.subrange(from as int, from + m)[k as int] == s@[from + k]);
                }
            }
            return r;
        }
        k = k + 1;
    }
    assert(s@.subrange(from as int, from + m) =~= pat@);
    Some(from)
}

/// The web address with the session name put before its query: from
/// `base/?token=T` to `base/session?token=T`; an address without the query
/// stays as it is.
pub open spec fn with_session_text(url: Seq<char>, session: Seq<char>) -> Seq<char> {
    match first_at(url, 0, "/?token="@) {
        Some(p) => url.subrange(0, p) + "/"@ + session + "?token="@ + url.subrange(p + 8, url.len() as int),
        None => url,
    }
}

/// The web address with the session name put before its query.
pub fn url_with_session(url: &str, session: &str) -> (r: String)
    ensures
        r@ == with_session_text(url@, session@),
{
    proof {
        reveal_strlit("/?token=");
    }
    match find_from(url, 0, "/?token=") {
        Some(p) => {
            proof {
                lemma_first_at_occurs(url@, 0, "/?token="@);
            }
            let n = url.unicode_len();
            let mut r = String::from_str(url.substring_char(0, p));
            r.append("/");
            r.append(session);
            r.append("?token=");
            r.append(url.substring_char(p + 8, n));
            r
        },
        None => String::from_str(url),
    }
}

/// The end of the line that starts at `a`: the next newline, or the end.
pub open spec fn line_end(s: Seq<char>, a: int) -> int
    decreases s.len() - a,
{
    if a < 0 || a >= s.len() {
        s.len() as int
    } else if s[a] == '\n' {
        a
    } else {
        line_end(s, a + 1)
    }
}

/// `t` without the white space at either end.
pub open spec fn trimmed(t: Seq<char>) -> Seq<char>
    decreases t.len(),
{
    if t.len() == 0 {
        t
    } else if whitespace(t[0]) {
        trimmed(t.drop_first())
    } else if whitespace(t.last()) {
        trimmed(t.drop_last())
    } else {
        t
    }
}

/// The token a line announces, if it is a line `token_N: T`: the text
/// after the first `: ` up to the next one, trimmed.
pub open spec fn line_token(line: Seq<char>) -> Option<Seq<char>> {
    if line.len() >= 6 && line.subrange(0, 6) == "token_"@ {
        match first_at(line, 0, ": "@) {
            Some(q) => {
                let end = match first_at(line, q + 2, ": "@) {
                    Some(e) => e,
                    None => line.len() as int,
                };
                Some(trimmed(line.subrange(q + 2, end)))
            },
            None => None,
        }
    } else {
        None
    }
}

/// The token announced by the first line, from `a` on, that announces one.
pub open spec fn token_from(s: Seq<char>, a: int) -> Option<Seq<char>>
    decreases s.len() - a,
{
    if a < 0 || a > s.len() {
        None
    } else {
        let b = line_end(s, a);
        if b < a || b > s.len() {
            None
        } else {
            match line_token(s.subrange(a, b)) {
                Some(t) => Some(t),
                None => if b >= s.len() {
                    None
                } else {
                    token_from(s, b + 1)
                },
            }
        }
    }
}

/// The end of the line of `s` that starts at `a`.
fn line_end_exec(s: &str, a: usize) -> (r: usize)
    requires
        a <= s@.len(),
    ensures
        r as int == line_end(s@, a as int),
        a <= r <= s@.len(),
{
    let n = s.unicode_len();
    let mut i: usize = a;
    while i < n && s.get_char(i) != '\n'
        invariant
            n == s@.len(),
            a <= i <= n,
            line_end(s@, a as int) == line_end(s@, i as int),
        decreases n - i,
    {
        i = i + 1;
    }
    i
}

/// `t` without the white space at either end.
fn trim_text(t: &str) -> (r: String)
    ensures
        r@ == trimmed(t@),
    decreases t@.len(),
{
    let n = t.unicode_len();
    if n == 0 {
        return String::from_str(t);
    }
    if is_space(t.get_char(0)) {
        let rest = t.substring_char(1, n);
        assert(rest@ =~= t@.drop_first());
        return trim_text(rest);
    }
    if is_space(t.get_char(n - 1)) {
        let rest = t.substring_char(0, n - 1);
        assert(rest@ =~= t@.drop_last());
        return trim_text(rest);
    }
    String::from_str(t)
}

/// The token a line announces, if it is a line `token_N: T`.
fn line_token_exec(line: &str) -> (r: Option<String>)
    ensures
        match r {
            Some(t) => line_token(line@) == Some(t@),
            None => line_token(line@) is None,
        },
{
    proof {
        reveal_strlit("token_");
        reveal_strlit(": ");
    }
    let n = line.unicode_len();
    if n < 6 || !same_text(line.substring_char(0, 6), "token_") {
        return None;
    }
    match find_from(line, 0, ": ") {
        Some(q) => {
            proof {
                lemma_first_at_occurs(line@, 0, ": "@);
            }
            let end = match find_from(line, q + 2, ": ") {
                Some(e) => {
                    proof {
                        lemma_first_at_occurs(line@, q + 2, ": "@);
                    }
                    e
                },
                None => n,
            };
            Some(trim_text(line.substring_char(q + 2, end)))
        },
        None => None,
    }
}

/// The web login token in the output of the token command: from the first
/// line `token_N: T`, the text `T` trimmed.
pub fn token_from_output(out: &str) -> (r: Option<String>)
    ensures
        match r {
            Some(t) => token_from(out@, 0) == Some(t@),
            None => token_from(out@, 0) is None,
        },
{
    let n = out.unicode_len();
    let mut a: usize = 0;
    loop
        invariant
            n == out@.len(),
            a <= n,
            token_from(out@, 0) == token_from(out@, a as int),
        decreases n - a,
    {
        let b = line_end_exec(out, a);
        let line = out.substring_char(a, b);
        match line_token_exec(line) {
            Some(t) => {
                return Some(t);
            },
            None => {},
        }
        if b >= n {
            return None;
        }
        a = b + 1;
    }
}

} // verus!
