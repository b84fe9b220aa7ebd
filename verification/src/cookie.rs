use vstd::prelude::*;

use crate::chars::chars_of;
use crate::text::{decimal, decimal_string, string_of, trim, trimmed_bounds};

verus! {

/// Name of the session cookie: the one Lithair's session extractor reads.
pub const SESSION_COOKIE: &'static str = "session_token";

/// How long a login lasts before the editor has to sign in again.
pub const SESSION_HOURS: u64 = 12;

/// What a `Cookie` header part starts with when it carries the session.
pub open spec fn session_cookie_prefix() -> Seq<char> {
    SESSION_COOKIE@ + "="@
}

/// Whether `s` begins with `prefix`.
pub open spec fn starts_with(s: Seq<char>, prefix: Seq<char>) -> bool {
    prefix.len() <= s.len() && s.take(prefix.len() as int) == prefix
}

/// Where the `;`-separated part that begins at `i` ends.
pub open spec fn next_separator(s: Seq<char>, i: int) -> int
    decreases s.len() - i,
{
    if i < 0 || i >= s.len() {
        s.len() as int
    } else if s[i] == ';' {
        i
    } else {
        next_separator(s, i + 1)
    }
}

/// A part ends at or after where it starts, and within the header.
pub proof fn lemma_next_separator_bounds(s: Seq<char>, i: int)
    requires
        0 <= i <= s.len(),
    ensures
        i <= next_separator(s, i) <= s.len(),
    decreases s.len() - i,
{
    if i < s.len() && s[i] != ';' {
        lemma_next_separator_bounds(s, i + 1);
    }
}

/// Of the `;`-separated parts of `header` from position `start` on, the
/// first that begins with `session_token=` once trimmed: what follows that.
pub open spec fn first_session_value(header: Seq<char>, start: int) -> Option<Seq<char>>
    decreases header.len() - start,
    when 0 <= start <= header.len()
{
    let end = next_separator(header, start);
    let part = trim(header.subrange(start, end));
    if starts_with(part, session_cookie_prefix()) {
        Some(part.skip(session_cookie_prefix().len() as int))
    } else if end >= header.len() {
        None
    } else {
        proof {
            lemma_next_separator_bounds(header, start);
        }
        first_session_value(header, end + 1)
    }
}

/// The session token a `Cookie` header presents: the value of the first part
/// named `session_token`, unless that value is empty.
pub open spec fn session_token_in(header: Seq<char>) -> Option<Seq<char>> {
    match first_session_value(header, 0) {
        Some(v) => if v.len() > 0 {
            Some(v)
        } else {
            None
        },
        None => None,
    }
}

fn has_prefix(v: &Vec<char>, a: usize, b: usize, p: &Vec<char>) -> (r: bool)
    requires
        a <= b <= v@.len(),
    ensures
        r == starts_with(v@.subrange(a as int, b as int), p@),
{
    let ghost s = v@.subrange(a as int, b as int);
    if p.len() > b - a {
        return false;
    }
    let mut k: usize = 0;
    while k < p.len()
        invariant
            p@.len() <= b - a,
            a <= b <= v@.len(),
            s == v@.subrange(a as int, b as int),
            k <= p@.len(),
            forall|j: int| 0 <= j < k ==> s[j] == p@[j],
        decreases p@.len() - k,
    {
        if v[a + k] != p[k] {
            proof {
                assert(s.take(p@.len() as int)[k as int] != p@[k as int]);
            }
            return false;
        }
        k = k + 1;
    }
    proof {
        assert(s.take(p@.len() as int) =~= p@);
    }
    true
}

/// The session token carried by a `Cookie` header's value, if any.
///
/// The parts of the header are separated by `;` and trimmed; the first one
/// named `session_token` decides, and an empty value is no token.
pub fn session_token_from_cookie(header: &str) -> (token: Option<String>)
    ensures
        token is Some <==> session_token_in(header@) is Some,
        token matches Some(t) ==> session_token_in(header@) == Some(t@),
{
    let v = chars_of(header);
    let mut name = String::from_str(SESSION_COOKIE);
    name.append("=");
    let p = chars_of(name.as_str());
    let n = v.len();
    let mut start: usize = 0;
    loop
        invariant
            n == v@.len(),
            v@ == header@,
            p@ == session_cookie_prefix(),
            start <= n,
            first_session_value(v@, 0) == first_session_value(v@, start as int),
        decreases n - start,
    {
        let mut end = start;
        while end < n && v[end] != ';'
            invariant
                n == v@.len(),
                start <= end <= n,
                next_separator(v@, start as int) == next_separator(v@, end as int),
            decreases n - end,
        {
            end = end + 1;
        }
        proof {
            assert(next_separator(v@, end as int) == end);
        }
        let (a, b) = trimmed_bounds(&v, start, end);
        if has_prefix(&v, a, b, &p) {
            proof {
                let part = v@.subrange(a as int, b as int);
                assert(part.skip(p@.len() as int) =~= v@.subrange(a + p@.len(), b as int));
            }
            if a + p.len() < b {
                return Some(string_of(&v, a + p.len(), b));
            } else {
                return None;
            }
        }
        if end >= n {
            return None;
        }
        start = end + 1;
    }
}

/// The `Set-Cookie` value that hands a browser its session: HttpOnly, strict
/// same-site, secure, and lasting as long as the session does.
pub open spec fn session_set_cookie(token: Seq<char>) -> Seq<char> {
    session_cookie_prefix() + token + "; Path=/; HttpOnly; SameSite=Strict; Secure; Max-Age="@
        + decimal((SESSION_HOURS * 3600) as nat)
}

/// The `Set-Cookie` value that clears the session cookie.
pub open spec fn session_clear_cookie() -> Seq<char> {
    session_cookie_prefix() + "; Path=/; HttpOnly; SameSite=Strict; Secure; Max-Age=0"@
}

/// The `Set-Cookie` header value for a new session.
pub fn set_session_cookie(token: &str) -> (cookie: String)
    ensures
        cookie@ == session_set_cookie(token@),
{
    let mut cookie = String::from_str(SESSION_COOKIE);
    cookie.append("=");
    cookie.append(token);
    cookie.append("; Path=/; HttpOnly; SameSite=Strict; Secure; Max-Age=");
    let age = decimal_string(SESSION_HOURS * 3600);
    cookie.append(age.as_str());
    cookie
}

/// The `Set-Cookie` header value that ends a session in the browser.
pub fn clear_session_cookie() -> (cookie: String)
    ensures
        cookie@ == session_clear_cookie(),
{
    let mut cookie = String::from_str(SESSION_COOKIE);
    cookie.append("=");
    cookie.append("; Path=/; HttpOnly; SameSite=Strict; Secure; Max-Age=0");
    cookie
}

} // verus!
