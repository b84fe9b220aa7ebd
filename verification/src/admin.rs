use vstd::prelude::*;

use crate::chars::chars_of;
use crate::cookie::starts_with;

use lithair_core::security::PasswordError;

verus! {

/// Requests per second, per IP, allowed on the sign-in under the admin prefix.
pub const LOGIN_QPS: u64 = 10;

#[verifier::external_type_specification]
#[verifier::external_body]
pub struct ExPasswordError(PasswordError);

/// What `lithair_core::security::verify_password` returns for a password and
/// a stored Argon2 hash: `Some(matches)`, or `None` for its error. A function
/// of the two strings alone.
pub uninterp spec fn argon2_verify(password: Seq<char>, hash: Seq<char>) -> Option<bool>;

/// Calls `lithair_core::security::verify_password`, its error turned into `None`.
/// The hashes handed to it are the ones `hash_password` made at start-up; a
/// hash whose parameters ask for more memory than the machine has would make
/// Argon2's allocation fail, which the contract does not describe.
#[verifier::external_body]
fn verify_password(password: &str, hash: &str) -> (matches: Option<bool>)
    ensures
        matches == argon2_verify(password@, hash@),
{
    lithair_core::security::verify_password(password, hash).ok()
}

/// Calls `lithair_core::security::hash_password`, which hashes with Argon2id
/// under a random salt. The contract claims only what that crate documents of
/// a hash it made: verifying the same password against it succeeds. Which
/// salt was drawn, and so which string came back, is left unsaid.
#[verifier::external_body]
fn hash_password(password: &str) -> (hash: Result<String, PasswordError>)
    ensures
        hash matches Ok(h) ==> argon2_verify(password@, h@) == Some(true),
{
    lithair_core::security::hash_password(password)
}

/// Why the server refuses to start.
pub enum ConfigError {
    /// No admin password was given: the panel would have no lock.
    MissingPassword,
    /// The admin route does not start with `/`.
    RouteWithoutLeadingSlash,
    /// The password could not be hashed.
    HashFailed(PasswordError),
}

/// Checks the admin settings in the order the server does, and hashes the
/// password once so that every sign-in compares with Argon2.
///
/// The hash draws its salt from the operating system's random source; when
/// that source is unavailable, lithair's salt generation panics rather than
/// reporting an error. That comes from the machine and no `requires` can rule
/// it out.
pub fn admin_password_hash(password: Option<String>, admin_route: &str) -> (hash: Result<String, ConfigError>)
    ensures
        hash matches Err(ConfigError::MissingPassword) <==> password is None,
        hash matches Err(ConfigError::RouteWithoutLeadingSlash) <==> (password is Some && !starts_with(
            admin_route@,
            "/"@,
        )),
        hash matches Err(ConfigError::HashFailed(_)) ==> password is Some && starts_with(admin_route@, "/"@),
        hash matches Ok(h) ==> password matches Some(p) && starts_with(admin_route@, "/"@) && argon2_verify(
            p@,
            h@,
        ) == Some(true),
{
    let password = match password {
        None => return Err(ConfigError::MissingPassword),
        Some(p) => p,
    };
    let slash = route_has_leading_slash(admin_route);
    if !slash {
        return Err(ConfigError::RouteWithoutLeadingSlash);
    }
    match hash_password(password.as_str()) {
        Ok(h) => Ok(h),
        Err(e) => Err(ConfigError::HashFailed(e)),
    }
}

fn route_has_leading_slash(route: &str) -> (slash: bool)
    ensures
        slash == starts_with(route@, "/"@),
{
    proof {
        reveal_strlit("/");
    }
    if route.unicode_len() == 0 {
        return false;
    }
    let c = route.get_char(0);
    proof {
        if c == '/' {
            assert(route@.take(1) =~= "/"@);
        } else {
            assert(route@.take(1)[0] != "/"@[0]);
        }
    }
    c == '/'
}

/// A sign-in attempt as the login form sends it.
pub struct Credentials {
    pub username: String,
    pub password: String,
}

/// Whether two strings hold the same characters.
pub fn same_text(a: &str, b: &str) -> (same: bool)
    ensures
        same == (a@ == b@),
{
    let v = chars_of(a);
    let w = chars_of(b);
    if v.len() != w.len() {
        return false;
    }
    let n = v.len();
    let mut i: usize = 0;
    while i < n
        invariant
            v@ == a@,
            w@ == b@,
            n == v@.len(),
            n == w@.len(),
            i <= n,
            forall|j: int| 0 <= j < i ==> v@[j] == w@[j],
        decreases n - i,
    {
        if v[i] != w[i] {
            assert(v@[i as int] != w@[i as int]);
            return false;
        }
        i = i + 1;
    }
    assert(v@ =~= w@);
    true
}

/// The user that a sign-in opens a session for: the admin, when both the
/// name and the password match. Nothing when the form could not be read.
pub open spec fn admitted(
    creds: Option<(Seq<char>, Seq<char>)>,
    admin_user: Seq<char>,
    admin_password_hash: Seq<char>,
) -> Option<Seq<char>> {
    match creds {
        None => None,
        Some((user, password)) => if user == admin_user && argon2_verify(password, admin_password_hash) == Some(true) {
            Some(user)
        } else {
            None
        },
    }
}

/// Decides a sign-in. The password is checked even when the name is wrong, so
/// that a bad name and a bad password take the same time to refuse.
pub fn sign_in_user(creds: Option<Credentials>, admin_user: &str, admin_password_hash: &str) -> (user: Option<String>)
    ensures
        ({
            let given = match creds {
                Some(c) => Some((c.username@, c.password@)),
                None => None,
            };
            &&& user is Some <==> admitted(given, admin_user@, admin_password_hash@) is Some
            &&& user matches Some(u) ==> admitted(given, admin_user@, admin_password_hash@) == Some(u@)
        }),
{
    match creds {
        None => None,
        Some(c) => {
            let verified = verify_password(c.password.as_str(), admin_password_hash);
            let password_ok = match verified {
                Some(ok) => ok,
                None => false,
            };
            let name_ok = same_text(c.username.as_str(), admin_user);
            if name_ok && password_ok {
                Some(c.username)
            } else {
                None
            }
        },
    }
}

} // verus!
