//! The credential store and the Basic-auth gate.
//!
//! Credentials are provisioned out of band as a flat text document, one
//! line per user: the username, whitespace, then a self-describing salted
//! password hash (algorithm, parameters, salt and digest encoded
//! together).  Verification is read-only and never fails: every
//! malformed or unknown input simply verifies to `false`.
//!
//! The Basic-auth check also closes the authorization gap: the
//! authenticated username must equal the username in the request path,
//! and must be canonical, before any credential lookup happens.

use vstd::prelude::*;
use argon2::PasswordVerifier;
use crate::chars::{chars_of_str, find_ch, find_ch_from, range_eq_str, seq_starts_with,
    str_starts_with, string_of_range};
use crate::record::{spec_valid_username, validate_username};

verus! {

/// A whitespace character inside a credential line.
pub open spec fn is_ws(c: char) -> bool {
    c == ' ' || c == '\t' || c == '\r'
}

/// The first whitespace position in `s[i..e]`, or `e` if there is none.
pub open spec fn find_ws_in(s: Seq<char>, i: int, e: int) -> int
    decreases e - i,
{
    if i < 0 || i >= e || i >= s.len() {
        e
    } else if is_ws(s[i]) {
        i
    } else {
        find_ws_in(s, i + 1, e)
    }
}

/// The first non-whitespace position in `s[i..e]`, or `e` if there is
/// none.
pub open spec fn skip_ws_in(s: Seq<char>, i: int, e: int) -> int
    decreases e - i,
{
    if i < 0 || i >= e || i >= s.len() {
        e
    } else if !is_ws(s[i]) {
        i
    } else {
        skip_ws_in(s, i + 1, e)
    }
}

/// The end of `s[i..e]` with trailing whitespace dropped.
pub open spec fn trim_ws_end(s: Seq<char>, i: int, e: int) -> int
    decreases e - i,
{
    if e <= i || e < 1 || e > s.len() {
        e
    } else if is_ws(s[e - 1]) {
        trim_ws_end(s, i, e - 1)
    } else {
        e
    }
}

/// Look `user` up in the credential document from position `i` on: the
/// first line whose leading token is exactly `user` yields its hash (the
/// rest of the line, surrounding whitespace dropped); a line without a
/// hash never matches.
pub open spec fn db_lookup_from(db: Seq<char>, user: Seq<char>, i: int) -> Option<Seq<char>>
    decreases db.len() - i,
{
    if i < 0 || i >= db.len() {
        None
    } else {
        let e = find_ch(db, '\n', i);
        let t = find_ws_in(db, i, e);
        let h0 = skip_ws_in(db, t, e);
        let h1 = trim_ws_end(db, h0, e);
        if db.subrange(i, t) == user && h0 < h1 {
            Some(db.subrange(h0, h1))
        } else {
            if i < e + 1 && e + 1 <= db.len() {
                db_lookup_from(db, user, e + 1)
            } else {
                None
            }
        }
    }
}

/// The stored hash for `user`, if any.
pub open spec fn spec_db_lookup(db: Seq<char>, user: Seq<char>) -> Option<Seq<char>> {
    db_lookup_from(db, user, 0)
}

/// What `base64::decode` returns: a function of the input string alone.
pub uninterp spec fn b64_decoded(s: Seq<char>) -> Option<Seq<u8>>;

/// Relies on `base64::decode` (standard alphabet with padding): whether
/// a string decodes, and to which bytes, depends on the string alone.
#[verifier::external_body]
fn base64_decode(s: &str) -> (r: Option<Vec<u8>>)
    ensures
        match r {
            Some(v) => b64_decoded(s@) == Some(v@),
            None => b64_decoded(s@) is None,
        },
{
    base64::decode(s).ok()
}

/// What `std::str::from_utf8` returns: a function of the bytes alone.
pub uninterp spec fn utf8_decoded(b: Seq<u8>) -> Option<Seq<char>>;

/// Relies on `std::str::from_utf8`: whether a byte sequence is valid
/// UTF-8, and which characters it decodes to, depends on the bytes
/// alone.
#[verifier::external_body]
fn bytes_as_str(b: &Vec<u8>) -> (r: Option<&str>)
    ensures
        match r {
            Some(t) => utf8_decoded(b@) == Some(t@),
            None => utf8_decoded(b@) is None,
        },
{
    std::str::from_utf8(b).ok()
}

/// Whether a password verifies against a stored hash string: a function
/// of the two alone.
pub uninterp spec fn argon2_verifies(hash: Seq<char>, password: Seq<char>) -> bool;

/// Relies on `argon2::PasswordHash::new` and
/// `argon2::Argon2::verify_password`: the verifier recomputes the digest
/// with the algorithm, version, parameters and salt embedded in the hash
/// string, so the outcome depends on the hash string and the password
/// alone.  A hash string that does not parse verifies nothing.
#[verifier::external_body]
fn argon2_verify(hash: &str, password: &str) -> (r: bool)
    ensures
        r == argon2_verifies(hash@, password@),
{
    match argon2::PasswordHash::new(hash) {
        Ok(parsed) => argon2::Argon2::new(
            argon2::Algorithm::Argon2i,
            argon2::Version::default(),
            argon2::Params::default(),
        ).verify_password(password.as_bytes(), &parsed).is_ok(),
        Err(_) => false,
    }
}

/// Whether `password` verifies for `user` against the credential
/// document `db`: `false` whenever the user has no entry.
pub open spec fn spec_verify(db: Seq<char>, user: Seq<char>, password: Seq<char>) -> bool {
    match spec_db_lookup(db, user) {
        Some(h) => argon2_verifies(h, password),
        None => false,
    }
}

/// Split `user:password` credentials at their single colon; more or
/// fewer colons are malformed.
pub open spec fn spec_split_credentials(creds: Seq<char>) -> Option<(Seq<char>, Seq<char>)> {
    let fc = find_ch(creds, ':', 0);
    if fc >= creds.len() {
        None
    } else if find_ch(creds, ':', fc + 1) < creds.len() {
        None
    } else {
        Some((creds.subrange(0, fc), creds.subrange(fc + 1, creds.len() as int)))
    }
}

/// Whether an `Authorization` header authenticates *and* authorizes a
/// mutation of `path_user`'s record against the credential document
/// `db`: the header carries well-formed basic credentials, the
/// credential username is canonical and equal to `path_user`, and the
/// password verifies against that user's stored hash.  Everything else
/// is `false`, never an error.
pub open spec fn spec_basic_auth(
    header: Option<Seq<char>>,
    db: Seq<char>,
    path_user: Seq<char>,
) -> bool {
    match header {
        None => false,
        Some(h) => seq_starts_with(h, "Basic "@) && match b64_decoded(
            h.subrange("Basic "@.len() as int, h.len() as int),
        ) {
            None => false,
            Some(bytes) => match utf8_decoded(bytes) {
                None => false,
                Some(creds) => match spec_split_credentials(creds) {
                    None => false,
                    Some(up) => up.0 == path_user && spec_valid_username(up.0) && spec_verify(
                        db,
                        up.0,
                        up.1,
                    ),
                },
            },
        },
    }
}

/// A header authenticates at most one username: credentials that
/// authorize `u1` authorize nobody else.
pub proof fn lemma_auth_exclusive(h: Option<Seq<char>>, db: Seq<char>, u1: Seq<char>, u2: Seq<char>)
    requires
        spec_basic_auth(h, db, u1),
        u1 != u2,
    ensures
        !spec_basic_auth(h, db, u2),
{
}

/// The read-only credential store: the provisioned credential document,
/// looked up line by line.
pub struct CredentialStore {
    db: Vec<char>,
}

impl View for CredentialStore {
    type V = Seq<char>;

    closed spec fn view(&self) -> Seq<char> {
        self.db@
    }
}

/// The first whitespace position in `v[i..e]`, or `e`.
fn find_ws_in_exec(v: &Vec<char>, i: usize, e: usize) -> (r: usize)
    requires
        i <= e <= v@.len(),
    ensures
        r as int == find_ws_in(v@, i as int, e as int),
        i <= r <= e,
{
    let mut j = i;
    while j < e && v[j] != ' ' && v[j] != '\t' && v[j] != '\r'
        invariant
            i <= j <= e <= v@.len(),
            find_ws_in(v@, i as int, e as int) == find_ws_in(v@, j as int, e as int),
        decreases e - j,
    {
        j = j + 1;
    }
    j
}

/// The first non-whitespace position in `v[i..e]`, or `e`.
fn skip_ws_in_exec(v: &Vec<char>, i: usize, e: usize) -> (r: usize)
    requires
        i <= e <= v@.len(),
    ensures
        r as int == skip_ws_in(v@, i as int, e as int),
        i <= r <= e,
{
    let mut j = i;
    while j < e && (v[j] == ' ' || v[j] == '\t' || v[j] == '\r')
        invariant
            i <= j <= e <= v@.len(),
            skip_ws_in(v@, i as int, e as int) == skip_ws_in(v@, j as int, e as int),
        decreases e - j,
    {
        j = j + 1;
    }
    j
}

/// The end of `v[i..e]` with trailing whitespace dropped.
fn trim_ws_end_exec(v: &Vec<char>, i: usize, e: usize) -> (r: usize)
    requires
        i <= e <= v@.len(),
    ensures
        r as int == trim_ws_end(v@, i as int, e as int),
        i <= r <= e,
{
    let mut j = e;
    while j > i && (v[j - 1] == ' ' || v[j - 1] == '\t' || v[j - 1] == '\r')
        invariant
            i <= j <= e <= v@.len(),
            trim_ws_end(v@, i as int, e as int) == trim_ws_end(v@, i as int, j as int),
        decreases j,
    {
        j = j - 1;
    }
    j
}

/// Look a username up from line start `i` on.
fn lookup_from_exec(v: &Vec<char>, user: &str, i: usize) -> (r: Option<String>)
    requires
        i <= v@.len(),
    ensures
        match r {
            Some(h) => db_lookup_from(v@, user@, i as int) == Some(h@),
            None => db_lookup_from(v@, user@, i as int) is None,
        },
    decreases v@.len() - i,
{
    if i >= v.len() {
        return None;
    }
    let e = find_ch_from(v, '\n', i);
    let t = find_ws_in_exec(v, i, e);
    let h0 = skip_ws_in_exec(v, t, e);
    let h1 = trim_ws_end_exec(v, h0, e);
    if range_eq_str(v, i, t, user) && h0 < h1 {
        Some(string_of_range(v, h0, h1))
    } else {
        if e < v.len() {
            lookup_from_exec(v, user, e + 1)
        } else {
            None
        }
    }
}

impl CredentialStore {
    /// A store over the given credential document.
    pub fn new(db_text: &str) -> (r: CredentialStore)
        ensures
            r@ == db_text@,
    {
        CredentialStore { db: chars_of_str(db_text) }
    }

    /// The stored hash for `username`, if it has an entry.
    pub fn lookup_hash(&self, username: &str) -> (r: Option<String>)
        ensures
            match r {
                Some(h) => spec_db_lookup(self@, username@) == Some(h@),
                None => spec_db_lookup(self@, username@) is None,
            },
    {
        lookup_from_exec(&self.db, username, 0)
    }

    /// Verify `password` for `username` against the stored hash.
    /// Returns `false`, never an error, for an unknown user, a line
    /// without a hash, a hash that does not parse, or a wrong password.
    pub fn verify(&self, username: &str, password: &str) -> (r: bool)
        ensures
            r == spec_verify(self@, username@, password@),
    {
        match self.lookup_hash(username) {
            Some(h) => argon2_verify(h.as_str(), password),
            None => false,
        }
    }
}

/// Decide `spec_basic_auth`: whether `header` carries well-formed basic
/// credentials whose canonical username equals `path_username` and whose
/// password verifies against that user's entry in `creds`.
pub fn check_basic_auth(header: Option<&str>, path_username: &str, creds: &CredentialStore) -> (r:
    bool)
    ensures
        r == spec_basic_auth(
            match header {
                Some(h) => Some(h@),
                None => None,
            },
            creds@,
            path_username@,
        ),
{
    let h = match header {
        Some(h) => h,
        None => {
            return false;
        },
    };
    if !str_starts_with(h, "Basic ") {
        return false;
    }
    proof {
        reveal_strlit("Basic ");
    }
    let hl = h.unicode_len();
    let rest = h.substring_char(6, hl);
    let bytes = match base64_decode(rest) {
        Some(b) => b,
        None => {
            return false;
        },
    };
    let creds_str = match bytes_as_str(&bytes) {
        Some(t) => t,
        None => {
            return false;
        },
    };
    let cv = chars_of_str(creds_str);
    let n = cv.len();
    let fc = find_ch_from(&cv, ':', 0);
    if fc >= n {
        return false;
    }
    let fc2 = find_ch_from(&cv, ':', fc + 1);
    if fc2 < n {
        return false;
    }
    if !range_eq_str(&cv, 0, fc, path_username) {
        return false;
    }
    let user = string_of_range(&cv, 0, fc);
    let pass = string_of_range(&cv, fc + 1, n);
    if !validate_username(user.as_str()) {
        return false;
    }
    creds.verify(user.as_str(), pass.as_str())
}

} // verus!
