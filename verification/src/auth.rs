//! Who may use the web interface: its password, its sessions and the cookie that carries one.

use sha2::Digest;
use vstd::prelude::*;
use vstd::utf8::*;

use crate::config::Config;
use crate::model;
use crate::paths;
use crate::text;

verus! {

// ---------------------------------------------------------------------------
// Digests and random values
// ---------------------------------------------------------------------------

/// The SHA-256 digest of bytes.
pub uninterp spec fn sha256_of(bytes: Seq<u8>) -> Seq<u8>;

/// Calls `sha2::Sha256::digest`. The digest has 32 bytes and is a function of the bytes alone; the
/// contract names it and says nothing of how it is computed.
#[verifier::external_body]
fn sha256(bytes: &Vec<u8>) -> (digest: Vec<u8>)
    ensures
        digest@ == sha256_of(bytes@),
        digest@.len() == 32,
{
    sha2::Sha256::digest(bytes.as_slice()).to_vec()
}

/// Calls `rand::random` for 32 bytes. The bytes are a matter of chance, so nothing is said of them but
/// how many they are.
#[verifier::external_body]
fn random_bytes() -> (bytes: Vec<u8>)
    ensures
        bytes@.len() == 32,
{
    rand::random::<[u8; 32]>().to_vec()
}

/// A hexadecimal digit.
pub open spec fn hex_digit(n: int) -> char {
    "0123456789abcdef"@[n]
}

/// The hexadecimal form of bytes, two digits for each.
pub open spec fn hex_of(bytes: Seq<u8>) -> Seq<char> {
    Seq::new(
        2 * bytes.len(),
        |i: int|
            if i % 2 == 0 {
                hex_digit(bytes[i / 2] as int / 16)
            } else {
                hex_digit(bytes[i / 2] as int % 16)
            },
    )
}

/// The hexadecimal form of the bytes.
pub fn hex(bytes: &Vec<u8>) -> (result: String)
    ensures
        result@ == hex_of(bytes@),
{
    let digits = text::chars_of("0123456789abcdef");
    proof {
        reveal_strlit("0123456789abcdef");
    }
    let mut out = String::new();
    let mut at: usize = 0;
    while at < bytes.len()
        invariant
            at <= bytes@.len(),
            digits@ == "0123456789abcdef"@,
            digits@.len() == 16,
            out@ == hex_of(bytes@.take(at as int)),
        decreases bytes@.len() - at,
    {
        let high: usize = (bytes[at] / 16) as usize;
        let low: usize = (bytes[at] % 16) as usize;
        let ghost before = out@;
        out.push(digits[high]);
        out.push(digits[low]);
        proof {
            let next = bytes@.take(at + 1);
            assert(out@.len() == hex_of(next).len());
            assert forall|i: int| 0 <= i < out@.len() implies out@[i] == #[trigger] hex_of(next)[i] by {
                if i < before.len() {
                    assert(hex_of(bytes@.take(at as int))[i] == hex_of(next)[i]);
                } else if i == before.len() {
                    assert(i == 2 * at);
                } else {
                    assert(i == 2 * at + 1);
                }
            }
            assert(out@ =~= hex_of(next));
        }
        at = at + 1;
    }
    assert(bytes@.take(at as int) =~= bytes@);
    out
}

/// The hexadecimal form of 32 bytes that are a matter of chance.
pub fn random_hex() -> (result: String)
    ensures
        exists|bytes: Seq<u8>| bytes.len() == 32 && result@ == #[trigger] hex_of(bytes),
{
    let bytes = random_bytes();
    hex(&bytes)
}

fn chained(first: &[u8], second: &[u8]) -> (bytes: Vec<u8>)
    ensures
        bytes@ == first@ + second@,
{
    let mut bytes: Vec<u8> = Vec::new();
    let mut at: usize = 0;
    while at < first.len()
        invariant
            at <= first@.len(),
            bytes@ == first@.take(at as int),
        decreases first@.len() - at,
    {
        bytes.push(first[at]);
        at = at + 1;
        assert(bytes@ =~= first@.take(at as int));
    }
    assert(first@.take(at as int) =~= first@);
    at = 0;
    while at < second.len()
        invariant
            at <= second@.len(),
            bytes@ == first@ + second@.take(at as int),
        decreases second@.len() - at,
    {
        bytes.push(second[at]);
        at = at + 1;
        assert(bytes@ =~= first@ + second@.take(at as int));
    }
    assert(second@.take(at as int) =~= second@);
    bytes
}

// ---------------------------------------------------------------------------
// Passwords and sessions
// ---------------------------------------------------------------------------

/// How often the digest of a password is taken again.
pub const PASSWORD_ROUNDS: u32 = 100_000;

/// The digest of a password after rounds, each over the salt and the digest before it.
pub open spec fn stretched(salt: Seq<char>, password: Seq<char>, rounds: nat) -> Seq<u8>
    decreases rounds,
{
    if rounds == 0 {
        sha256_of(encode_utf8(salt) + encode_utf8(password))
    } else {
        sha256_of(encode_utf8(salt) + stretched(salt, password, (rounds - 1) as nat))
    }
}

/// What is stored of a password.
pub open spec fn password_digest(salt: Seq<char>, password: Seq<char>) -> Seq<char> {
    hex_of(stretched(salt, password, PASSWORD_ROUNDS as nat))
}

/// What is stored of a session.
pub open spec fn session_digest(token: Seq<char>) -> Seq<char> {
    hex_of(sha256_of(encode_utf8(token)))
}

/// What is stored of the password.
pub fn password_hash(salt: &str, password: &str) -> (hash: String)
    ensures
        hash@ == password_digest(salt@, password@),
{
    let salt_bytes = salt.as_bytes();
    let mut bytes = sha256(&chained(salt_bytes, password.as_bytes()));
    let mut round: u32 = 0;
    while round < PASSWORD_ROUNDS
        invariant
            round <= PASSWORD_ROUNDS,
            salt_bytes@ == encode_utf8(salt@),
            bytes@ == stretched(salt@, password@, round as nat),
        decreases PASSWORD_ROUNDS - round,
    {
        bytes = sha256(&chained(salt_bytes, bytes.as_slice()));
        round = round + 1;
    }
    hex(&bytes)
}

/// What is stored of the session.
pub fn session_hash(token: &str) -> (hash: String)
    ensures
        hash@ == session_digest(token@),
{
    let none: Vec<u8> = Vec::new();
    let bytes = chained(token.as_bytes(), none.as_slice());
    assert(bytes@ =~= encode_utf8(token@));
    hex(&sha256(&bytes))
}

/// The cookie that starts a session.
pub open spec fn session_cookie(token: Seq<char>) -> Seq<char> {
    "bender_auth="@ + token + "; Path=/; Max-Age=2592000; SameSite=Lax; HttpOnly"@
}

/// The cookie that starts a session.
pub fn auth_cookie(token: &str) -> (cookie: String)
    ensures
        cookie@ == session_cookie(token@),
{
    "bender_auth=".to_string().concat(token).concat("; Path=/; Max-Age=2592000; SameSite=Lax; HttpOnly")
}

/// The cookie that ends a session.
pub fn logout_cookie() -> (cookie: String)
    ensures
        cookie@ == "bender_auth=; Path=/; Max-Age=0; SameSite=Lax; HttpOnly"@,
{
    "bender_auth=; Path=/; Max-Age=0; SameSite=Lax; HttpOnly".to_string()
}

/// The value of a cookie, where a piece of the header gives it.
pub open spec fn piece_value(piece: Seq<char>, name: Seq<char>) -> Option<Seq<char>> {
    match text::split_at_first(text::trimmed(piece), '=') {
        Some(parts) => if parts.0 == name {
            Some(parts.1)
        } else {
            None
        },
        None => None,
    }
}

/// The value that the first of the pieces with the cookie gives.
pub open spec fn first_value(pieces: Seq<Seq<char>>, name: Seq<char>) -> Option<Seq<char>>
    decreases pieces.len(),
{
    if pieces.len() == 0 {
        None
    } else if piece_value(pieces.first(), name) is Some {
        piece_value(pieces.first(), name)
    } else {
        first_value(pieces.drop_first(), name)
    }
}

/// The value of a cookie in the header that carries the cookies.
pub open spec fn cookie_in(cookies: Option<Seq<char>>, name: Seq<char>) -> Option<Seq<char>> {
    match cookies {
        Some(header) => first_value(paths::split_of(header, ';'), name),
        None => None,
    }
}

/// The value of the cookie in the header that carries the cookies.
pub fn cookie_value(cookies: Option<&str>, name: &str) -> (value: Option<String>)
    ensures
        model::view_of(value) == cookie_in(model::view_of(cookies), name@),
{
    let header = match cookies {
        Some(header) => header,
        None => {
            return None;
        },
    };
    let pieces = paths::split(header, ';');
    let ghost all = text::texts(pieces@);
    let mut at: usize = 0;
    assert(all.skip(0) =~= all);
    while at < pieces.len()
        invariant
            at <= pieces@.len(),
            all == text::texts(pieces@),
            cookies is Some,
            all == paths::split_of(cookies->0@, ';'),
            first_value(all, name@) == first_value(all.skip(at as int), name@),
        decreases pieces@.len() - at,
    {
        proof {
            let rest = all.skip(at as int);
            assert(rest.first() == pieces@[at as int]@);
            assert(rest.drop_first() =~= all.skip(at + 1));
        }
        if let Some(parts) = text::split_once(text::trim(pieces[at].as_str()).as_str(), '=') {
            if text::same(parts.0.as_str(), name) {
                return Some(parts.1);
            }
        }
        at = at + 1;
    }
    None
}

// ---------------------------------------------------------------------------
// Signing in and out
// ---------------------------------------------------------------------------

/// Why a request to the web interface is refused before it is looked at.
#[derive(Debug, Clone, Copy, PartialEq, Eq, Structural)]
pub enum AuthError {
    LoginRequired,
    ShortPassword,
    SaltMissing,
    InvalidPassword,
}

impl AuthError {
    /// The message of the error.
    pub open spec fn text(self) -> Seq<char> {
        match self {
            AuthError::LoginRequired => "login required"@,
            AuthError::ShortPassword => "password must be at least 8 characters"@,
            AuthError::SaltMissing => "auth salt missing"@,
            AuthError::InvalidPassword => "invalid password"@,
        }
    }

    /// The message of the error.
    pub fn message(&self) -> (message: String)
        ensures
            message@ == self.text(),
    {
        match self {
            AuthError::LoginRequired => "login required".to_string(),
            AuthError::ShortPassword => "password must be at least 8 characters".to_string(),
            AuthError::SaltMissing => "auth salt missing".to_string(),
            AuthError::InvalidPassword => "invalid password".to_string(),
        }
    }

    /// The status of the answer: unauthorized where a login is required, else a bad request.
    pub fn status(&self) -> (status: u16)
        ensures
            status == (if *self is LoginRequired {
                401u16
            } else {
                400u16
            }),
    {
        match self {
            AuthError::LoginRequired => 401,
            _ => 400,
        }
    }
}

/// Whether a request with the cookies belongs to the current session.
pub open spec fn authenticated(config: Config, cookies: Option<Seq<char>>) -> bool {
    &&& config.auth_password_hash is Some
    &&& config.auth_session_hash is Some
    &&& cookie_in(cookies, "bender_auth"@) is Some
    &&& session_digest(cookie_in(cookies, "bender_auth"@)->0) == config.auth_session_hash->0@
}

/// Whether the request with the cookies belongs to the current session.
pub fn is_authenticated(config: &Config, cookies: Option<&str>) -> (answer: bool)
    ensures
        answer == authenticated(*config, model::view_of(cookies)),
{
    if config.auth_password_hash.is_none() {
        return false;
    }
    let token = match cookie_value(cookies, "bender_auth") {
        Some(token) => token,
        None => {
            return false;
        },
    };
    match &config.auth_session_hash {
        Some(expected) => text::same(session_hash(token.as_str()).as_str(), expected.as_str()),
        None => false,
    }
}

/// Accepts a request that belongs to the current session.
pub fn require_auth(config: &Config, cookies: Option<&str>) -> (result: Result<(), AuthError>)
    ensures
        result == if authenticated(*config, model::view_of(cookies)) {
            Ok::<(), AuthError>(())
        } else {
            Err::<(), AuthError>(AuthError::LoginRequired)
        },
{
    if is_authenticated(config, cookies) {
        Ok(())
    } else {
        Err(AuthError::LoginRequired)
    }
}

/// Why a password is refused, where it is. The first one that is long enough is accepted.
pub open spec fn login_fault(config: Config, password: Seq<char>) -> Option<AuthError> {
    let given = text::trimmed(password);
    if encode_utf8(given).len() < 8 {
        Some(AuthError::ShortPassword)
    } else {
        match (config.auth_password_hash, config.auth_salt) {
            (None, _) => None,
            (Some(_), None) => Some(AuthError::SaltMissing),
            (Some(expected), Some(salt)) => if password_digest(salt@, given) == expected@ {
                None
            } else {
                Some(AuthError::InvalidPassword)
            },
        }
    }
}

/// Whether a configuration is another one after a login: with the session, and with the password
/// where there was none.
pub open spec fn logged_in(before: Config, password: Seq<char>, salt: Seq<char>, token: Seq<char>, after: Config) -> bool {
    &&& after == (Config {
        auth_salt: after.auth_salt,
        auth_password_hash: after.auth_password_hash,
        auth_session_hash: after.auth_session_hash,
        ..before
    })
    &&& after.auth_session_hash is Some
    &&& after.auth_session_hash->0@ == session_digest(token)
    &&& if before.auth_password_hash is None {
        &&& after.auth_salt is Some
        &&& after.auth_salt->0@ == salt
        &&& after.auth_password_hash is Some
        &&& after.auth_password_hash->0@ == password_digest(salt, text::trimmed(password))
    } else {
        &&& after.auth_salt == before.auth_salt
        &&& after.auth_password_hash == before.auth_password_hash
    }
}

/// Signs in with a password, with the salt to take where the password is the first one and the
/// token of the new session. Gives the cookie that starts it.
pub fn login(config: &mut Config, password: &str, salt: &str, token: &str) -> (result: Result<String, AuthError>)
    ensures
        match login_fault(*old(config), password@) {
            Some(error) => result == Err::<String, AuthError>(error) && *final(config) == *old(config),
            None => {
                &&& result is Ok
                &&& result->Ok_0@ == session_cookie(token@)
                &&& logged_in(*old(config), password@, salt@, token@, *final(config))
            },
        },
{
    let given = text::trim(password);
    if given.as_str().as_bytes().len() < 8 {
        return Err(AuthError::ShortPassword);
    }
    match &config.auth_password_hash {
        None => {
            config.auth_salt = Some(salt.to_string());
            config.auth_password_hash = Some(password_hash(salt, given.as_str()));
        },
        Some(expected) => match &config.auth_salt {
            None => {
                return Err(AuthError::SaltMissing);
            },
            Some(stored) => {
                let hash = password_hash(stored.as_str(), given.as_str());
                if !text::same(hash.as_str(), expected.as_str()) {
                    return Err(AuthError::InvalidPassword);
                }
            },
        },
    }
    config.auth_session_hash = Some(session_hash(token));
    Ok(auth_cookie(token))
}

/// Signs in with a password. The salt and the token are a matter of chance.
pub fn sign_in(config: &mut Config, password: &str) -> (result: Result<String, AuthError>)
    ensures
        match login_fault(*old(config), password@) {
            Some(error) => result == Err::<String, AuthError>(error) && *final(config) == *old(config),
            None => {
                &&& result is Ok
                &&& exists|salt: Seq<u8>, token: Seq<u8>|
                    salt.len() == 32 && token.len() == 32 && result->Ok_0@ == session_cookie(#[trigger] hex_of(token))
                        && logged_in(*old(config), password@, #[trigger] hex_of(salt), hex_of(token), *final(config))
            },
        },
{
    let salt = random_hex();
    let token = random_hex();
    login(config, password, salt.as_str(), token.as_str())
}

/// Ends the current session. Gives the cookie that ends it in the browser.
pub fn logout(config: &mut Config) -> (cookie: String)
    ensures
        *final(config) == (Config { auth_session_hash: None, ..*old(config) }),
        cookie@ == "bender_auth=; Path=/; Max-Age=0; SameSite=Lax; HttpOnly"@,
{
    config.auth_session_hash = None;
    logout_cookie()
}

// ---------------------------------------------------------------------------
// What always holds
// ---------------------------------------------------------------------------

proof fn one_piece(s: Seq<char>, c: char)
    requires
        !s.contains(c),
    ensures
        paths::split_of(s, c) == seq![s],
{
    text::lemma_first_of(s, c);
}

proof fn hex_is_plain(bytes: Seq<u8>)
    ensures
        forall|i: int| 0 <= i < hex_of(bytes).len() ==> text::alphanumeric(#[trigger] hex_of(bytes)[i]),
{
    reveal_strlit("0123456789abcdef");
}

/// A browser that sends the session's cookie back, alone in its header, is read to send the token.
pub proof fn session_cookies_are_read_back(bytes: Seq<u8>)
    ensures
        cookie_in(Some("bender_auth="@ + hex_of(bytes)), "bender_auth"@) == Some(hex_of(bytes)),
{
    reveal_strlit("bender_auth=");
    reveal_strlit("bender_auth");
    let token = hex_of(bytes);
    let header = "bender_auth="@ + token;
    hex_is_plain(bytes);
    assert(!header.contains(';')) by {
        if header.contains(';') {
            let k = header.index_of(';');
            if k >= 12 {
                assert(header[k] == token[k - 12]);
            }
        }
    }
    one_piece(header, ';');
    assert(header.first() == 'b');
    assert(text::trim_start(header) == header);
    assert(header.last() == if token.len() == 0 {
        '='
    } else {
        token[token.len() - 1]
    });
    assert(text::trim_end(header) == header);
    text::lemma_first_of(header, '=');
    assert(header[11] == '=');
    assert(header.contains('='));
    assert(header.take(11) =~= "bender_auth"@);
    assert(header.skip(12) =~= token);
    let pieces = seq![header];
    assert(pieces.first() == header);
}

/// After a login the session's cookie opens the web interface, and after a logout no cookie does.
pub proof fn sessions_last_from_login_to_logout(
    before: Config,
    password: Seq<char>,
    salt: Seq<char>,
    token: Seq<u8>,
    after: Config,
    cookies: Option<Seq<char>>,
)
    requires
        logged_in(before, password, salt, hex_of(token), after),
    ensures
        authenticated(after, Some("bender_auth="@ + hex_of(token))),
        !authenticated(Config { auth_session_hash: None, ..after }, cookies),
{
    session_cookies_are_read_back(token);
}

/// The password of the first login is the one that is accepted from then on, for as long as it is
/// kept, and only another one with its digest is accepted beside it.
pub proof fn first_passwords_stay_valid(
    before: Config,
    password: Seq<char>,
    salt: Seq<char>,
    token: Seq<char>,
    after: Config,
    other: Seq<char>,
)
    requires
        before.auth_password_hash is None,
        login_fault(before, password) is None,
        logged_in(before, password, salt, token, after),
    ensures
        login_fault(after, password) is None,
        login_fault(after, other) is None ==> password_digest(salt, text::trimmed(other)) == password_digest(
            salt,
            text::trimmed(password),
        ),
{
}

/// Where no password was set, no request is authenticated.
pub proof fn nobody_is_authenticated_without_a_password(config: Config, cookies: Option<Seq<char>>)
    requires
        config.auth_password_hash is None,
    ensures
        !authenticated(config, cookies),
{
}

/// Who may log in: with eight bytes or more, whoever comes first, and after that only who gives a password
/// with the same digest.
pub proof fn passwords_decide_about_logins(config: Config, password: Seq<char>)
    ensures
        encode_utf8(text::trimmed(password)).len() < 8 ==> login_fault(config, password) == Some(AuthError::ShortPassword),
        encode_utf8(text::trimmed(password)).len() >= 8 ==> {
            &&& config.auth_password_hash is None ==> login_fault(config, password) is None
            &&& config.auth_password_hash is Some && config.auth_salt is None ==> login_fault(config, password) == Some(
                AuthError::SaltMissing,
            )
            &&& config.auth_password_hash is Some && config.auth_salt is Some ==> (login_fault(config, password) is None
                <==> password_digest(config.auth_salt->0@, text::trimmed(password)) == config.auth_password_hash->0@)
            &&& config.auth_password_hash is Some && config.auth_salt is Some && password_digest(
                config.auth_salt->0@,
                text::trimmed(password),
            ) != config.auth_password_hash->0@ ==> login_fault(config, password) == Some(AuthError::InvalidPassword)
        },
{
}

/// The cookie of a session holds its token, is sent to the whole site, lasts thirty days, and is neither
/// shown to scripts nor sent from other sites.
pub proof fn session_cookies_are_restricted(token: Seq<char>)
    ensures
        ("bender_auth="@ + token).is_prefix_of(session_cookie(token)),
        text::holds(session_cookie(token), "; Path=/;"@),
        text::holds(session_cookie(token), "; Max-Age=2592000;"@),
        text::holds(session_cookie(token), "; SameSite=Lax;"@),
        text::holds(session_cookie(token), "; HttpOnly"@),
{
    let start = "bender_auth="@ + token;
    let end = "; Path=/; Max-Age=2592000; SameSite=Lax; HttpOnly"@;
    let whole = session_cookie(token);
    assert(start =~= whole.subrange(0, start.len() as int));
    reveal_strlit("; Path=/; Max-Age=2592000; SameSite=Lax; HttpOnly");
    reveal_strlit("; Path=/;");
    reveal_strlit("; Max-Age=2592000;");
    reveal_strlit("; SameSite=Lax;");
    reveal_strlit("; HttpOnly");
    assert(end.subrange(0, 9) =~= "; Path=/;"@);
    assert(text::found_at(end, "; Path=/;"@, 0));
    assert(end.subrange(8, 26) =~= "; Max-Age=2592000;"@);
    assert(text::found_at(end, "; Max-Age=2592000;"@, 8));
    assert(end.subrange(25, 40) =~= "; SameSite=Lax;"@);
    assert(text::found_at(end, "; SameSite=Lax;"@, 25));
    assert(end.subrange(39, 49) =~= "; HttpOnly"@);
    assert(text::found_at(end, "; HttpOnly"@, 39));
    text::parts_are_held(start, end, Seq::empty());
    assert(start + end + Seq::<char>::empty() =~= whole);
    text::holding_is_transitive(whole, end, "; Path=/;"@);
    text::holding_is_transitive(whole, end, "; Max-Age=2592000;"@);
    text::holding_is_transitive(whole, end, "; SameSite=Lax;"@);
    text::holding_is_transitive(whole, end, "; HttpOnly"@);
}

} // verus!
