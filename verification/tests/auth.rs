use bender::auth::{
    auth_cookie, cookie_value, hex, is_authenticated, login, logout, password_hash, random_hex, require_auth, session_hash,
    sign_in, AuthError,
};
use bender::config::Config;
use bender::identity::generate;

fn config() -> Config {
    Config::for_keys(generate())
}

#[test]
fn digests_have_their_known_values() {
    assert_eq!(session_hash("abc"), "ba7816bf8f01cfea414140de5dae2223b00361a396177a9cb410ff61f20015ad");
    assert_eq!(
        password_hash("salt", "password"),
        "6d3e213281eda280a3f5cc470489614112ef6b7a220725695f79bc5851459021"
    );
    assert_eq!(
        password_hash("00ff", "correct horse"),
        "581ac265d7b3c1bc64a3c750547b541b743448e0ec22a05d9d495e5587a7e819"
    );
    assert_eq!(hex(&vec![0, 15, 16, 255]), "000f10ff");
}

#[test]
fn random_values_differ() {
    let first = random_hex();
    assert_eq!(first.len(), 64);
    assert_ne!(first, random_hex());
    assert!(first.chars().all(|c| c.is_ascii_hexdigit() && !c.is_ascii_uppercase()));
}

#[test]
fn cookies_are_found_by_name() {
    assert_eq!(cookie_value(Some("a=b; bender_auth=tok=en ; c=d"), "bender_auth").as_deref(), Some("tok=en"));
    assert_eq!(cookie_value(Some("bender_auth=1; bender_auth=2"), "bender_auth").as_deref(), Some("1"));
    assert_eq!(cookie_value(Some("bender_auth"), "bender_auth"), None);
    assert_eq!(cookie_value(Some(""), "bender_auth"), None);
    assert_eq!(cookie_value(None, "bender_auth"), None);
    assert_eq!(auth_cookie("t"), "bender_auth=t; Path=/; Max-Age=2592000; SameSite=Lax; HttpOnly");
}

#[test]
fn sessions_last_from_login_to_logout() {
    let mut config = config();
    assert!(!is_authenticated(&config, Some("bender_auth=t")));
    assert_eq!(login(&mut config, " longenough ", "salt", "t").unwrap(), auth_cookie("t"));
    assert_eq!(config.auth_salt.as_deref(), Some("salt"));
    assert!(is_authenticated(&config, Some("bender_auth=t")));
    assert!(!is_authenticated(&config, Some("bender_auth=u")));
    assert!(!is_authenticated(&config, None));
    assert!(require_auth(&config, Some("bender_auth=t")).is_ok());
    assert_eq!(logout(&mut config), "bender_auth=; Path=/; Max-Age=0; SameSite=Lax; HttpOnly");
    assert!(!is_authenticated(&config, Some("bender_auth=t")));
    let refused = require_auth(&config, Some("bender_auth=t")).unwrap_err();
    assert_eq!(refused.message(), "login required");
    assert_eq!(refused.status(), 401);
}

#[test]
fn the_first_password_is_the_one() {
    let mut config = config();
    login(&mut config, "longenough", "salt", "t").unwrap();
    assert_eq!(login(&mut config, "wrongenough", "other", "u").unwrap_err(), AuthError::InvalidPassword);
    assert!(login(&mut config, "longenough", "other", "u").is_ok());
    assert_eq!(config.auth_salt.as_deref(), Some("salt"));
    config.auth_salt = None;
    assert_eq!(login(&mut config, "longenough", "other", "u").unwrap_err().message(), "auth salt missing");
}

#[test]
fn short_passwords_are_refused() {
    let mut config = config();
    let refused = login(&mut config, " 1234567 ", "salt", "t").unwrap_err();
    assert_eq!(refused.message(), "password must be at least 8 characters");
    assert_eq!(refused.status(), 400);
    assert!(config.auth_password_hash.is_none());
    assert!(login(&mut config, "1234567é", "salt", "t").is_ok());
    assert_eq!(AuthError::InvalidPassword.message(), "invalid password");
}

#[test]
fn signing_in_draws_a_new_session() {
    let mut config = config();
    let cookie = sign_in(&mut config, "longenough").unwrap();
    let token = cookie.strip_prefix("bender_auth=").unwrap().split(';').next().unwrap().to_string();
    assert_eq!(token.len(), 64);
    assert!(is_authenticated(&config, Some(&format!("bender_auth={token}"))));
    assert_ne!(sign_in(&mut config, "longenough").unwrap(), cookie);
    assert!(sign_in(&mut config, "short").is_err());
}
