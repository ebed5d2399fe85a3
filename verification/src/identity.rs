//! Keys of the Nostr network.

use nostr_sdk::{FromBech32, ToBech32};
use vstd::prelude::*;

verus! {

/// A pair of keys, in the forms in which they are stored and compared.
#[derive(Debug)]
pub struct Identity {
    pub secret_key: String,
    pub public_key: String,
    pub public_hex: String,
}

/// The content of a pair of keys.
pub struct IdentityView {
    pub secret_key: Seq<char>,
    pub public_key: Seq<char>,
    pub public_hex: Seq<char>,
}

impl View for Identity {
    type V = IdentityView;

    open spec fn view(&self) -> IdentityView {
        IdentityView { secret_key: self.secret_key@, public_key: self.public_key@, public_hex: self.public_hex@ }
    }
}

/// The pair of keys that a text is the secret key of, where it is one.
pub uninterp spec fn identity_of(secret: Seq<char>) -> Option<IdentityView>;

/// The public key, in hexadecimal form, that a text is the `npub` form of, where it is one.
pub uninterp spec fn key_of_npub(npub: Seq<char>) -> Option<Seq<char>>;

/// Calls `nostr_sdk::Keys::parse`, and takes the keys in their bech32 and hexadecimal forms. Whether
/// the text is a secret key, and which keys follow, are functions of the text alone; the contract
/// names them and says nothing of the encoding.
#[verifier::external_body]
pub(crate) fn parse_identity(secret: &str) -> (identity: Option<Identity>)
    ensures
        crate::model::view_of(identity) == identity_of(secret@),
{
    let keys = nostr_sdk::Keys::parse(secret).ok()?;
    Some(Identity {
        secret_key: keys.secret_key().to_bech32().ok()?,
        public_key: keys.public_key().to_bech32().ok()?,
        public_hex: keys.public_key().to_hex(),
    })
}

/// Calls `nostr_sdk::Keys::generate`, and takes the secret key in its hexadecimal form. The key is a
/// matter of chance; it is a secret key, whichever it is.
#[verifier::external_body]
fn generate_secret() -> (secret: String)
    ensures
        identity_of(secret@) is Some,
{
    nostr_sdk::Keys::generate().secret_key().to_secret_hex()
}

/// A new pair of keys, which is a matter of chance.
pub fn generate() -> (identity: Identity)
    ensures
        exists|secret: Seq<char>| #[trigger] identity_of(secret) == Some(identity@),
{
    let secret = generate_secret();
    parse_identity(secret.as_str()).unwrap()
}

/// Calls `nostr_sdk::PublicKey::from_bech32`, and takes the key in its hexadecimal form. Whether the
/// text is a public key, and which, are functions of the text alone; the contract names them and
/// says nothing of the encoding.
#[verifier::external_body]
pub(crate) fn parse_npub(npub: &str) -> (key: Option<String>)
    ensures
        crate::model::view_of(key) == key_of_npub(npub@),
{
    nostr_sdk::PublicKey::from_bech32(npub).ok().map(|key| key.to_hex())
}

} // verus!
