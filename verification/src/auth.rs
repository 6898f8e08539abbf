//! Credentials for authenticating with a miner.  Passwords and tokens are
//! held as `secrecy` secrets, so that printing credentials never shows them.
use vstd::prelude::*;
use secrecy::{ExposeSecret, SecretString};

verus! {

/// A secret text: a `secrecy::SecretString`, whose contents are redacted
/// when printed.
#[verifier::external_body]
#[derive(Debug)]
pub struct SecretText {
    inner: SecretString,
}

/// The text a secret holds.
pub uninterp spec fn secret_chars(secret: SecretText) -> Seq<char>;

impl Clone for SecretText {
    /// `Clone` for `SecretString`: the copy holds the same text.
    #[verifier::external_body]
    fn clone(&self) -> (r: SecretText)
        ensures
            secret_chars(r) == secret_chars(*self),
    {
        SecretText { inner: self.inner.clone() }
    }
}

impl SecretText {
    /// `ExposeSecret::expose_secret`: the text the secret holds.
    #[verifier::external_body]
    pub fn expose_secret(&self) -> (r: &str)
        ensures
            r@ == secret_chars(*self),
    {
        self.inner.expose_secret()
    }
}

/// `SecretString::from`: wraps a text as a secret, which then holds that
/// text.
#[verifier::external_body]
fn secret_from(text: String) -> (r: SecretText)
    ensures
        secret_chars(r) == text@,
{
    SecretText { inner: SecretString::from(text) }
}

/// Username/password credentials.
#[derive(Clone, Debug)]
pub struct UserAndPassAuth {
    pub username: String,
    pub password: SecretText,
}

/// Credentials for authenticating with a miner: a user name and password,
/// or a pre-issued bearer token.
#[derive(Clone, Debug)]
pub enum MinerAuth {
    /// Username + password login.
    UserAndPass(UserAndPassAuth),
    /// Pre-issued bearer token (used directly, no password login).
    TokenAuth(SecretText),
}

/// Whether credentials hold the user name `username` and a secret holding
/// `password`.
pub open spec fn made_of_user(auth: MinerAuth, username: Seq<char>, password: Seq<char>) -> bool {
    auth matches MinerAuth::UserAndPass(c) && c.username@ == username && secret_chars(c.password) == password
}

/// Whether credentials are a token whose secret holds `token`.
pub open spec fn made_of_token(auth: MinerAuth, token: Seq<char>) -> bool {
    auth matches MinerAuth::TokenAuth(t) && secret_chars(t) == token
}

/// The user name of credentials; empty for a token.
pub open spec fn username_of(auth: MinerAuth) -> Seq<char> {
    match auth {
        MinerAuth::UserAndPass(c) => c.username@,
        MinerAuth::TokenAuth(_) => Seq::empty(),
    }
}

/// The password of credentials; empty for a token.
pub open spec fn password_of(auth: MinerAuth) -> Seq<char> {
    match auth {
        MinerAuth::UserAndPass(c) => secret_chars(c.password),
        MinerAuth::TokenAuth(_) => Seq::empty(),
    }
}

/// The token text of credentials; none for a user name and password.
pub open spec fn token_of(auth: MinerAuth) -> Option<Seq<char>> {
    match auth {
        MinerAuth::TokenAuth(t) => Some(secret_chars(t)),
        MinerAuth::UserAndPass(_) => None,
    }
}

/// The getters give back what `MinerAuth::new` was given: its user name and
/// its password, and no token.
pub proof fn lemma_user_credentials_give_back(auth: MinerAuth, username: Seq<char>, password: Seq<char>)
    requires
        made_of_user(auth, username, password),
    ensures
        username_of(auth) == username,
        password_of(auth) == password,
        token_of(auth) is None,
{
}

/// The getters give back what `MinerAuth::from_token` was given: the token,
/// with an empty user name and password.
pub proof fn lemma_token_credentials_give_back(auth: MinerAuth, token: Seq<char>)
    requires
        made_of_token(auth, token),
    ensures
        username_of(auth) == Seq::<char>::empty(),
        password_of(auth) == Seq::<char>::empty(),
        token_of(auth) == Some(token),
{
}

impl MinerAuth {
    /// User name and password credentials.
    pub fn new(username: String, password: String) -> (r: MinerAuth)
        ensures
            made_of_user(r, username@, password@),
    {
        MinerAuth::UserAndPass(UserAndPassAuth { username, password: secret_from(password) })
    }

    /// Pre-issued token credentials.
    pub fn from_token(token: String) -> (r: MinerAuth)
        ensures
            made_of_token(r, token@),
    {
        MinerAuth::TokenAuth(secret_from(token))
    }

    /// The user name; empty for token credentials.
    pub fn username(&self) -> (r: &str)
        ensures
            r@ == username_of(*self),
    {
        match self {
            MinerAuth::UserAndPass(c) => c.username.as_str(),
            MinerAuth::TokenAuth(_) => {
                proof {
                    reveal_strlit("");
                }
                ""
            },
        }
    }

    /// The password; empty for token credentials.
    pub fn password(&self) -> (r: &str)
        ensures
            r@ == password_of(*self),
    {
        match self {
            MinerAuth::UserAndPass(c) => c.password.expose_secret(),
            MinerAuth::TokenAuth(_) => {
                proof {
                    reveal_strlit("");
                }
                ""
            },
        }
    }

    /// The pre-issued token, for token credentials.
    pub fn token(&self) -> (r: Option<&SecretText>)
        ensures
            r == match self {
                MinerAuth::TokenAuth(t) => Some(t),
                MinerAuth::UserAndPass(_) => None::<&SecretText>,
            },
            match r {
                Some(t) => token_of(*self) == Some(secret_chars(*t)),
                None => token_of(*self) is None,
            },
    {
        match self {
            MinerAuth::TokenAuth(t) => Some(t),
            MinerAuth::UserAndPass(_) => None,
        }
    }
}

} // verus!
