//! The credentials that an authorization token of AWS ECR holds.

use vstd::prelude::*;
use crate::codec::{base64_decoded, decode_text, decoded_text, is_decodable};
use crate::lines::{position, split_once};

verus! {

/// A user name and password for the registry at an endpoint.
#[derive(Debug, Clone)]
pub struct TokenCredentials {
    pub username: String,
    pub password: String,
    pub endpoint: String,
}

/// The content of some [`TokenCredentials`].
pub struct CredentialsView {
    pub username: Seq<char>,
    pub password: Seq<char>,
    pub endpoint: Seq<char>,
}

impl View for TokenCredentials {
    type V = CredentialsView;

    open spec fn view(&self) -> CredentialsView {
        CredentialsView {
            username: self.username@,
            password: self.password@,
            endpoint: self.endpoint@,
        }
    }
}

/// The message for a token that holds no credentials.
pub open spec fn no_credentials_message() -> Seq<char> {
    "Cannot find credentials"@
}

/// The credentials that a decoded token holds: the user name before its
/// first colon, and the password after it, up to the next colon.
pub open spec fn credentials_of(decoded: Option<Seq<char>>, endpoint: Seq<char>) -> Option<
    CredentialsView,
> {
    match decoded {
        Some(text) if 0 <= position(text, ':') < text.len() => {
            let rest = text.skip(position(text, ':') + 1);
            Some(
                CredentialsView {
                    username: text.take(position(text, ':')),
                    password: rest.take(position(rest, ':')),
                    endpoint,
                },
            )
        },
        _ => None,
    }
}

pub open spec fn optional_decoded(decoded: Option<String>) -> Option<Seq<char>> {
    match decoded {
        Some(text) => Some(text@),
        None => None,
    }
}

impl TokenCredentials {
    /// The credentials that a decoded token holds, for the registry at
    /// `endpoint`; a message where it holds none.
    pub fn from_decoded(decoded: Option<String>, endpoint: &str) -> (r: Result<
        TokenCredentials,
        String,
    >)
        ensures
            match (r, credentials_of(optional_decoded(decoded), endpoint@)) {
                (Ok(credentials), Some(wanted)) => credentials@ == wanted,
                (Err(message), None) => message@ == no_credentials_message(),
                _ => false,
            },
    {
        let text = match decoded {
            Some(text) => text,
            None => {
                return Err("Cannot find credentials".to_owned());
            },
        };
        match split_once(text.as_str(), ':') {
            Some((username, rest)) => {
                let password = match split_once(rest.as_str(), ':') {
                    Some((password, _)) => password,
                    None => {
                        proof {
                            crate::lines::lemma_position(rest@, ':');
                            assert(rest@.take(rest@.len() as int) =~= rest@);
                        }
                        rest
                    },
                };
                Ok(TokenCredentials { username, password, endpoint: endpoint.to_owned() })
            },
            None => Err("Cannot find credentials".to_owned()),
        }
    }

    /// The credentials that an authorization token holds in Base64, for the
    /// registry at `endpoint`; a message where it holds none.
    pub fn new(token: &str, endpoint: &str) -> (r: Result<TokenCredentials, String>)
        requires
            is_decodable(token@),
        ensures
            match (r, credentials_of(decoded_text(base64_decoded(token@)), endpoint@)) {
                (Ok(credentials), Some(wanted)) => credentials@ == wanted,
                (Err(message), None) => message@ == no_credentials_message(),
                _ => false,
            },
    {
        Self::from_decoded(decode_text(token), endpoint)
    }
}

} // verus!
