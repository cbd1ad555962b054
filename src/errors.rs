//! The errors of sign-in and fetch.
use vstd::prelude::*;
use vstd::string::StringExecFns;

verus! {

/// Why a sign-in or a fetch did not succeed.
#[derive(Debug, Clone)]
pub enum AuthError {
    /// The request did not reach the service or no answer came back.
    Network(String),
    /// The answer could not be read in the expected shape.
    Protocol(String),
    /// The service refused, with its error code.
    OAuth(String),
    /// The device code's probes were used up without an answer.
    TimedOut,
    /// No credential is stored.
    NotAuthenticated,
    /// The credential could not be written.
    Storage(String),
    /// A sign-in was started while another one is under way.
    Conflict,
}

impl AuthError {
    /// The message shown to the user.
    pub open spec fn message_spec(self) -> Seq<char> {
        match self {
            AuthError::Network(m) => m@,
            AuthError::Protocol(m) => m@,
            AuthError::Storage(m) => m@,
            AuthError::OAuth(m) => "OAuth error: "@ + m@,
            AuthError::TimedOut => "OAuth flow timed out"@,
            AuthError::NotAuthenticated => "Not authenticated"@,
            AuthError::Conflict => "A sign-in is already in progress"@,
        }
    }

    /// The message shown to the user: transport, decoding and storage
    /// errors carry their own text, the service's codes are prefixed.
    pub fn message(&self) -> (r: String)
        ensures
            r@ == self.message_spec(),
    {
        match self {
            AuthError::Network(m) => m.clone(),
            AuthError::Protocol(m) => m.clone(),
            AuthError::Storage(m) => m.clone(),
            AuthError::OAuth(m) => "OAuth error: ".to_owned().concat(m.as_str()),
            AuthError::TimedOut => "OAuth flow timed out".to_owned(),
            AuthError::NotAuthenticated => "Not authenticated".to_owned(),
            AuthError::Conflict => "A sign-in is already in progress".to_owned(),
        }
    }
}

} // verus!
