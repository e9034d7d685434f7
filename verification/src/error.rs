use vstd::prelude::*;

verus! {

/// The failure taxonomy of the core. Each operation's contract names the
/// variants it can return, and on which inputs.
#[derive(Clone, Copy, Debug, PartialEq, Eq, Structural)]
pub enum Error {
    /// Login failed: unknown username, wrong password, or corrupt stored
    /// credentials — all collapsed into the one outcome, so that the answer
    /// carries no user-enumeration signal.
    InvalidCredentials,
    /// Signup failed: the username is already taken.
    DuplicateUsername,
    /// The storage layer failed; here, the id space is exhausted or the
    /// system's random source failed.
    Persistence,
    /// A claims token could not be produced or consumed.
    Token,
    /// Required startup configuration is missing.
    Config,
}

/// The outward, enumeration-resistant message for each failure. Internal
/// detail is never surfaced.
pub open spec fn message_of(e: Error) -> Seq<char> {
    match e {
        Error::InvalidCredentials => "Invalid username/password combination"@,
        Error::DuplicateUsername => "Invalid username"@,
        Error::Persistence => "Database error"@,
        Error::Token => "Token error"@,
        Error::Config => "Configuration error"@,
    }
}

impl Error {
    /// The generic message shown to callers.
    pub fn user_message(&self) -> (r: &'static str)
        ensures
            r@ == message_of(*self),
    {
        match self {
            Error::InvalidCredentials => "Invalid username/password combination",
            Error::DuplicateUsername => "Invalid username",
            Error::Persistence => "Database error",
            Error::Token => "Token error",
            Error::Config => "Configuration error",
        }
    }
}

} // verus!
