//! The failure taxonomy. Each component reports its own kind of failure;
//! an endpoint wraps whichever occurred into its own error, so that a
//! caller always learns which remote operation failed and why.

use vstd::prelude::*;

verus! {

/// An argument could not be serialised into the query string.
#[derive(Debug, Clone, Copy, PartialEq, Eq, Structural)]
pub enum EncodeFailure {
    /// The JSON fragment of a collection argument could not be built.
    Serialization,
}

/// The request did not produce a response body.
#[derive(Debug, Clone, Copy, PartialEq, Eq, Structural)]
pub enum TransportFailure {
    /// No connection to the service could be made.
    Connection,
    /// The transport gave up waiting.
    Timeout,
    /// The service answered with a status outside 200..=299.
    Status(u16),
}

/// The response body was not the expected envelope around a payload.
#[derive(Debug, Clone, Copy, PartialEq, Eq, Structural)]
pub enum DecodeFailure {
    /// The body is not JSON text.
    MalformedJson,
    /// The body is JSON, but not an object that holds the envelope key.
    MissingEnvelope,
    /// The envelope is there, but a field of the payload that is present
    /// has the wrong shape.
    UnexpectedShape,
}

/// What went wrong in a call, by the component that observed it.
#[derive(Debug, Clone, Copy, PartialEq, Eq, Structural)]
pub enum Cause {
    Encode(EncodeFailure),
    Transport(TransportFailure),
    Decode(DecodeFailure),
}

/// The errors of the player service, one variant per endpoint.
#[derive(Debug, Clone, Copy, PartialEq, Eq, Structural)]
pub enum PlayerServiceError {
    GetOwnedGames(Cause),
}

impl PlayerServiceError {
    /// The failure that the endpoint wrapped.
    pub open spec fn spec_cause(self) -> Cause {
        match self {
            PlayerServiceError::GetOwnedGames(cause) => cause,
        }
    }

    /// The failure that the endpoint wrapped.
    #[verifier::when_used_as_spec(spec_cause)]
    pub fn cause(self) -> (r: Cause)
        ensures
            r == self.spec_cause(),
    {
        match self {
            PlayerServiceError::GetOwnedGames(cause) => cause,
        }
    }
}

} // verus!
