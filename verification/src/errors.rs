//! The error taxonomy: a fatal configuration error, two recoverable
//! per-query failures from the weather client, and a recoverable
//! rendering failure on a report with no conditions.

use vstd::prelude::*;
use vstd::string::StringExecFns;

verus! {

/// Everything that can go wrong while fetching or rendering a report.
#[derive(Debug, PartialEq, Eq)]
pub enum WeatherError {
    /// The API credential was not found in the environment; fatal at startup.
    MissingCredential,
    /// The network call failed (DNS, timeout, connection refused); the
    /// carried string is the underlying cause.
    Transport(String),
    /// The response body was malformed or did not match the report schema.
    Decode,
    /// The report's condition sequence was empty, so there is nothing to
    /// describe.
    EmptyConditions,
}

/// The diagnostic text of each error variant.
pub open spec fn spec_message(e: WeatherError) -> Seq<char> {
    match e {
        WeatherError::MissingCredential => "missing API credential in the environment"@,
        WeatherError::Transport(cause) => "network request failed: "@ + cause@,
        WeatherError::Decode => "could not decode the weather response"@,
        WeatherError::EmptyConditions => "the report contains no weather conditions"@,
    }
}

impl WeatherError {
    /// A human-readable description of the error, printed at the loop
    /// boundary.
    pub fn message(&self) -> (s: String)
        ensures
            s@ == spec_message(*self),
    {
        match self {
            WeatherError::MissingCredential => String::from_str(
                "missing API credential in the environment",
            ),
            WeatherError::Transport(cause) => {
                let mut s = String::from_str("network request failed: ");
                s.append(cause.as_str());
                s
            },
            WeatherError::Decode => String::from_str("could not decode the weather response"),
            WeatherError::EmptyConditions => String::from_str(
                "the report contains no weather conditions",
            ),
        }
    }
}

} // verus!
