//! The closed error classification and the JSON error envelope.
//!
//! Every failed request is described by one `ApiError` variant; the envelope
//! sent to the client is `{"code":<status>,"message":"<label>"}`, and the
//! `code` field always equals the HTTP status actually returned.

use vstd::prelude::*;

verus! {

/// Everything that can go wrong with a request, as a closed enum: no route
/// matched, a route matched under another method, or an internal failure
/// (storage or ID generation).
#[derive(Clone, Copy, Debug, PartialEq, Eq, Structural)]
pub enum ApiError {
    NotFound,
    MethodNotAllowed,
    Internal,
}

/// The character for one decimal digit.
pub open spec fn digit_char(d: int) -> char {
    if d == 0 {
        '0'
    } else if d == 1 {
        '1'
    } else if d == 2 {
        '2'
    } else if d == 3 {
        '3'
    } else if d == 4 {
        '4'
    } else if d == 5 {
        '5'
    } else if d == 6 {
        '6'
    } else if d == 7 {
        '7'
    } else if d == 8 {
        '8'
    } else {
        '9'
    }
}

/// The decimal rendering of `n` without leading zeros, as characters.
pub open spec fn dec_chars(n: int) -> Seq<char>
    decreases n,
{
    if n < 10 {
        seq![digit_char(n)]
    } else {
        dec_chars(n / 10) + seq![digit_char(n % 10)]
    }
}

/// The JSON error envelope for a status code and a message label.
pub open spec fn envelope_json(code: int, message: Seq<char>) -> Seq<char> {
    "{\"code\":"@ + dec_chars(code) + ",\"message\":\""@ + message + "\"}"@
}

impl ApiError {
    /// The HTTP status this error is reported with.
    pub open spec fn spec_status(self) -> u16 {
        match self {
            ApiError::NotFound => 404,
            ApiError::MethodNotAllowed => 405,
            ApiError::Internal => 500,
        }
    }

    pub fn status(&self) -> (code: u16)
        ensures
            code == self.spec_status(),
    {
        match self {
            ApiError::NotFound => 404,
            ApiError::MethodNotAllowed => 405,
            ApiError::Internal => 500,
        }
    }

    /// The message label of the envelope.
    pub open spec fn spec_message(self) -> Seq<char> {
        match self {
            ApiError::NotFound => "NOT_FOUND"@,
            ApiError::MethodNotAllowed => "METHOD_NOT_ALLOWED"@,
            ApiError::Internal => "UNHANDLED_REJECTION"@,
        }
    }

    pub fn message(&self) -> (m: &'static str)
        ensures
            m@ == self.spec_message(),
    {
        match self {
            ApiError::NotFound => "NOT_FOUND",
            ApiError::MethodNotAllowed => "METHOD_NOT_ALLOWED",
            ApiError::Internal => "UNHANDLED_REJECTION",
        }
    }

    /// The full response body: the envelope whose `code` field is exactly
    /// this error's HTTP status and whose `message` is its label.
    pub open spec fn spec_body(self) -> Seq<char> {
        envelope_json(self.spec_status() as int, self.spec_message())
    }

    pub fn body_json(&self) -> (b: &'static str)
        ensures
            b@ == self.spec_body(),
    {
        proof {
            reveal_strlit("{\"code\":");
            reveal_strlit(",\"message\":\"");
            reveal_strlit("\"}");
        }
        match self {
            ApiError::NotFound => {
                proof {
                    reveal_strlit("NOT_FOUND");
                    reveal_strlit("{\"code\":404,\"message\":\"NOT_FOUND\"}");
                    assert(dec_chars(404) =~= seq!['4', '0', '4']) by {
                        reveal_with_fuel(dec_chars, 4);
                    }
                    assert("{\"code\":404,\"message\":\"NOT_FOUND\"}"@ =~= self.spec_body());
                }
                "{\"code\":404,\"message\":\"NOT_FOUND\"}"
            },
            ApiError::MethodNotAllowed => {
                proof {
                    reveal_strlit("METHOD_NOT_ALLOWED");
                    reveal_strlit("{\"code\":405,\"message\":\"METHOD_NOT_ALLOWED\"}");
                    assert(dec_chars(405) =~= seq!['4', '0', '5']) by {
                        reveal_with_fuel(dec_chars, 4);
                    }
                    assert("{\"code\":405,\"message\":\"METHOD_NOT_ALLOWED\"}"@ =~= self.spec_body());
                }
                "{\"code\":405,\"message\":\"METHOD_NOT_ALLOWED\"}"
            },
            ApiError::Internal => {
                proof {
                    reveal_strlit("UNHANDLED_REJECTION");
                    reveal_strlit("{\"code\":500,\"message\":\"UNHANDLED_REJECTION\"}");
                    assert(dec_chars(500) =~= seq!['5', '0', '0']) by {
                        reveal_with_fuel(dec_chars, 4);
                    }
                    assert("{\"code\":500,\"message\":\"UNHANDLED_REJECTION\"}"@ =~= self.spec_body());
                }
                "{\"code\":500,\"message\":\"UNHANDLED_REJECTION\"}"
            },
        }
    }
}

/// Law: the envelope's `code` field renders exactly the HTTP status that the
/// error is reported with, for every error variant.
pub proof fn lemma_envelope_code_matches_status(e: ApiError)
    ensures
        e.spec_body() == envelope_json(e.spec_status() as int, e.spec_message()),
{
}

} // verus!
