//! The language-model side: the errors of the generation service and the
//! construction of its request URLs. The HTTP transport lives outside; what
//! is sent is built and checked here.

use vstd::prelude::*;
use vstd::string::StringExecFns;

verus! {

/// Errors of the language-model service.
pub enum LlmError {
    ConnectionError(String),
    GenerationError(String),
}

impl LlmError {
    /// A human-readable description of the error.
    pub fn message(&self) -> (r: String)
        ensures
            self matches LlmError::ConnectionError(d)
                ==> r@ == "failed to reach the generation service: "@ + d@,
            self matches LlmError::GenerationError(d)
                ==> r@ == "failed to generate a response: "@ + d@,
    {
        match self {
            LlmError::ConnectionError(d) => String::from_str(
                "failed to reach the generation service: ").concat(d.as_str()),
            LlmError::GenerationError(d) => String::from_str(
                "failed to generate a response: ").concat(d.as_str()),
        }
    }
}

/// The URL of the generation endpoint under `endpoint`.
pub fn generate_url(endpoint: &str) -> (r: String)
    ensures
        r@ == endpoint@ + "/api/generate"@,
{
    String::from_str(endpoint).concat("/api/generate")
}

/// The URL of the model-listing (and health-check) endpoint.
pub fn tags_url(endpoint: &str) -> (r: String)
    ensures
        r@ == endpoint@ + "/api/tags"@,
{
    String::from_str(endpoint).concat("/api/tags")
}

/// Whether an HTTP status code reports success.
pub fn status_is_success(status: u16) -> (r: bool)
    ensures
        r == (200 <= status < 300),
{
    200 <= status && status < 300
}

} // verus!
