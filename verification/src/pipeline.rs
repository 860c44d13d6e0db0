//! Request pipeline decisions: the client configuration with its defaults,
//! endpoint URL construction, bearer-token attachment, the fixed request
//! timeout, the error taxonomy of a finished request, and the entry-point
//! checks that reject a streaming request on the blocking entry point (and
//! the reverse) before any I/O happens.

use vstd::prelude::*;
use crate::chat::ChatCompletionRequest;
use crate::classify::spec_status_transient;
use crate::retry::DEFAULT_MAX_RETRIES;

verus! {

/// Wall-clock timeout in seconds for one logical request, retries included.
pub const TIMEOUT_SECS: u64 = 60;

/// The default public API endpoint.
pub fn default_base_url() -> (s: String)
    ensures
        s@ == "https://api.openai.com/v1"@,
{
    "https://api.openai.com/v1".to_owned()
}

/// One terminal error of a logical request.
#[derive(Debug, Clone, PartialEq)]
pub enum SdkError {
    /// The transport could not complete the exchange (connect, DNS, TLS or
    /// timeout failure). Always transient.
    Transport { detail: String },
    /// A response was received with an error status; carries the body text
    /// for diagnosis. Transience follows the classifier.
    Api { status: u16, body: String },
    /// A malformed JSON body, or a malformed non-sentinel stream frame.
    /// Fatal; never retried.
    Decode { detail: String },
    /// A streaming request reached the blocking entry point or the reverse.
    /// Fatal, raised before any I/O.
    ContractViolation,
}

/// Whether retrying this error could help: transport failures always, API
/// errors according to their status, nothing else.
pub open spec fn spec_error_transient(e: SdkError) -> bool {
    match e {
        SdkError::Transport { .. } => true,
        SdkError::Api { status, .. } => spec_status_transient(status),
        SdkError::Decode { .. } => false,
        SdkError::ContractViolation => false,
    }
}

impl SdkError {
    /// Whether retrying this error could help.
    pub fn is_transient(&self) -> (r: bool)
        ensures
            r == spec_error_transient(*self),
    {
        match self {
            SdkError::Transport { .. } => true,
            SdkError::Api { status, .. } => {
                let s = *status;
                s == 429 || (500 <= s && s <= 599)
            },
            SdkError::Decode { .. } => false,
            SdkError::ContractViolation => false,
        }
    }
}

/// Shared, read-only client configuration: every in-flight request reads the
/// same base URL, token and retry budget.
#[derive(Debug, Clone, PartialEq)]
pub struct ClientConfig {
    /// Base URL of the API; endpoint paths are appended to it.
    pub base_url: String,
    /// Bearer token; when empty, no authentication header is attached.
    pub token: String,
    /// How many retries may follow the first attempt of a request.
    pub max_retries: u32,
}

impl ClientConfig {
    /// A configuration for the default public endpoint.
    pub fn new(token: &str) -> (c: ClientConfig)
        ensures
            c.token@ == token@,
            c.base_url@ == "https://api.openai.com/v1"@,
            c.max_retries == DEFAULT_MAX_RETRIES,
    {
        ClientConfig {
            base_url: default_base_url(),
            token: token.to_owned(),
            max_retries: DEFAULT_MAX_RETRIES,
        }
    }

    /// A configuration for another endpoint.
    pub fn new_with_base_url(token: &str, base_url: &str) -> (c: ClientConfig)
        ensures
            c.token@ == token@,
            c.base_url@ == base_url@,
            c.max_retries == DEFAULT_MAX_RETRIES,
    {
        ClientConfig {
            base_url: base_url.to_owned(),
            token: token.to_owned(),
            max_retries: DEFAULT_MAX_RETRIES,
        }
    }

    /// The URL of the chat-completion endpoint under this configuration.
    pub fn chat_completions_url(&self) -> (u: String)
        ensures
            u@ == self.base_url@ + "/chat/completions"@,
    {
        let mut u = self.base_url.clone();
        u.append("/chat/completions");
        u
    }

    /// The value of the authentication header, or `None` when the token is
    /// empty and no header is to be attached.
    pub fn bearer_header(&self) -> (h: Option<String>)
        ensures
            match h {
                None => self.token@.len() == 0,
                Some(v) => self.token@.len() > 0 && v@ == "Bearer "@ + self.token@,
            },
    {
        if self.token.as_str().is_empty() {
            None
        } else {
            let mut v = "Bearer ".to_owned();
            v.append(self.token.as_str());
            Some(v)
        }
    }
}

/// Whether a request asks for streamed delivery.
pub open spec fn spec_is_streaming(r: ChatCompletionRequest) -> bool {
    r.stream == Some(true)
}

/// Admits a request to the blocking (non-streaming) entry point: a request
/// with the stream flag set is rejected before any I/O.
pub fn check_blocking_entry(req: &ChatCompletionRequest) -> (r: Result<(), SdkError>)
    ensures
        r is Ok <==> !spec_is_streaming(*req),
        r is Err ==> r->Err_0 == SdkError::ContractViolation,
{
    let wants_stream = match &req.stream {
        Some(b) => *b,
        None => false,
    };
    if wants_stream {
        Err(SdkError::ContractViolation)
    } else {
        Ok(())
    }
}

/// Admits a request to the streaming entry point: a request without the
/// stream flag set is rejected before any I/O.
pub fn check_streaming_entry(req: &ChatCompletionRequest) -> (r: Result<(), SdkError>)
    ensures
        r is Ok <==> spec_is_streaming(*req),
        r is Err ==> r->Err_0 == SdkError::ContractViolation,
{
    let wants_stream = match &req.stream {
        Some(b) => *b,
        None => false,
    };
    if wants_stream {
        Ok(())
    } else {
        Err(SdkError::ContractViolation)
    }
}

} // verus!
