use vstd::prelude::*;
use vstd::string::*;

use crate::config::PoolError;
use crate::stats::PoolStats;
use crate::text::same_chars;

verus! {

/// HTTP status of a request refused for want of valid credentials.
pub const STATUS_UNAUTHORIZED: u16 = 401;

/// HTTP status of a request that may be retried once the server has capacity.
pub const STATUS_SERVICE_UNAVAILABLE: u16 = 503;

/// HTTP status of a request that failed inside the server.
pub const STATUS_INTERNAL_SERVER_ERROR: u16 = 500;

/// Address the server listens on.
#[derive(Clone, Debug)]
pub struct ServerSettings {
    pub host: String,
    pub port: u16,
}

/// Whether requests must carry an API key, and which.
#[derive(Clone, Debug)]
pub struct AuthSettings {
    pub require_api_key: bool,
    pub api_key: Option<String>,
}

/// Log levels of the server and of the inference runtime.
#[derive(Clone, Debug)]
pub struct LoggingSettings {
    pub level: String,
    pub ort_level: String,
}

/// Body of an error response.
#[derive(Clone, Debug)]
pub struct TtsError {
    pub error: TtsErrorDetail,
}

/// What went wrong, of which kind, under which short code.
#[derive(Clone, Debug)]
pub struct TtsErrorDetail {
    pub message: String,
    pub type_: String,
    pub code: Option<String>,
}

/// Body of a health response.
#[derive(Clone, Debug)]
pub struct HealthResponse {
    pub status: String,
    pub timestamp: String,
    pub version: String,
    pub model_loaded: bool,
    pub pool_stats: Option<PoolStats>,
}

/// Body of a voice listing.
#[derive(Clone, Debug)]
pub struct VoicesResponse {
    pub voices: Vec<VoiceInfo>,
    pub timestamp: String,
}

/// One voice: its name, the style file it maps to, and whether that file exists.
#[derive(Clone, Debug)]
pub struct VoiceInfo {
    pub name: String,
    pub path: String,
    pub exists: bool,
}

impl TtsError {
    pub fn new(message: String, type_: String, code: Option<String>) -> (r: TtsError)
        ensures
            r.error.message == message,
            r.error.type_ == type_,
            r.error.code == code,
    {
        TtsError { error: TtsErrorDetail { message, type_, code } }
    }
}

/// The prefix of an `Authorization` header that carries a bearer token.
pub open spec fn bearer_prefix() -> Seq<char> {
    seq!['B', 'e', 'a', 'r', 'e', 'r', ' ']
}

/// The token of an `Authorization` header, when it has the bearer form.
pub open spec fn bearer_token(header: Option<Seq<char>>) -> Option<Seq<char>> {
    match header {
        Some(h) => if h.len() >= 7 && h.subrange(0, 7) == bearer_prefix() {
            Some(h.subrange(7, h.len() as int))
        } else {
            None
        },
        None => None,
    }
}

/// A request passes when no key is required, when no key is configured, or
/// when its bearer token equals the configured key.
pub open spec fn api_key_accepted(header: Option<Seq<char>>, require: bool, key: Option<Seq<char>>) -> bool {
    !require || match (bearer_token(header), key) {
        (Some(token), Some(expected)) => token == expected,
        (_, Some(_)) => false,
        _ => true,
    }
}

fn strip_bearer(h: &str) -> (r: Option<&str>)
    ensures
        r matches Some(t) ==> bearer_token(Some(h@)) == Some(t@),
        r is None ==> bearer_token(Some(h@)) is None,
{
    let n = h.unicode_len();
    if n < 7 {
        return None;
    }
    let p = "Bearer ";
    proof {
        reveal_strlit("Bearer ");
        assert(p@ =~= bearer_prefix());
    }
    let mut i: usize = 0;
    while i < 7
        invariant
            n == h@.len(),
            n >= 7,
            p@ == bearer_prefix(),
            0 <= i <= 7,
            forall|j: int| 0 <= j < i ==> h@[j] == p@[j],
        decreases 7 - i,
    {
        if h.get_char(i) != p.get_char(i) {
            assert(h@.subrange(0, 7)[i as int] != bearer_prefix()[i as int]);
            return None;
        }
        i = i + 1;
    }
    assert(h@.subrange(0, 7) =~= bearer_prefix());
    Some(h.substring_char(7, n))
}

/// Checks the `Authorization` header of a request against `config`; a
/// refusal carries the unauthorized status. See `api_key_accepted`.
pub fn check_api_key(auth_header: Option<&str>, config: &AuthSettings) -> (r: Result<(), u16>)
    ensures
        r is Ok <==> api_key_accepted(
            match auth_header {
                Some(h) => Some(h@),
                None => None,
            },
            config.require_api_key,
            match config.api_key {
                Some(k) => Some(k@),
                None => None,
            },
        ),
        r is Err ==> r == Err::<(), u16>(STATUS_UNAUTHORIZED),
{
    if !config.require_api_key {
        return Ok(());
    }
    let token = match auth_header {
        Some(h) => strip_bearer(h),
        None => None,
    };
    match (token, &config.api_key) {
        (Some(t), Some(expected)) => if same_chars(t, expected.as_str()) {
            Ok(())
        } else {
            Err(STATUS_UNAUTHORIZED)
        },
        (None, Some(_)) => Err(STATUS_UNAUTHORIZED),
        _ => Ok(()),
    }
}

/// HTTP status for a request whose checkout failed: a timeout, a closed pool
/// or an engine that could not be loaded all mean the service is unavailable
/// for now; a configuration error is the server's own fault.
pub fn checkout_failure_status(e: PoolError) -> (r: u16)
    ensures
        r == (match e {
            PoolError::Timeout | PoolError::Closed | PoolError::EngineLoad => STATUS_SERVICE_UNAVAILABLE,
            _ => STATUS_INTERNAL_SERVER_ERROR,
        }),
{
    match e {
        PoolError::Timeout | PoolError::Closed | PoolError::EngineLoad => STATUS_SERVICE_UNAVAILABLE,
        _ => STATUS_INTERNAL_SERVER_ERROR,
    }
}

/// What `str::trim` followed by `str::is_empty` says of a string: whether it
/// holds nothing but white space.
pub uninterp spec fn trims_to_empty(s: Seq<char>) -> bool;

/// Relies on str::trim and str::is_empty: whether the text is blank depends on
/// its characters alone, and the empty text is blank.
#[verifier::external_body]
fn is_blank(s: &str) -> (r: bool)
    ensures
        r == trims_to_empty(s@),
        s@.len() == 0 ==> r,
{
    s.trim().is_empty()
}

/// Why a speech request is refused before any engine is used.
#[derive(PartialEq, Eq, Structural, Clone, Copy, Debug)]
pub enum RequestProblem {
    /// The text to speak is blank.
    EmptyInput,
    /// An audio format other than WAV was asked for.
    UnsupportedFormat,
}

/// The format a request asks for; WAV when it names none.
pub open spec fn requested_format(response_format: Option<Seq<char>>) -> Seq<char> {
    match response_format {
        Some(f) => f,
        None => "wav"@,
    }
}

/// The first problem of a request whose text is `input_blank` and whose
/// format is `response_format`: a blank text first, then a format other than WAV.
pub fn request_problem(input_blank: bool, response_format: Option<&str>) -> (r: Option<RequestProblem>)
    ensures
        r == (if input_blank {
            Some(RequestProblem::EmptyInput)
        } else if requested_format(
            match response_format {
                Some(f) => Some(f@),
                None => None,
            },
        ) != "wav"@ {
            Some(RequestProblem::UnsupportedFormat)
        } else {
            None
        }),
{
    if input_blank {
        return Some(RequestProblem::EmptyInput);
    }
    match response_format {
        Some(f) => if same_chars(f, "wav") {
            None
        } else {
            Some(RequestProblem::UnsupportedFormat)
        },
        None => None,
    }
}

/// Checks a request's text and format; see `request_problem`.
pub fn check_request(input: &str, response_format: Option<&str>) -> (r: Option<RequestProblem>)
    ensures
        r == (if trims_to_empty(input@) {
            Some(RequestProblem::EmptyInput)
        } else if requested_format(
            match response_format {
                Some(f) => Some(f@),
                None => None,
            },
        ) != "wav"@ {
            Some(RequestProblem::UnsupportedFormat)
        } else {
            None
        }),
{
    request_problem(is_blank(input), response_format)
}

/// Whether `model` is one of the model names the server answers to; any
/// other name is served by the same engine.
pub fn is_known_model(model: &str) -> (r: bool)
    ensures
        r == (model@ == "supertts"@ || model@ == "tts-1"@ || model@ == "tts-1-hd"@),
{
    same_chars(model, "supertts") || same_chars(model, "tts-1") || same_chars(model, "tts-1-hd")
}

/// The error body for a refused request that asked for `response_format`.
pub fn request_problem_error(p: RequestProblem, response_format: &str) -> (r: TtsError)
    ensures
        r.error.type_@ == "invalid_request_error"@,
        p == RequestProblem::EmptyInput ==> r.error.message@ == "Input text cannot be empty"@,
        p == RequestProblem::EmptyInput ==> (r.error.code matches Some(c) && c@ == "empty_input"@),
        p == RequestProblem::UnsupportedFormat ==> r.error.message@ == "Response format '"@
            + response_format@ + "' is not supported. Only 'wav' is supported."@,
        p == RequestProblem::UnsupportedFormat ==> (r.error.code matches Some(c) && c@
            == "unsupported_format"@),
{
    match p {
        RequestProblem::EmptyInput => TtsError::new(
            "Input text cannot be empty".to_owned(),
            "invalid_request_error".to_owned(),
            Some("empty_input".to_owned()),
        ),
        RequestProblem::UnsupportedFormat => {
            let message = String::from_str("Response format '").concat(response_format).concat(
                "' is not supported. Only 'wav' is supported.",
            );
            TtsError::new(message, "invalid_request_error".to_owned(), Some("unsupported_format".to_owned()))
        },
    }
}

} // verus!
