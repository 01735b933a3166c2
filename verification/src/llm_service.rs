//! Language-model response records, the response cache, request checks and
//! retry classification.
use crate::prompt_builder::{estimate_token_count, token_estimate};
use crate::response_validator::{json_pointer_str, json_pointer_u64, json_str_at, json_u64_at};
use crate::text::{
    decimal, is_blank, opt_view, push_decimal, trim, trim_spec,
    append_str, parse_unsigned, parse_unsigned_exec, split_whitespace, starts_with, starts_with_spec,
    str_eq, string_from_chars, chars_of, words_spec,
};
use vstd::prelude::*;

verus! {

broadcast use vstd::seq_lib::group_seq_lib_default, vstd::seq_lib::group_filter_ensures;

/// Text and metadata returned by a language model.
#[derive(Debug, Clone, PartialEq)]
pub struct LLMResponse {
    pub text: String,
    pub model: Option<String>,
    pub finish_reason: Option<String>,
    pub prompt_tokens: Option<u32>,
    pub completion_tokens: Option<u32>,
    pub total_tokens: Option<u32>,
}

/// A copy of an optional string.
fn dup_opt_string(o: &Option<String>) -> (r: Option<String>)
    ensures
        r == *o,
{
    match o {
        Some(s) => Some(s.clone()),
        None => None,
    }
}

impl LLMResponse {
    /// A field-by-field copy.
    pub fn duplicate(&self) -> (r: LLMResponse)
        ensures
            r == *self,
    {
        LLMResponse {
            text: self.text.clone(),
            model: dup_opt_string(&self.model),
            finish_reason: dup_opt_string(&self.finish_reason),
            prompt_tokens: self.prompt_tokens,
            completion_tokens: self.completion_tokens,
            total_tokens: self.total_tokens,
        }
    }
}

/// Declares the HTTP client's error type so that errors can carry it.
#[verifier::external_type_specification]
#[verifier::external_body]
pub struct ExReqwestError(reqwest::Error);

/// Why a language-model call failed.
#[derive(Debug)]
pub enum LLMServiceError {
    InvalidConfig(String),
    InvalidRequest(String),
    Http(reqwest::Error),
    Api(String),
    InvalidResponse(String),
    Timeout,
}

/// `reqwest::Error::is_timeout`: whether the transport error was a timeout.
/// What makes an error a timeout is decided inside the client and is not restated.
#[verifier::external_body]
fn reqwest_is_timeout(e: &reqwest::Error) -> bool {
    e.is_timeout()
}

/// The `Display` text of a transport error; its wording belongs to the client
/// library and is not restated.
#[verifier::external_body]
fn reqwest_error_text(e: &reqwest::Error) -> String {
    e.to_string()
}

/// Whether `s` is the text shown for `e`: a fixed prefix naming the failure,
/// followed by the error's message (for a transport error, by the client's own
/// description of it).
pub open spec fn error_text_fits(e: LLMServiceError, s: Seq<char>) -> bool {
    match e {
        LLMServiceError::InvalidConfig(m) => s == "invalid config: "@ + m@,
        LLMServiceError::InvalidRequest(m) => s == "invalid request: "@ + m@,
        LLMServiceError::Http(_) => exists|t: Seq<char>| s == "http request failed: "@ + t,
        LLMServiceError::Api(m) => s == "llm api returned error: "@ + m@,
        LLMServiceError::InvalidResponse(m) => s == "invalid llm response: "@ + m@,
        LLMServiceError::Timeout => s == "llm request timed out"@,
    }
}

impl LLMServiceError {
    /// Classifies a transport error: timeouts become `Timeout`, anything else `Http`.
    pub fn from(err: reqwest::Error) -> (r: LLMServiceError)
        ensures
            match r {
                LLMServiceError::Timeout => true,
                LLMServiceError::Http(e) => e == err,
                _ => false,
            },
    {
        if reqwest_is_timeout(&err) {
            LLMServiceError::Timeout
        } else {
            LLMServiceError::Http(err)
        }
    }

    /// The text shown for the error.
    pub fn to_string(&self) -> (s: String)
        ensures
            error_text_fits(*self, s@),
    {
        match self {
            LLMServiceError::InvalidConfig(m) => {
                let mut s = "invalid config: ".to_string();
                append_str(&mut s, m.as_str());
                s
            },
            LLMServiceError::InvalidRequest(m) => {
                let mut s = "invalid request: ".to_string();
                append_str(&mut s, m.as_str());
                s
            },
            LLMServiceError::Http(e) => {
                let mut s = "http request failed: ".to_string();
                let t = reqwest_error_text(e);
                append_str(&mut s, t.as_str());
                s
            },
            LLMServiceError::Api(m) => {
                let mut s = "llm api returned error: ".to_string();
                append_str(&mut s, m.as_str());
                s
            },
            LLMServiceError::InvalidResponse(m) => {
                let mut s = "invalid llm response: ".to_string();
                append_str(&mut s, m.as_str());
                s
            },
            LLMServiceError::Timeout => "llm request timed out".to_string(),
        }
    }
}

/// HTTP statuses worth retrying: 429 and every 5xx.
pub open spec fn retryable_status(status: u16) -> bool {
    status == 429 || (500 <= status && status <= 599)
}

/// Whether a response status should be retried.
pub fn is_retryable_status(status: u16) -> (b: bool)
    ensures
        b == retryable_status(status),
{
    status == 429 || (500 <= status && status <= 599)
}

/// `s` with trailing commas and semicolons removed.
pub open spec fn trim_end_punct(s: Seq<char>) -> Seq<char>
    decreases s.len(),
{
    if s.len() > 0 && (s.last() == ',' || s.last() == ';') {
        trim_end_punct(s.drop_last())
    } else {
        s
    }
}

/// The status a `status=N` word reports, if the word is one and `N` (less
/// trailing commas and semicolons) is a valid `u16`.
pub open spec fn status_of_word(w: Seq<char>) -> Option<nat> {
    if starts_with_spec(w, "status="@) {
        parse_unsigned(trim_end_punct(w.subrange(7, w.len() as int)), 65535)
    } else {
        None
    }
}

/// The status reported by the first word of `words` that reports one, else 0.
pub open spec fn status_in_words(words: Seq<Seq<char>>) -> nat
    decreases words.len(),
{
    if words.len() == 0 {
        0
    } else {
        match status_of_word(words[0]) {
            Some(v) => v,
            None => status_in_words(words.drop_first()),
        }
    }
}

/// Errors worth retrying: timeouts, transport failures, and API errors whose
/// message reports a retryable status.
pub open spec fn retryable_error(e: LLMServiceError) -> bool {
    match e {
        LLMServiceError::Timeout => true,
        LLMServiceError::Http(_) => true,
        LLMServiceError::Api(msg) => retryable_status(status_in_words(words_spec(msg@)) as u16),
        _ => false,
    }
}

/// The characters from `from` on, with trailing commas and semicolons removed.
fn trim_end_punct_exec(v: &Vec<char>, from: usize) -> (r: String)
    requires
        from <= v@.len(),
    ensures
        r@ == trim_end_punct(v@.subrange(from as int, v@.len() as int)),
{
    let mut end = v.len();
    while end > from && (v[end - 1] == ',' || v[end - 1] == ';')
        invariant
            from <= end <= v@.len(),
            trim_end_punct(v@.subrange(from as int, end as int)) == trim_end_punct(
                v@.subrange(from as int, v@.len() as int),
            ),
        decreases end,
    {
        assert(v@.subrange(from as int, end as int).drop_last() =~= v@.subrange(
            from as int,
            end - 1,
        ));
        end = end - 1;
    }
    string_from_chars(&v.as_slice()[from..end])
}

/// The status of a `status=N` word, if it is one.
fn status_of_word_exec(w: &str) -> (r: Option<u16>)
    ensures
        match r {
            Some(v) => status_of_word(w@) == Some(v as nat),
            None => status_of_word(w@) is None,
        },
{
    if !starts_with(w, "status=") {
        return None;
    }
    proof {
        reveal_strlit("status=");
    }
    let v = chars_of(w);
    let rest = trim_end_punct_exec(&v, 7);
    match parse_unsigned_exec(rest.as_str(), 65535) {
        Some(n) => Some(n as u16),
        None => None,
    }
}

/// Whether an API error message reports a retryable status.
fn api_message_retryable(msg: &String) -> (b: bool)
    ensures
        b == retryable_status(status_in_words(words_spec(msg@)) as u16),
{
    let words = split_whitespace(msg.as_str());
    let ghost ws = words@.map_values(|x: String| x@);
    let mut i: usize = 0;
    assert(ws.subrange(0, ws.len() as int) =~= ws);
    while i < words.len()
        invariant
            i <= words@.len(),
            ws == words@.map_values(|x: String| x@),
            ws == words_spec(msg@),
            status_in_words(ws) == status_in_words(ws.subrange(i as int, ws.len() as int)),
        decreases words@.len() - i,
    {
        let ghost sub = ws.subrange(i as int, ws.len() as int);
        assert(sub[0] == words@[i as int]@);
        assert(sub.drop_first() =~= ws.subrange(i + 1, ws.len() as int));
        match status_of_word_exec(words[i].as_str()) {
            Some(v) => {
                assert(status_in_words(sub) == v as nat);
                return is_retryable_status(v);
            },
            None => {},
        }
        i = i + 1;
    }
    assert(ws.subrange(i as int, ws.len() as int) =~= Seq::<Seq<char>>::empty());
    is_retryable_status(0)
}

/// Whether a failed call should be retried.
pub fn is_retryable_error(err: &LLMServiceError) -> (b: bool)
    ensures
        b == retryable_error(*err),
{
    match err {
        LLMServiceError::Timeout => true,
        LLMServiceError::Http(_) => true,
        LLMServiceError::Api(msg) => api_message_retryable(msg),
        _ => false,
    }
}

// ---------------------------------------------------------------------------
// Requests
// ---------------------------------------------------------------------------
/// Seconds a request may take before it is abandoned.
pub const DEFAULT_TIMEOUT_SECS: u64 = 30;

/// Responses kept in the cache.
pub const DEFAULT_CACHE_MAX_ENTRIES: usize = 512;

/// Seconds a cached response stays usable.
pub const DEFAULT_CACHE_TTL_SECS: u64 = 600;

/// Retries after the first attempt.
pub const DEFAULT_MAX_RETRIES: u32 = 2;

/// Pause before a retry, per attempt made, in milliseconds.
pub const DEFAULT_RETRY_BACKOFF_MS: u64 = 200;

/// The file the model settings are kept in, relative to the working directory.
pub fn config_file_path() -> (p: String)
    ensures
        p@ == ".nobody_llm_config.json"@,
{
    ".nobody_llm_config.json".to_string()
}

/// `r` is a refused request with the given message.
pub open spec fn request_error<T>(r: Result<T, LLMServiceError>, msg: Seq<char>) -> bool {
    match r {
        Err(LLMServiceError::InvalidRequest(m)) => m@ == msg,
        _ => false,
    }
}

/// `r` is a refused configuration with the given message.
pub open spec fn config_error<T>(r: Result<T, LLMServiceError>, msg: Seq<char>) -> bool {
    match r {
        Err(LLMServiceError::InvalidConfig(m)) => m@ == msg,
        _ => false,
    }
}

/// Checks the settings a service is built with, all but its temperature:
/// endpoint, key and model must not be blank, and answers must be allowed
/// at least one token.
pub fn validate_config_fields(endpoint: &str, api_key: &str, model: &str, max_tokens: u32) -> (r:
    Result<(), LLMServiceError>)
    ensures
        trim_spec(endpoint@).len() == 0 ==> config_error(r, "endpoint must not be empty"@,
        ),
        trim_spec(endpoint@).len() > 0 && trim_spec(api_key@).len() == 0 ==> config_error(r, "api_key must not be empty"@),
        trim_spec(endpoint@).len() > 0 && trim_spec(api_key@).len() > 0 && trim_spec(model@).len()
            == 0 ==> config_error(r, "model must not be empty"@),
        trim_spec(endpoint@).len() > 0 && trim_spec(api_key@).len() > 0 && trim_spec(model@).len()
            > 0 && max_tokens == 0 ==> config_error(r, "max_tokens must be greater than 0"@,
        ),
        r is Ok <==> (trim_spec(endpoint@).len() > 0 && trim_spec(api_key@).len() > 0 && trim_spec(
            model@,
        ).len() > 0 && max_tokens > 0),
{
    if is_blank(endpoint) {
        return Err(LLMServiceError::InvalidConfig("endpoint must not be empty".to_string()));
    }
    if is_blank(api_key) {
        return Err(LLMServiceError::InvalidConfig("api_key must not be empty".to_string()));
    }
    if is_blank(model) {
        return Err(LLMServiceError::InvalidConfig("model must not be empty".to_string()));
    }
    if max_tokens == 0 {
        return Err(LLMServiceError::InvalidConfig("max_tokens must be greater than 0".to_string()));
    }
    Ok(())
}

/// The answer budget of a request: what it asks for (the configured size
/// when it asks nothing), capped by the configured size.
pub open spec fn resolved_max_tokens(requested: Option<u32>, config_max: u32) -> u32 {
    let r = match requested {
        Some(v) => v,
        None => config_max,
    };
    if r < config_max {
        r
    } else {
        config_max
    }
}

/// The checks made on a request before its temperature: the prompt must not
/// be blank and the answer budget must be positive; gives the budget.
pub fn check_request(prompt: &str, requested: Option<u32>, config_max: u32) -> (r: Result<
    u32,
    LLMServiceError,
>)
    ensures
        trim_spec(prompt@).len() == 0 ==> request_error(r, "prompt must not be empty"@,
        ),
        trim_spec(prompt@).len() > 0 && resolved_max_tokens(requested, config_max) == 0 ==> request_error(r, "max_tokens must be greater than 0"@),
        trim_spec(prompt@).len() > 0 && resolved_max_tokens(requested, config_max) > 0 ==> r == Ok::<
            u32,
            LLMServiceError,
        >(resolved_max_tokens(requested, config_max)),
{
    if is_blank(prompt) {
        return Err(LLMServiceError::InvalidRequest("prompt must not be empty".to_string()));
    }
    let r = match requested {
        Some(v) => v,
        None => config_max,
    };
    let max_tokens = if r < config_max {
        r
    } else {
        config_max
    };
    if max_tokens == 0 {
        return Err(LLMServiceError::InvalidRequest("max_tokens must be greater than 0".to_string()));
    }
    Ok(max_tokens)
}

/// The largest prompt estimate accepted for an answer budget: 64 tokens of
/// prompt per answer token, saturating.
pub open spec fn prompt_token_limit(max_tokens: u32) -> u32 {
    if max_tokens * 64 > u32::MAX {
        u32::MAX
    } else {
        (max_tokens * 64) as u32
    }
}

/// Refuses prompts whose token estimate exceeds the limit for the budget.
pub fn check_prompt_budget(prompt: &str, max_tokens: u32) -> (r: Result<(), LLMServiceError>)
    ensures
        token_estimate(prompt@) <= prompt_token_limit(max_tokens) ==> r is Ok,
        token_estimate(prompt@) > prompt_token_limit(max_tokens) ==> request_error(r, "estimated prompt tokens "@ + decimal(token_estimate(prompt@)) + " exceeds prompt limit "@
                + decimal(prompt_token_limit(max_tokens) as nat),
        ),
{
    let estimated = estimate_token_count(prompt);
    let limit: u32 = if max_tokens > 67108863 {
        4294967295
    } else {
        max_tokens * 64
    };
    if estimated > limit {
        let mut m = "estimated prompt tokens ".to_string();
        push_decimal(&mut m, estimated as u64);
        append_str(&mut m, " exceeds prompt limit ");
        push_decimal(&mut m, limit as u64);
        return Err(LLMServiceError::InvalidRequest(m));
    }
    Ok(())
}

/// Whether a failed attempt is retried: while retries remain, and the
/// failure is worth retrying.
pub fn should_retry_error(attempt: u32, err: &LLMServiceError) -> (b: bool)
    ensures
        b == (attempt <= DEFAULT_MAX_RETRIES && retryable_error(*err)),
{
    attempt <= DEFAULT_MAX_RETRIES && is_retryable_error(err)
}

/// Whether an attempt answered with an unsuccessful status is retried.
pub fn should_retry_status(attempt: u32, status: u16) -> (b: bool)
    ensures
        b == (attempt <= DEFAULT_MAX_RETRIES && retryable_status(status)),
{
    attempt <= DEFAULT_MAX_RETRIES && is_retryable_status(status)
}

/// The error for an unsuccessful status, with the status line and the body.
pub fn api_error(status: &str, body: &str) -> (e: LLMServiceError)
    ensures
        e matches LLMServiceError::Api(m) && m@ == "status="@ + status@ + " body="@ + body@,
{
    let mut m = "status=".to_string();
    append_str(&mut m, status);
    append_str(&mut m, " body=");
    append_str(&mut m, body);
    LLMServiceError::Api(m)
}

/// The pause before retrying after the given attempt, in milliseconds.
pub fn backoff_millis(attempt: u32) -> (ms: u64)
    ensures
        ms == DEFAULT_RETRY_BACKOFF_MS * attempt,
{
    DEFAULT_RETRY_BACKOFF_MS * attempt as u64
}

/// The answer text of a response document: the first chat message, else
/// the first completion, else `output_text`.
pub open spec fn answer_text(body: Seq<char>) -> Option<Seq<char>> {
    match json_str_at(body, "/choices/0/message/content"@) {
        Some(t) => Some(t),
        None => match json_str_at(body, "/choices/0/text"@) {
            Some(t) => Some(t),
            None => json_str_at(body, "/output_text"@),
        },
    }
}

/// A token count of a response document, when it is there and fits `u32`.
pub open spec fn usage_count(body: Seq<char>, pointer: Seq<char>) -> Option<u32> {
    match json_u64_at(body, pointer) {
        Some(v) => if v <= u32::MAX {
            Some(v as u32)
        } else {
            None
        },
        None => None,
    }
}

/// A token count at `pointer`, when present and small enough for `u32`.
fn usage_count_exec(body: &str, pointer: &str) -> (r: Option<u32>)
    ensures
        r == usage_count(body@, pointer@),
{
    match json_pointer_u64(body, pointer) {
        Some(v) => if v <= 4294967295 {
            Some(v as u32)
        } else {
            None
        },
        None => None,
    }
}

/// Whether `r` is what a response document `body` reads as: its answer text,
/// trimmed, when there is a non-blank one, with the model, finish reason and
/// token usage it reports; else the error that no text was found.
pub open spec fn read_from(body: Seq<char>, r: Result<LLMResponse, LLMServiceError>) -> bool {
    match r {
        Ok(resp) => answer_text(body) matches Some(t) && trim_spec(t).len() > 0 && resp.text@
            == trim_spec(t) && opt_view(resp.model) == json_str_at(body, "/model"@) && opt_view(
            resp.finish_reason,
        ) == json_str_at(body, "/choices/0/finish_reason"@) && resp.prompt_tokens == usage_count(
            body,
            "/usage/prompt_tokens"@,
        ) && resp.completion_tokens == usage_count(body, "/usage/completion_tokens"@)
            && resp.total_tokens == usage_count(body, "/usage/total_tokens"@),
        Err(e) => !(answer_text(body) matches Some(t) && trim_spec(t).len() > 0) && (e matches LLMServiceError::InvalidResponse(
            m,
        ) && m@ == "unable to locate text content"@),
    }
}

/// Reads a model's response document: its answer text, trimmed, is
/// required; model, finish reason and token usage are taken when present.
pub fn parse_response(body: &str) -> (r: Result<LLMResponse, LLMServiceError>)
    ensures
        read_from(body@, r),
{
    let found = match json_pointer_str(body, "/choices/0/message/content") {
        Some(t) => Some(t),
        None => match json_pointer_str(body, "/choices/0/text") {
            Some(t) => Some(t),
            None => json_pointer_str(body, "/output_text"),
        },
    };
    let text = match found {
        Some(t) => trim(t.as_str()),
        None => {
            return Err(
                LLMServiceError::InvalidResponse("unable to locate text content".to_string()),
            );
        },
    };
    if text.as_str().is_empty() {
        return Err(LLMServiceError::InvalidResponse("unable to locate text content".to_string()));
    }
    Ok(
        LLMResponse {
            text,
            model: json_pointer_str(body, "/model"),
            finish_reason: json_pointer_str(body, "/choices/0/finish_reason"),
            prompt_tokens: usage_count_exec(body, "/usage/prompt_tokens"),
            completion_tokens: usage_count_exec(body, "/usage/completion_tokens"),
            total_tokens: usage_count_exec(body, "/usage/total_tokens"),
        },
    )
}

/// What one attempt at calling the model came to.
pub enum AttemptOutcome {
    /// The request was not sent or not answered.
    Transport(LLMServiceError),
    /// The service answered with an unsuccessful status.
    Refused { status: u16, status_line: String, body: String },
    /// The service answered successfully with this document.
    Answered(String),
}

/// What to do after an attempt.
pub enum NextStep {
    /// Wait this many milliseconds, then try again.
    Retry { wait_ms: u64 },
    /// Give up with this error.
    Fail(LLMServiceError),
    /// The call succeeded with this response.
    Done(LLMResponse),
}

/// Decides what follows an attempt: a failure worth retrying is retried
/// after the backoff while retries remain; a refusal otherwise fails with the
/// status and body; an answer is read, and fails when it holds no text.
pub fn next_step(attempt: u32, outcome: AttemptOutcome) -> (s: NextStep)
    ensures
        match outcome {
            AttemptOutcome::Transport(e) => if attempt <= DEFAULT_MAX_RETRIES && retryable_error(e) {
                s == NextStep::Retry { wait_ms: (DEFAULT_RETRY_BACKOFF_MS * attempt) as u64 }
            } else {
                s == NextStep::Fail(e)
            },
            AttemptOutcome::Refused { status, status_line, body } => if attempt
                <= DEFAULT_MAX_RETRIES && retryable_status(status) {
                s == NextStep::Retry { wait_ms: (DEFAULT_RETRY_BACKOFF_MS * attempt) as u64 }
            } else {
                s matches NextStep::Fail(LLMServiceError::Api(m)) && m@ == "status="@ + status_line@
                    + " body="@ + body@
            },
            AttemptOutcome::Answered(body) => match s {
                NextStep::Done(r) => read_from(body@, Ok(r)),
                NextStep::Fail(e) => read_from(body@, Err(e)),
                NextStep::Retry { .. } => false,
            },
        },
{
    match outcome {
        AttemptOutcome::Transport(e) => {
            if should_retry_error(attempt, &e) {
                NextStep::Retry { wait_ms: backoff_millis(attempt) }
            } else {
                NextStep::Fail(e)
            }
        },
        AttemptOutcome::Refused { status, status_line, body } => {
            if should_retry_status(attempt, status) {
                NextStep::Retry { wait_ms: backoff_millis(attempt) }
            } else {
                NextStep::Fail(api_error(status_line.as_str(), body.as_str()))
            }
        },
        AttemptOutcome::Answered(body) => match parse_response(body.as_str()) {
            Ok(r) => NextStep::Done(r),
            Err(e) => NextStep::Fail(e),
        },
    }
}

// ---------------------------------------------------------------------------
// Response cache
// ---------------------------------------------------------------------------
/// One cached response with the time it was stored and its last-use tick.
#[derive(Debug, Clone)]
pub struct CacheEntry {
    pub key: String,
    pub response: LLMResponse,
    pub cached_at: u64,
    pub last_access: u64,
}

/// Declares the monotonic clock reading that a cache measures its times from.
#[verifier::external_type_specification]
#[verifier::external_body]
pub struct ExInstant(std::time::Instant);

/// A bounded cache of responses keyed by request, with expiry after a time to
/// live and least-recently-used eviction when full. Times are nanoseconds
/// since the cache was made, read from a monotonic clock.
#[derive(Debug)]
pub struct ResponseCache {
    entries: Vec<CacheEntry>,
    max_entries: usize,
    ttl: u64,
    access_counter: u64,
    origin: std::time::Instant,
}

/// `e` has outlived the time to live at time `now`.
pub open spec fn expired(e: CacheEntry, now: u64, ttl: u64) -> bool {
    now > e.cached_at && now - e.cached_at > ttl
}

/// Position of the entry with the given key, if any.
pub open spec fn key_index(s: Seq<CacheEntry>, key: Seq<char>) -> int
    decreases s.len(),
{
    if s.len() == 0 {
        -1
    } else if s.last().key@ == key {
        s.len() - 1
    } else {
        key_index(s.drop_last(), key)
    }
}

/// No two entries share a key.
pub open spec fn keys_unique(s: Seq<CacheEntry>) -> bool {
    forall|i: int, j: int| 0 <= i < j < s.len() ==> (#[trigger] s[i]).key@ != (#[trigger] s[j]).key@
}

/// Entries that survive expiry at `now`.
pub open spec fn purged(s: Seq<CacheEntry>, now: u64, ttl: u64) -> Seq<CacheEntry> {
    s.filter(|e: CacheEntry| !expired(e, now, ttl))
}

/// `i` holds an entry whose last use is no later than any other's, and no
/// earlier entry is as old.
pub open spec fn is_lru_index(s: Seq<CacheEntry>, i: int) -> bool {
    &&& 0 <= i < s.len()
    &&& forall|k: int| 0 <= k < s.len() ==> s[i].last_access <= (#[trigger] s[k]).last_access
    &&& forall|k: int| 0 <= k < i ==> s[i].last_access < (#[trigger] s[k]).last_access
}

/// The least recently used position: the first entry with the smallest
/// access tick.
pub open spec fn lru_position(s: Seq<CacheEntry>) -> int {
    choose|i: int| is_lru_index(s, i)
}

/// The access tick that follows `t` (saturating).
pub open spec fn tick_after(t: u64) -> u64 {
    if t == u64::MAX {
        u64::MAX
    } else {
        (t + 1) as u64
    }
}

/// The entries after storing `e` among the unexpired entries `p` of a cache
/// holding at most `cap`: an entry under the same key is replaced in place;
/// otherwise `e` is appended, after evicting the least recently used entry
/// when the cache is full. Every other entry stays as it was.
pub open spec fn stored(p: Seq<CacheEntry>, e: CacheEntry, cap: nat) -> Seq<CacheEntry> {
    let i = key_index(p, e.key@);
    if i >= 0 {
        p.update(i, e)
    } else if p.len() < cap {
        p.push(e)
    } else {
        p.remove(lru_position(p)).push(e)
    }
}

/// The entries after a lookup of `key` among the unexpired entries `p`: a
/// hit takes the access tick `tick`; nothing else changes.
pub open spec fn touched(p: Seq<CacheEntry>, key: Seq<char>, tick: u64) -> Seq<CacheEntry> {
    let i = key_index(p, key);
    if i >= 0 {
        p.update(i, CacheEntry { last_access: tick, ..p[i] })
    } else {
        p
    }
}

/// The response stored under `key`, if any.
pub open spec fn cached(s: Seq<CacheEntry>, key: Seq<char>) -> Option<LLMResponse> {
    let i = key_index(s, key);
    if 0 <= i {
        Some(s[i].response)
    } else {
        None
    }
}

/// The position found for a key holds that key, and no earlier one does.
proof fn lemma_key_index(s: Seq<CacheEntry>, key: Seq<char>)
    requires
        keys_unique(s),
    ensures
        -1 <= key_index(s, key) < s.len(),
        key_index(s, key) >= 0 ==> s[key_index(s, key)].key@ == key,
        key_index(s, key) < 0 ==> forall|i: int| 0 <= i < s.len() ==> (#[trigger] s[i]).key@ != key,
        forall|i: int| 0 <= i < s.len() && (#[trigger] s[i]).key@ == key ==> i == key_index(s, key),
    decreases s.len(),
{
    if s.len() > 0 {
        let t = s.drop_last();
        assert(keys_unique(t)) by {
            assert forall|i: int, j: int| 0 <= i < j < t.len() implies (#[trigger] t[i]).key@ != (
            #[trigger] t[j]).key@ by {
                assert(t[i] == s[i] && t[j] == s[j]);
            }
        }
        lemma_key_index(t, key);
        assert forall|i: int| 0 <= i < t.len() implies #[trigger] t[i] == s[i] by {}
        if s.last().key@ == key {
            assert forall|i: int| 0 <= i < s.len() && (#[trigger] s[i]).key@ == key implies i
                == key_index(s, key) by {
                if i < s.len() - 1 {
                    assert(s[i].key@ != s[s.len() - 1].key@);
                }
            }
        } else {
            assert forall|i: int| 0 <= i < s.len() && (#[trigger] s[i]).key@ == key implies i
                == key_index(s, key) by {
                if i < s.len() - 1 {
                    assert(t[i] == s[i]);
                }
            }
            assert forall|i: int| key_index(s, key) < 0 && 0 <= i < s.len() implies (
            #[trigger] s[i]).key@ != key by {
                if i < s.len() - 1 {
                    assert(t[i] == s[i]);
                }
            }
        }
    }
}

/// Keeping some entries of a cache with unique keys keeps the keys unique.
proof fn lemma_filter_keys_unique(s: Seq<CacheEntry>, pred: spec_fn(CacheEntry) -> bool)
    requires
        keys_unique(s),
    ensures
        keys_unique(s.filter(pred)),
        forall|e: CacheEntry| #[trigger] s.filter(pred).contains(e) ==> s.contains(e) && pred(e),
        forall|i: int| 0 <= i < s.len() && pred(s[i]) ==> #[trigger] s.filter(pred).contains(s[i]),
    decreases s.len(),
{
    reveal(Seq::filter);
    if s.len() > 0 {
        let t = s.drop_last();
        assert(keys_unique(t)) by {
            assert forall|i: int, j: int| 0 <= i < j < t.len() implies (#[trigger] t[i]).key@ != (
            #[trigger] t[j]).key@ by {
                assert(t[i] == s[i] && t[j] == s[j]);
            }
        }
        lemma_filter_keys_unique(t, pred);
        let ft = t.filter(pred);
        assert forall|i: int| 0 <= i < t.len() implies #[trigger] t[i] == s[i] by {}
        if pred(s.last()) {
            let f = ft.push(s.last());
            assert forall|i: int, j: int| 0 <= i < j < f.len() implies (#[trigger] f[i]).key@ != (
            #[trigger] f[j]).key@ by {
                if j == f.len() - 1 {
                    assert(ft.contains(f[i]));
                    let k = choose|k: int| 0 <= k < t.len() && t[k] == f[i];
                    assert(s[k] == f[i]);
                    assert(s[s.len() - 1] == s.last());
                } else {
                    assert(f[i] == ft[i] && f[j] == ft[j]);
                }
            }
            assert forall|e: CacheEntry| #[trigger] f.contains(e) implies s.contains(e) && pred(
                e,
            ) by {
                let k = choose|k: int| 0 <= k < f.len() && f[k] == e;
                if k < ft.len() {
                    assert(ft.contains(ft[k]));
                    assert(f[k] == ft[k]);
                    let m = choose|m: int| 0 <= m < t.len() && t[m] == e;
                    assert(s[m] == e);
                } else {
                    assert(s[s.len() - 1] == e);
                }
            }
            assert forall|i: int| 0 <= i < s.len() && pred(s[i]) implies #[trigger] f.contains(
                s[i],
            ) by {
                if i < s.len() - 1 {
                    assert(ft.contains(t[i]));
                    let k = choose|k: int| 0 <= k < ft.len() && ft[k] == t[i];
                    assert(f[k] == s[i]);
                } else {
                    assert(f[f.len() - 1] == s[i]);
                }
            }
        } else {
            assert forall|e: CacheEntry| #[trigger] ft.contains(e) implies s.contains(e) && pred(
                e,
            ) by {
                let m = choose|m: int| 0 <= m < t.len() && t[m] == e;
                assert(s[m] == e);
            }
            assert forall|i: int| 0 <= i < s.len() && pred(s[i]) implies #[trigger] ft.contains(
                s[i],
            ) by {
                if i < s.len() - 1 {
                    assert(ft.contains(t[i]));
                }
            }
        }
    }
}

/// A key cached in a sub-list of entries is cached the same way in the whole.
proof fn lemma_cached_from_subset(s1: Seq<CacheEntry>, s2: Seq<CacheEntry>, k: Seq<char>)
    requires
        keys_unique(s1),
        keys_unique(s2),
        key_index(s2, k) >= 0,
        s1.contains(s2[key_index(s2, k)]),
    ensures
        cached(s1, k) == cached(s2, k),
{
    lemma_key_index(s2, k);
    lemma_key_index(s1, k);
    let e = s2[key_index(s2, k)];
    let m = choose|m: int| 0 <= m < s1.len() && s1[m] == e;
    assert(s1[m].key@ == k);
}

/// Exactly one position is least recently used.
proof fn lemma_lru_unique(s: Seq<CacheEntry>, i: int)
    requires
        is_lru_index(s, i),
    ensures
        lru_position(s) == i,
{
    let j = lru_position(s);
    assert(is_lru_index(s, j));
    if j < i {
        assert(s[i].last_access < s[j].last_access);
        assert(s[j].last_access <= s[i].last_access);
    } else if i < j {
        assert(s[j].last_access < s[i].last_access);
        assert(s[i].last_access <= s[j].last_access);
    }
}

/// A response stored at time `t` is what a lookup of its key gives back at
/// any time `now` no later than `t` plus the time to live: a read within the
/// time to live returns what was written.
pub proof fn read_within_ttl_returns_write(
    s: Seq<CacheEntry>,
    k: Seq<char>,
    r: LLMResponse,
    t: u64,
    now: u64,
    ttl: u64,
)
    requires
        keys_unique(s),
        cached(s, k) == Some(r),
        s[key_index(s, k)].cached_at == t,
        now <= t + ttl,
    ensures
        cached(purged(s, now, ttl), k) == Some(r),
{
    let pred = |e: CacheEntry| !expired(e, now, ttl);
    lemma_key_index(s, k);
    lemma_filter_keys_unique(s, pred);
    lemma_cached_from_subset(purged(s, now, ttl), s, k);
}

/// `Instant::now`: the current reading of the monotonic clock. Nothing is
/// promised about the value.
#[verifier::external_body]
fn instant_now() -> std::time::Instant {
    std::time::Instant::now()
}

/// `Instant::elapsed` in nanoseconds (cut to 64 bits, which holds over five
/// centuries): the time since `origin` on the monotonic clock. It reads the
/// clock, so nothing is promised about the value.
#[verifier::external_body]
fn nanos_since(origin: &std::time::Instant) -> u64 {
    origin.elapsed().as_nanos() as u64
}

impl ResponseCache {
    /// The entries, in storage order.
    pub closed spec fn entries(&self) -> Seq<CacheEntry> {
        self.entries@
    }

    /// Most entries the cache holds.
    pub closed spec fn capacity(&self) -> nat {
        self.max_entries as nat
    }

    /// Time to live in nanoseconds.
    pub closed spec fn ttl_ns(&self) -> u64 {
        self.ttl
    }

    /// The tick last handed out.
    pub closed spec fn tick(&self) -> u64 {
        self.access_counter
    }

    /// Keys are unique, the capacity is at least one and never exceeded.
    pub open spec fn wf(&self) -> bool {
        &&& keys_unique(self.entries())
        &&& self.capacity() >= 1
        &&& self.entries().len() <= self.capacity()
    }

    /// An empty cache holding at most `max(max_entries, 1)` entries, each for `ttl` nanoseconds.
    pub fn new(max_entries: usize, ttl: u64) -> (c: ResponseCache)
        ensures
            c.wf(),
            c.entries() == Seq::<CacheEntry>::empty(),
            c.capacity() == if max_entries >= 1 {
                max_entries as nat
            } else {
                1nat
            },
            c.ttl_ns() == ttl,
            c.tick() == 0,
    {
        ResponseCache {
            entries: Vec::new(),
            max_entries: if max_entries >= 1 {
                max_entries
            } else {
                1
            },
            ttl,
            access_counter: 0,
            origin: instant_now(),
        }
    }

    /// Number of stored entries.
    pub fn len(&self) -> (n: usize)
        ensures
            n == self.entries().len(),
    {
        self.entries.len()
    }

    /// Hands out the next access tick (saturating).
    pub fn next_tick(&mut self) -> (t: u64)
        ensures
            t == if old(self).tick() == u64::MAX {
                u64::MAX
            } else {
                (old(self).tick() + 1) as u64
            },
            final(self).tick() == t,
            final(self).entries() == old(self).entries(),
            final(self).capacity() == old(self).capacity(),
            final(self).ttl_ns() == old(self).ttl_ns(),
            old(self).wf() ==> final(self).wf(),
    {
        self.access_counter = self.access_counter.saturating_add(1);
        self.access_counter
    }

    /// Drops every entry that has outlived the time to live at `now`.
    pub fn purge_expired(&mut self, now: u64)
        requires
            old(self).wf(),
        ensures
            final(self).wf(),
            final(self).entries() == purged(old(self).entries(), now, old(self).ttl_ns()),
            final(self).capacity() == old(self).capacity(),
            final(self).ttl_ns() == old(self).ttl_ns(),
            final(self).tick() == old(self).tick(),
    {
        let ghost pred = |e: CacheEntry| !expired(e, now, self.ttl);
        let ghost orig = self.entries@;
        let mut kept: Vec<CacheEntry> = Vec::new();
        let mut old_entries: Vec<CacheEntry> = Vec::new();
        std::mem::swap(&mut old_entries, &mut self.entries);
        let mut i: usize = 0;
        while i < old_entries.len()
            invariant
                i <= old_entries@.len(),
                old_entries@ == orig,
                kept@ == orig.take(i as int).filter(pred),
                pred == (|e: CacheEntry| !expired(e, now, self.ttl)),
            decreases old_entries@.len() - i,
        {
            let e = &old_entries[i];
            let keep = !(now > e.cached_at && now - e.cached_at > self.ttl);
            proof {
                assert(orig.take(i + 1) =~= orig.take(i as int).push(*e));
                orig.take(i as int).lemma_filter_push(*e, pred);
            }
            if keep {
                kept.push(e.clone_entry());
            }
            i = i + 1;
        }
        assert(orig.take(orig.len() as int) =~= orig);
        proof {
            lemma_filter_keys_unique(orig, pred);
        }
        self.entries = kept;
    }

    /// Removes the least recently used entry (the first such one), if any.
    pub fn evict_lru(&mut self)
        requires
            old(self).wf(),
        ensures
            final(self).wf(),
            old(self).entries().len() == 0 ==> final(self).entries() == old(self).entries(),
            forall|e: CacheEntry| #[trigger]
                final(self).entries().contains(e) ==> old(self).entries().contains(e),
            old(self).entries().len() > 0 ==> is_lru_index(
                old(self).entries(),
                lru_position(old(self).entries()),
            ),
            old(self).entries().len() > 0 ==> final(self).entries() == old(
                self,
            ).entries().remove(lru_position(old(self).entries())),
            final(self).capacity() == old(self).capacity(),
            final(self).ttl_ns() == old(self).ttl_ns(),
            final(self).tick() == old(self).tick(),
    {
        if self.entries.len() == 0 {
            return ;
        }
        let mut best: usize = 0;
        let mut i: usize = 1;
        while i < self.entries.len()
            invariant
                1 <= i <= self.entries@.len(),
                best < i,
                forall|k: int| 0 <= k < i ==> self.entries@[best as int].last_access <= (
                #[trigger] self.entries@[k]).last_access,
                forall|k: int| 0 <= k < best ==> self.entries@[best as int].last_access < (
                #[trigger] self.entries@[k]).last_access,
            decreases self.entries@.len() - i,
        {
            if self.entries[i].last_access < self.entries[best].last_access {
                best = i;
            }
            i = i + 1;
        }
        let ghost before = self.entries@;
        self.entries.remove(best);
        proof {
            assert(is_lru_index(before, best as int));
            lemma_lru_unique(before, best as int);
            let after = self.entries@;
            assert forall|a: int, b: int| 0 <= a < b < after.len() implies (
            #[trigger] after[a]).key@ != (#[trigger] after[b]).key@ by {
                let a0 = if a < best {
                    a
                } else {
                    a + 1
                };
                let b0 = if b < best {
                    b
                } else {
                    b + 1
                };
                assert(after[a] == before[a0] && after[b] == before[b0]);
            }
            assert forall|e: CacheEntry| #[trigger] after.contains(e) implies before.contains(e) by {
                let m = choose|m: int| 0 <= m < after.len() && after[m] == e;
                if m < best {
                    assert(before[m] == e);
                } else {
                    assert(before[m + 1] == e);
                }
            }
        }
    }

    /// Position of `key` among the entries.
    fn find_key(&self, key: &str) -> (r: Option<usize>)
        requires
            self.wf(),
        ensures
            match r {
                Some(i) => i == key_index(self.entries(), key@) && i < self.entries().len(),
                None => key_index(self.entries(), key@) < 0,
            },
    {
        proof {
            lemma_key_index(self.entries@, key@);
        }
        let mut i: usize = 0;
        while i < self.entries.len()
            invariant
                i <= self.entries@.len(),
                keys_unique(self.entries@),
                forall|k: int| 0 <= k < i ==> (#[trigger] self.entries@[k]).key@ != key@,
                -1 <= key_index(self.entries@, key@) < self.entries@.len(),
                key_index(self.entries@, key@) >= 0 ==> self.entries@[key_index(
                    self.entries@,
                    key@,
                )].key@ == key@,
                forall|j: int|
                    0 <= j < self.entries@.len() && (#[trigger] self.entries@[j]).key@ == key@
                        ==> j == key_index(self.entries@, key@),
            decreases self.entries@.len() - i,
        {
            if str_eq(self.entries[i].key.as_str(), key) {
                return Some(i);
            }
            i = i + 1;
        }
        None
    }

    /// Stores `response` under `key` at time `now`: expired entries are dropped
    /// first, then, when `key` is new and the cache is full, the least recently
    /// used entry is evicted; the entry gets the next access tick.
    pub fn insert_at(&mut self, key: String, response: LLMResponse, now: u64)
        requires
            old(self).wf(),
        ensures
            final(self).wf(),
            final(self).entries() == stored(
                purged(old(self).entries(), now, old(self).ttl_ns()),
                (CacheEntry {
                    key: key,
                    response: response,
                    cached_at: now,
                    last_access: tick_after(old(self).tick()),
                }),
                old(self).capacity(),
            ),
            cached(final(self).entries(), key@) == Some(response),
            final(self).entries()[key_index(final(self).entries(), key@)].cached_at == now,
            final(self).tick() == tick_after(old(self).tick()),
            final(self).capacity() == old(self).capacity(),
            final(self).ttl_ns() == old(self).ttl_ns(),
    {
        self.purge_expired(now);
        let ghost p = self.entries@;
        let pos = self.find_key(key.as_str());
        if pos.is_none() && self.entries.len() >= self.max_entries {
            self.evict_lru();
        }
        let ghost before = self.entries@;
        let tick = self.next_tick();
        let entry = CacheEntry { key, response, cached_at: now, last_access: tick };
        proof {
            lemma_key_index(p, entry.key@);
            assert forall|e: CacheEntry| #[trigger] before.contains(e) implies p.contains(e) by {
                if before.len() == p.len() {
                    assert(before == p);
                }
            }
        }
        match pos {
            Some(i) => {
                self.entries.set(i, entry);
            },
            None => {
                self.entries.push(entry);
            },
        }
        proof {
            let after = self.entries@;
            assert(after == stored(p, entry, self.max_entries as nat));
            assert forall|a: int, b: int| 0 <= a < b < after.len() implies (
            #[trigger] after[a]).key@ != (#[trigger] after[b]).key@ by {
                if b == after.len() - 1 && pos is None {
                    assert(after[a] == before[a]);
                    assert(before.contains(before[a]));
                } else if pos is Some && (a == pos->0 || b == pos->0) {
                    if a == pos->0 {
                        assert(after[b] == before[b]);
                    } else {
                        assert(after[a] == before[a]);
                    }
                } else {
                    assert(after[a] == before[a] && after[b] == before[b]);
                }
            }
            lemma_key_index(after, entry.key@);
            if pos is None {
                assert(after[after.len() - 1] == entry);
            } else {
                assert(after[pos->0 as int] == entry);
            }
        }
    }

    /// The response stored under `key` at time `now`, after dropping expired
    /// entries; a hit refreshes the entry's access tick.
    pub fn get_at(&mut self, key: &str, now: u64) -> (r: Option<LLMResponse>)
        requires
            old(self).wf(),
        ensures
            final(self).wf(),
            r == cached(purged(old(self).entries(), now, old(self).ttl_ns()), key@),
            final(self).entries() == touched(
                purged(old(self).entries(), now, old(self).ttl_ns()),
                key@,
                tick_after(old(self).tick()),
            ),
            final(self).tick() == tick_after(old(self).tick()),
            forall|k: Seq<char>|
                cached(final(self).entries(), k) == cached(
                    purged(old(self).entries(), now, old(self).ttl_ns()),
                    k,
                ),
            final(self).entries().len() == purged(
                old(self).entries(),
                now,
                old(self).ttl_ns(),
            ).len(),
            final(self).capacity() == old(self).capacity(),
            final(self).ttl_ns() == old(self).ttl_ns(),
    {
        self.purge_expired(now);
        let tick = self.next_tick();
        let pos = self.find_key(key);
        match pos {
            Some(i) => {
                let resp = self.entries[i].response.duplicate();
                let mut e = self.entries[i].clone_entry();
                e.last_access = tick;
                let ghost before = self.entries@;
                self.entries.set(i, e);
                proof {
                    let after = self.entries@;
                    assert(after == touched(before, key@, tick));
                    assert forall|a: int, b: int| 0 <= a < b < after.len() implies (
                    #[trigger] after[a]).key@ != (#[trigger] after[b]).key@ by {
                        assert(after[a].key == before[a].key && after[b].key == before[b].key);
                    }
                    assert forall|k: Seq<char>| cached(after, k) == cached(before, k) by {
                        lemma_key_index(after, k);
                        lemma_key_index(before, k);
                        if key_index(before, k) >= 0 {
                            assert(after[key_index(before, k)].key@ == k);
                        }
                        if key_index(after, k) >= 0 {
                            assert(before[key_index(after, k)].key@ == k);
                        }
                    }
                }
                Some(resp)
            },
            None => None,
        }
    }

    /// `insert_at` at the current time: nanoseconds since the cache was made.
    pub fn insert(&mut self, key: String, response: LLMResponse)
        requires
            old(self).wf(),
        ensures
            final(self).wf(),
            exists|now: u64|
                final(self).entries() == stored(
                    purged(old(self).entries(), now, old(self).ttl_ns()),
                    (CacheEntry {
                        key: key,
                        response: response,
                        cached_at: now,
                        last_access: tick_after(old(self).tick()),
                    }),
                    old(self).capacity(),
                ),
            cached(final(self).entries(), key@) == Some(response),
            final(self).tick() == tick_after(old(self).tick()),
            final(self).capacity() == old(self).capacity(),
            final(self).ttl_ns() == old(self).ttl_ns(),
    {
        let now = nanos_since(&self.origin);
        self.insert_at(key, response, now);
    }

    /// `get_at` at the current time: nanoseconds since the cache was made.
    pub fn get(&mut self, key: &str) -> (r: Option<LLMResponse>)
        requires
            old(self).wf(),
        ensures
            final(self).wf(),
            exists|now: u64|
                r == cached(purged(old(self).entries(), now, old(self).ttl_ns()), key@)
                    && final(self).entries() == touched(
                    purged(old(self).entries(), now, old(self).ttl_ns()),
                    key@,
                    tick_after(old(self).tick()),
                ),
            final(self).tick() == tick_after(old(self).tick()),
            final(self).capacity() == old(self).capacity(),
            final(self).ttl_ns() == old(self).ttl_ns(),
    {
        let now = nanos_since(&self.origin);
        self.get_at(key, now)
    }
}

impl CacheEntry {
    /// A field-by-field copy.
    pub fn clone_entry(&self) -> (r: CacheEntry)
        ensures
            r == *self,
    {
        CacheEntry {
            key: self.key.clone(),
            response: self.response.duplicate(),
            cached_at: self.cached_at,
            last_access: self.last_access,
        }
    }
}

} // verus!
