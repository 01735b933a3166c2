//! Checking model responses: non-empty, well-formed JSON, numerical limits;
//! with retries and a fallback.
use crate::llm_service::LLMResponse;
use crate::text::{append_str, decimal, is_blank, push_decimal, trim_spec};
use vstd::prelude::*;

verus! {

/// Limits a response must respect.
#[derive(Debug, Clone, Copy, PartialEq, Eq, Structural)]
pub struct ValidationConstraints {
    pub require_json: bool,
    pub max_realm_level: Option<u32>,
    pub min_combat_power: Option<u64>,
    pub max_combat_power: Option<u64>,
    pub max_current_age: Option<u32>,
}

impl ValidationConstraints {
    /// JSON required, no numerical limits.
    pub fn default_constraints() -> (c: ValidationConstraints)
        ensures
            c.require_json,
            c.max_realm_level is None,
            c.min_combat_power is None,
            c.max_combat_power is None,
            c.max_current_age is None,
    {
        ValidationConstraints {
            require_json: true,
            max_realm_level: None,
            min_combat_power: None,
            max_combat_power: None,
            max_current_age: None,
        }
    }
}

/// Why a response was rejected.
#[derive(Debug, Clone, PartialEq, Eq)]
pub enum ValidationError {
    EmptyResponse,
    InvalidJson(String),
    MissingField(String),
    NumericalConstraintViolation(String),
    RetryExhausted { attempts: u32, last_error: String },
}

/// A rejection reason with its texts as character sequences.
pub enum ValidationErrorView {
    EmptyResponse,
    InvalidJson(Seq<char>),
    MissingField(Seq<char>),
    NumericalConstraintViolation(Seq<char>),
    RetryExhausted { attempts: u32, last_error: Seq<char> },
}

impl View for ValidationError {
    type V = ValidationErrorView;

    open spec fn view(&self) -> ValidationErrorView {
        match self {
            ValidationError::EmptyResponse => ValidationErrorView::EmptyResponse,
            ValidationError::InvalidJson(m) => ValidationErrorView::InvalidJson(m@),
            ValidationError::MissingField(m) => ValidationErrorView::MissingField(m@),
            ValidationError::NumericalConstraintViolation(m) => ValidationErrorView::NumericalConstraintViolation(m@),
            ValidationError::RetryExhausted { attempts, last_error } => ValidationErrorView::RetryExhausted { attempts: *attempts, last_error: last_error@ },
        }
    }
}

/// The text shown for a rejection.
pub open spec fn error_text(e: ValidationErrorView) -> Seq<char> {
    match e {
        ValidationErrorView::EmptyResponse => "response text is empty"@,
        ValidationErrorView::InvalidJson(m) => "invalid json: "@ + m,
        ValidationErrorView::MissingField(f) => "missing required field: "@ + f,
        ValidationErrorView::NumericalConstraintViolation(m) => "numerical constraint violation: "@ + m,
        ValidationErrorView::RetryExhausted { attempts, last_error } => "validation failed after "@
            + decimal(attempts as nat) + " attempts, last error: "@ + last_error,
    }
}

impl ValidationError {
    /// The text shown for the rejection.
    pub fn to_string(&self) -> (s: String)
        ensures
            s@ == error_text(self@),
    {
        match self {
            ValidationError::EmptyResponse => "response text is empty".to_string(),
            ValidationError::InvalidJson(m) => {
                let mut s = "invalid json: ".to_string();
                append_str(&mut s, m.as_str());
                s
            },
            ValidationError::MissingField(f) => {
                let mut s = "missing required field: ".to_string();
                append_str(&mut s, f.as_str());
                s
            },
            ValidationError::NumericalConstraintViolation(m) => {
                let mut s = "numerical constraint violation: ".to_string();
                append_str(&mut s, m.as_str());
                s
            },
            ValidationError::RetryExhausted { attempts, last_error } => {
                let mut s = "validation failed after ".to_string();
                push_decimal(&mut s, *attempts as u64);
                append_str(&mut s, " attempts, last error: ");
                append_str(&mut s, last_error.as_str());
                s
            },
        }
    }
}

/// Declares the JSON document type so that parsed documents can be returned.
#[verifier::external_type_specification]
#[verifier::external_body]
pub struct ExJsonValue(serde_json::Value);

/// What `serde_json::from_str::<Value>` makes of a text: `Ok` for a
/// well-formed JSON document, else `Err` with the parser's message.
pub uninterp spec fn json_parse_outcome(text: Seq<char>) -> Result<(), Seq<char>>;

/// The unsigned integer that `Value::pointer(pointer)` then `Value::as_u64`
/// find in the JSON document `text`, if it parses and the pointer leads to one.
pub uninterp spec fn json_u64_at(text: Seq<char>, pointer: Seq<char>) -> Option<u64>;

/// `serde_json::from_str::<Value>`: parses `text`, or gives the parser's message.
#[verifier::external_body]
pub(crate) fn parse_json(text: &str) -> (r: Result<serde_json::Value, String>)
    ensures
        match r {
            Ok(_) => json_parse_outcome(text@) is Ok,
            Err(m) => json_parse_outcome(text@) == Err::<(), Seq<char>>(m@),
        },
{
    match serde_json::from_str::<serde_json::Value>(text) {
        Ok(v) => Ok(v),
        Err(e) => Err(e.to_string()),
    }
}

/// `Value::pointer` followed by `Value::as_u64` on the document `text`; a text
/// that does not parse yields `None`, as the lookup is made on its parse.
#[verifier::external_body]
pub(crate) fn json_pointer_u64(text: &str, pointer: &str) -> (r: Option<u64>)
    ensures
        r == json_u64_at(text@, pointer@),
        r is Some ==> json_parse_outcome(text@) is Ok,
{
    match serde_json::from_str::<serde_json::Value>(text) {
        Ok(v) => match v.pointer(pointer) {
            Some(x) => x.as_u64(),
            None => None,
        },
        Err(_) => None,
    }
}

/// The string that `Value::pointer(pointer)` then `Value::as_str` find in the
/// JSON document `text`, if it parses and the pointer leads to a string.
pub uninterp spec fn json_str_at(text: Seq<char>, pointer: Seq<char>) -> Option<Seq<char>>;

/// `Value::pointer` followed by `Value::as_str` on the document `text`; a text
/// that does not parse yields `None`, as the lookup is made on its parse.
#[verifier::external_body]
pub(crate) fn json_pointer_str(text: &str, pointer: &str) -> (r: Option<String>)
    ensures
        match r {
            Some(v) => json_str_at(text@, pointer@) == Some(v@),
            None => json_str_at(text@, pointer@) is None,
        },
        r is Some ==> json_parse_outcome(text@) is Ok,
{
    match serde_json::from_str::<serde_json::Value>(text) {
        Ok(v) => match v.pointer(pointer) {
            Some(x) => match x.as_str() {
                Some(t) => Some(t.to_string()),
                None => None,
            },
            None => None,
        },
        Err(_) => None,
    }
}

/// The boolean that `Value::pointer(pointer)` then `Value::as_bool` find in the
/// JSON document `text`, if it parses and the pointer leads to a boolean.
pub uninterp spec fn json_bool_at(text: Seq<char>, pointer: Seq<char>) -> Option<bool>;

/// Whether `Value::pointer(pointer)` finds any value (`null` included) in the
/// JSON document `text`; false when the text does not parse.
pub uninterp spec fn json_present_at(text: Seq<char>, pointer: Seq<char>) -> bool;

/// The elements of the array that `Value::pointer(pointer)` then
/// `Value::as_array` find in the JSON document `text`, each as `Value::as_str`
/// sees it; `None` when the text does not parse or no array is there.
pub uninterp spec fn json_str_items_at(text: Seq<char>, pointer: Seq<char>) -> Option<
    Seq<Option<Seq<char>>>,
>;

/// `Value::pointer` followed by `Value::as_bool` on the document `text`.
#[verifier::external_body]
pub(crate) fn json_pointer_bool(text: &str, pointer: &str) -> (r: Option<bool>)
    ensures
        r == json_bool_at(text@, pointer@),
        r is Some ==> json_parse_outcome(text@) is Ok,
{
    match serde_json::from_str::<serde_json::Value>(text) {
        Ok(v) => match v.pointer(pointer) {
            Some(x) => x.as_bool(),
            None => None,
        },
        Err(_) => None,
    }
}

/// `Value::pointer(pointer).is_some()` on the document `text`.
#[verifier::external_body]
pub(crate) fn json_pointer_present(text: &str, pointer: &str) -> (r: bool)
    ensures
        r == json_present_at(text@, pointer@),
        r ==> json_parse_outcome(text@) is Ok,
{
    match serde_json::from_str::<serde_json::Value>(text) {
        Ok(v) => v.pointer(pointer).is_some(),
        Err(_) => false,
    }
}

/// The character views of a list of optional strings.
pub open spec fn opt_string_views(v: Seq<Option<String>>) -> Seq<Option<Seq<char>>> {
    v.map_values(|o: Option<String>| match o {
        Some(s) => Some(s@),
        None => None,
    })
}

/// `Value::pointer`, `Value::as_array`, and `Value::as_str` on each element,
/// on the document `text`.
#[verifier::external_body]
pub(crate) fn json_pointer_str_items(text: &str, pointer: &str) -> (r: Option<Vec<Option<String>>>)
    ensures
        match r {
            Some(v) => json_str_items_at(text@, pointer@) == Some(opt_string_views(v@)),
            None => json_str_items_at(text@, pointer@) is None,
        },
        r is Some ==> json_parse_outcome(text@) is Ok,
{
    match serde_json::from_str::<serde_json::Value>(text) {
        Ok(v) => match v.pointer(pointer).and_then(|x| x.as_array()) {
            Some(a) => Some(a.iter().map(|e| e.as_str().map(|t| t.to_string())).collect()),
            None => None,
        },
        Err(_) => None,
    }
}

/// The first of two JSON locations holding an integer that fits in `u32`.
pub open spec fn first_u32(text: Seq<char>, p1: Seq<char>, p2: Seq<char>) -> Option<u32> {
    match json_u64_at(text, p1) {
        Some(v) if v <= u32::MAX => Some(v as u32),
        _ => match json_u64_at(text, p2) {
            Some(v) if v <= u32::MAX => Some(v as u32),
            _ => None,
        },
    }
}

/// The first of two JSON locations holding an unsigned integer.
pub open spec fn first_u64(text: Seq<char>, p1: Seq<char>, p2: Seq<char>) -> Option<u64> {
    match json_u64_at(text, p1) {
        Some(v) => Some(v),
        None => json_u64_at(text, p2),
    }
}

/// The realm level a response reports.
pub open spec fn reported_level(text: Seq<char>) -> Option<u32> {
    first_u32(text, "/character_update/realm_level"@, "/realm_level"@)
}

/// The combat power a response reports.
pub open spec fn reported_power(text: Seq<char>) -> Option<u64> {
    first_u64(text, "/character_update/combat_power"@, "/combat_power"@)
}

/// The age a response reports.
pub open spec fn reported_age(text: Seq<char>) -> Option<u32> {
    first_u32(text, "/character_update/current_age"@, "/current_age"@)
}

/// The first numerical limit a JSON response breaks, checked in the order
/// realm level, minimum power, maximum power, age; `Ok` when none.
pub open spec fn numerical_check(text: Seq<char>, c: ValidationConstraints) -> Result<
    (),
    ValidationErrorView,
> {
    let realm: Result<(), ValidationErrorView> = match c.max_realm_level {
        None => Ok(()),
        Some(max) => match reported_level(text) {
            None => Err(ValidationErrorView::MissingField("realm_level"@)),
            Some(l) => if l > max {
                Err(
                    ValidationErrorView::NumericalConstraintViolation(
                        "realm_level "@ + decimal(l as nat) + " exceeds max "@ + decimal(
                            max as nat,
                        ),
                    ),
                )
            } else {
                Ok(())
            },
        },
    };
    let min_power: Result<(), ValidationErrorView> = match c.min_combat_power {
        None => Ok(()),
        Some(min) => match reported_power(text) {
            None => Err(ValidationErrorView::MissingField("combat_power"@)),
            Some(p) => if p < min {
                Err(
                    ValidationErrorView::NumericalConstraintViolation(
                        "combat_power "@ + decimal(p as nat) + " is below min "@ + decimal(
                            min as nat,
                        ),
                    ),
                )
            } else {
                Ok(())
            },
        },
    };
    let max_power: Result<(), ValidationErrorView> = match c.max_combat_power {
        None => Ok(()),
        Some(max) => match reported_power(text) {
            None => Err(ValidationErrorView::MissingField("combat_power"@)),
            Some(p) => if p > max {
                Err(
                    ValidationErrorView::NumericalConstraintViolation(
                        "combat_power "@ + decimal(p as nat) + " exceeds max "@ + decimal(
                            max as nat,
                        ),
                    ),
                )
            } else {
                Ok(())
            },
        },
    };
    let age: Result<(), ValidationErrorView> = match c.max_current_age {
        None => Ok(()),
        Some(max) => match reported_age(text) {
            None => Err(ValidationErrorView::MissingField("current_age"@)),
            Some(a) => if a > max {
                Err(
                    ValidationErrorView::NumericalConstraintViolation(
                        "current_age "@ + decimal(a as nat) + " exceeds max "@ + decimal(
                            max as nat,
                        ),
                    ),
                )
            } else {
                Ok(())
            },
        },
    };
    if realm is Err {
        realm
    } else if min_power is Err {
        min_power
    } else if max_power is Err {
        max_power
    } else {
        age
    }
}

/// Verdict on one response: empty text, then (when JSON is required) a
/// malformed document, then the numerical limits.
pub open spec fn response_check(text: Seq<char>, c: ValidationConstraints) -> Result<
    (),
    ValidationErrorView,
> {
    if trim_spec(text).len() == 0 {
        Err(ValidationErrorView::EmptyResponse)
    } else if !c.require_json {
        Ok(())
    } else {
        match json_parse_outcome(text) {
            Err(m) => Err(ValidationErrorView::InvalidJson(m)),
            Ok(_) => numerical_check(text, c),
        }
    }
}

/// The response the retry source gives for attempt `attempt` (counting from 1).
pub open spec fn retry_at(retries: Seq<Option<LLMResponse>>, attempt: int) -> Option<LLMResponse> {
    if 1 <= attempt <= retries.len() {
        retries[attempt - 1]
    } else {
        None
    }
}

/// Scans attempts `attempt..=max`: the first acceptable retry response, or the
/// verdict on the last rejected one (`last` if none was rejected).
pub open spec fn retry_scan(
    retries: Seq<Option<LLMResponse>>,
    attempt: int,
    max: int,
    c: ValidationConstraints,
    last: Option<ValidationErrorView>,
) -> Result<LLMResponse, Option<ValidationErrorView>>
    decreases max - attempt + 1,
{
    if attempt > max {
        Err(last)
    } else {
        match retry_at(retries, attempt) {
            None => retry_scan(retries, attempt + 1, max, c, last),
            Some(r) => match response_check(r.text@, c) {
                Ok(_) => Ok(r),
                Err(e) => retry_scan(retries, attempt + 1, max, c, Some(e)),
            },
        }
    }
}

/// A retry answer that is present and valid.
pub open spec fn accepted_answer(o: Option<LLMResponse>, c: ValidationConstraints) -> bool {
    match o {
        Some(x) => response_check(x.text@, c) is Ok,
        None => false,
    }
}

/// Result of validation with retries and fallback.
pub open spec fn retry_outcome(
    initial: LLMResponse,
    c: ValidationConstraints,
    retries: Seq<Option<LLMResponse>>,
    fallback: Option<LLMResponse>,
    max_retries: u32,
) -> Result<LLMResponse, ValidationErrorView> {
    if response_check(initial.text@, c) is Ok {
        Ok(initial)
    } else {
        match retry_scan(retries, 1, max_retries as int, c, None) {
            Ok(r) => Ok(r),
            Err(last) => match fallback {
                Some(f) => match response_check(f.text@, c) {
                    Ok(_) => Ok(f),
                    Err(e) => Err(e),
                },
                None => Err(
                    ValidationErrorView::RetryExhausted {
                        attempts: max_retries,
                        last_error: match last {
                            Some(e) => error_text(e),
                            None => "no retry response available"@,
                        },
                    },
                ),
            },
        }
    }
}

/// A well-formed JSON response reporting a realm level above the limit is
/// rejected as a numerical violation.
pub proof fn over_limit_level_is_violation(text: Seq<char>, c: ValidationConstraints)
    requires
        trim_spec(text).len() > 0,
        c.require_json,
        json_parse_outcome(text) is Ok,
        c.max_realm_level matches Some(m) && reported_level(text) matches Some(l) && l > m,
    ensures
        response_check(text, c) matches Err(ValidationErrorView::NumericalConstraintViolation(_)),
{
}

/// A well-formed JSON response that breaks any of the numerical limits it is
/// checked against is rejected.
pub proof fn limit_breaking_response_is_rejected(text: Seq<char>, c: ValidationConstraints)
    requires
        trim_spec(text).len() > 0,
        c.require_json,
        json_parse_outcome(text) is Ok,
        (c.max_realm_level matches Some(m) && reported_level(text) matches Some(l) && l > m)
            || (c.min_combat_power matches Some(m) && reported_power(text) matches Some(p) && p < m)
            || (c.max_combat_power matches Some(m) && reported_power(text) matches Some(p) && p > m)
            || (c.max_current_age matches Some(m) && reported_age(text) matches Some(a) && a > m),
    ensures
        response_check(text, c) is Err,
{
}

/// When no retry answer from `attempt` on passes the checks, the scan ends in
/// an error.
/// A response the scan accepts passes validation.
proof fn lemma_scan_accepts_valid(
    retries: Seq<Option<LLMResponse>>,
    attempt: int,
    max: int,
    c: ValidationConstraints,
    last: Option<ValidationErrorView>,
)
    ensures
        retry_scan(retries, attempt, max, c, last) matches Ok(r) ==> response_check(r.text@, c) is Ok,
    decreases max - attempt + 1,
{
    if attempt <= max {
        match retry_at(retries, attempt) {
            None => lemma_scan_accepts_valid(retries, attempt + 1, max, c, last),
            Some(r) => {
                if response_check(r.text@, c) is Err {
                    let e = response_check(r.text@, c)->Err_0;
                    lemma_scan_accepts_valid(retries, attempt + 1, max, c, Some(e));
                }
            },
        }
    }
}

/// Whatever validation with retries and fallback accepts passes validation:
/// the initial response, a retry answer or the fallback alike.
pub proof fn accepted_response_is_valid(
    initial: LLMResponse,
    c: ValidationConstraints,
    retries: Seq<Option<LLMResponse>>,
    fallback: Option<LLMResponse>,
    max_retries: u32,
)
    ensures
        retry_outcome(initial, c, retries, fallback, max_retries) matches Ok(r) ==> response_check(
            r.text@,
            c,
        ) is Ok,
{
    lemma_scan_accepts_valid(retries, 1, max_retries as int, c, None);
}

proof fn lemma_scan_finds_nothing(
    retries: Seq<Option<LLMResponse>>,
    attempt: int,
    max: int,
    c: ValidationConstraints,
    last: Option<ValidationErrorView>,
)
    requires
        forall|a: int|
            attempt <= a <= max ==> (#[trigger] retry_at(retries, a) matches Some(r) ==> response_check(
                r.text@,
                c,
            ) is Err),
    ensures
        retry_scan(retries, attempt, max, c, last) is Err,
    decreases max - attempt + 1,
{
    if attempt <= max {
        match retry_at(retries, attempt) {
            None => lemma_scan_finds_nothing(retries, attempt + 1, max, c, last),
            Some(r) => {
                let e = response_check(r.text@, c)->Err_0;
                lemma_scan_finds_nothing(retries, attempt + 1, max, c, Some(e));
            },
        }
    }
}

/// The system keeps running on model failures: with an acceptable fallback,
/// validation with retries always yields a response, and when neither the
/// first response nor any retry is acceptable it yields the fallback.
pub proof fn acceptable_fallback_keeps_running(
    initial: LLMResponse,
    c: ValidationConstraints,
    retries: Seq<Option<LLMResponse>>,
    fallback: LLMResponse,
    max_retries: u32,
)
    requires
        response_check(fallback.text@, c) is Ok,
    ensures
        retry_outcome(initial, c, retries, Some(fallback), max_retries) is Ok,
        response_check(initial.text@, c) is Err && (forall|a: int|
            1 <= a <= max_retries ==> (#[trigger] retry_at(retries, a) matches Some(r)
                ==> response_check(r.text@, c) is Err)) ==> retry_outcome(
            initial,
            c,
            retries,
            Some(fallback),
            max_retries,
        ) == Ok::<LLMResponse, ValidationErrorView>(fallback),
{
    if response_check(initial.text@, c) is Err && (forall|a: int|
        1 <= a <= max_retries ==> (#[trigger] retry_at(retries, a) matches Some(r) ==> response_check(
            r.text@,
            c,
        ) is Err)) {
        lemma_scan_finds_nothing(retries, 1, max_retries as int, c, None);
    }
}

/// Checks responses, allowing `max_retries` further attempts.
#[derive(Debug, Clone, Copy)]
pub struct ResponseValidator {
    max_retries: u32,
}

impl ResponseValidator {
    /// Number of retries allowed.
    pub closed spec fn retries(&self) -> u32 {
        self.max_retries
    }

    /// A validator allowing `max_retries` retries.
    pub fn new(max_retries: u32) -> (v: ResponseValidator)
        ensures
            v.retries() == max_retries,
    {
        ResponseValidator { max_retries }
    }

    /// A validator allowing three retries.
    pub fn default_validator() -> (v: ResponseValidator)
        ensures
            v.retries() == 3,
    {
        ResponseValidator::new(3)
    }

    /// Checks one response against the constraints.
    pub fn validate_response(
        &self,
        response: &LLMResponse,
        constraints: &ValidationConstraints,
    ) -> (r: Result<(), ValidationError>)
        ensures
            match r {
                Ok(_) => response_check(response.text@, *constraints) is Ok,
                Err(e) => response_check(response.text@, *constraints) == Err::<(), ValidationErrorView>(e@),
            },
    {
        if is_blank(response.text.as_str()) {
            return Err(ValidationError::EmptyResponse);
        }
        if !constraints.require_json {
            return Ok(());
        }
        match self.validate_json_format(response.text.as_str()) {
            Err(e) => Err(e),
            Ok(_) => self.validate_numerical_constraints(response.text.as_str(), constraints),
        }
    }

    /// Parses the response text as JSON.
    pub fn validate_json_format(&self, response_text: &str) -> (r: Result<
        serde_json::Value,
        ValidationError,
    >)
        ensures
            match r {
                Ok(_) => json_parse_outcome(response_text@) is Ok,
                Err(e) => exists|m: Seq<char>|
                    json_parse_outcome(response_text@) == Err::<(), Seq<char>>(m) && e@
                        == ValidationErrorView::InvalidJson(m),
            },
    {
        match parse_json(response_text) {
            Ok(v) => Ok(v),
            Err(m) => Err(ValidationError::InvalidJson(m)),
        }
    }

    /// Checks the numerical limits against the JSON document `response_text`.
    pub fn validate_numerical_constraints(
        &self,
        response_text: &str,
        constraints: &ValidationConstraints,
    ) -> (r: Result<(), ValidationError>)
        ensures
            match r {
                Ok(_) => numerical_check(response_text@, *constraints) is Ok,
                Err(e) => numerical_check(response_text@, *constraints) == Err::<(), ValidationErrorView>(e@),
            },
    {
        match constraints.max_realm_level {
            None => {},
            Some(max) => {
                match get_u32(response_text, "/character_update/realm_level", "/realm_level") {
                    None => {
                        return Err(ValidationError::MissingField("realm_level".to_string()));
                    },
                    Some(level) => {
                        if level > max {
                            let mut m = "realm_level ".to_string();
                            push_decimal(&mut m, level as u64);
                            append_str(&mut m, " exceeds max ");
                            push_decimal(&mut m, max as u64);
                            return Err(ValidationError::NumericalConstraintViolation(m));
                        }
                    },
                }
            },
        }
        match constraints.min_combat_power {
            None => {},
            Some(min) => {
                match get_u64(response_text, "/character_update/combat_power", "/combat_power") {
                    None => {
                        return Err(ValidationError::MissingField("combat_power".to_string()));
                    },
                    Some(power) => {
                        if power < min {
                            let mut m = "combat_power ".to_string();
                            push_decimal(&mut m, power);
                            append_str(&mut m, " is below min ");
                            push_decimal(&mut m, min);
                            return Err(ValidationError::NumericalConstraintViolation(m));
                        }
                    },
                }
            },
        }
        match constraints.max_combat_power {
            None => {},
            Some(max) => {
                match get_u64(response_text, "/character_update/combat_power", "/combat_power") {
                    None => {
                        return Err(ValidationError::MissingField("combat_power".to_string()));
                    },
                    Some(power) => {
                        if power > max {
                            let mut m = "combat_power ".to_string();
                            push_decimal(&mut m, power);
                            append_str(&mut m, " exceeds max ");
                            push_decimal(&mut m, max);
                            return Err(ValidationError::NumericalConstraintViolation(m));
                        }
                    },
                }
            },
        }
        match constraints.max_current_age {
            None => {},
            Some(max) => {
                match get_u32(response_text, "/character_update/current_age", "/current_age") {
                    None => {
                        return Err(ValidationError::MissingField("current_age".to_string()));
                    },
                    Some(age) => {
                        if age > max {
                            let mut m = "current_age ".to_string();
                            push_decimal(&mut m, age as u64);
                            append_str(&mut m, " exceeds max ");
                            push_decimal(&mut m, max as u64);
                            return Err(ValidationError::NumericalConstraintViolation(m));
                        }
                    },
                }
            },
        }
        Ok(())
    }

    /// Accepts the initial response if valid; else asks `retry_provider` for
    /// attempts `1, 2, ..` up to `max_retries`, one at a time, and stops at the
    /// first valid answer, which is accepted; else the fallback if valid (its
    /// rejection is returned otherwise); else `RetryExhausted`. The answers
    /// that were asked for are `got` below: the result is the one the same
    /// answers, given in advance, lead to.
    pub fn validate_with_retry_or_fallback<F>(
        &self,
        initial_response: LLMResponse,
        constraints: &ValidationConstraints,
        mut retry_provider: F,
        fallback_response: Option<LLMResponse>,
    ) -> (r: Result<LLMResponse, ValidationError>) where F: FnMut(u32) -> Option<LLMResponse>
        requires
            forall|a: u32| 1 <= a <= self.retries() ==> call_requires(retry_provider, (a,)),
        ensures
            exists|got: Seq<Option<LLMResponse>>|
                #![trigger retry_outcome(
                    initial_response,
                    *constraints,
                    got,
                    fallback_response,
                    self.retries(),
                )]
                {
                    &&& got.len() <= self.retries()
                    &&& forall|i: int|
                        0 <= i < got.len() ==> call_ensures(
                            retry_provider,
                            ((i + 1) as u32,),
                            #[trigger] got[i],
                        )
                    &&& response_check(initial_response.text@, *constraints) is Ok ==> got.len()
                        == 0
                    &&& forall|i: int|
                        0 <= i < got.len() - 1 ==> !accepted_answer(#[trigger] got[i], *constraints)
                    &&& got.len() < self.retries() ==> (response_check(
                        initial_response.text@,
                        *constraints,
                    ) is Ok || (got.len() > 0 && accepted_answer(got.last(), *constraints)))
                    &&& match r {
                        Ok(resp) => retry_outcome(
                            initial_response,
                            *constraints,
                            got,
                            fallback_response,
                            self.retries(),
                        ) == Ok::<LLMResponse, ValidationErrorView>(resp),
                        Err(e) => retry_outcome(
                            initial_response,
                            *constraints,
                            got,
                            fallback_response,
                            self.retries(),
                        ) == Err::<LLMResponse, ValidationErrorView>(e@),
                    }
                },
    {
        let ghost provider = retry_provider;
        let mut got: Vec<Option<LLMResponse>> = Vec::new();
        if self.validate_response(&initial_response, constraints).is_err() {
            let mut done: u32 = 0;
            while done < self.max_retries
                invariant_except_break
                    got@.len() > 0 ==> !accepted_answer(got@.last(), *constraints),
                invariant
                    done <= self.retries(),
                    got@.len() == done,
                    retry_provider == provider,
                    forall|a: u32| 1 <= a <= self.retries() ==> call_requires(retry_provider, (a,)),
                    forall|i: int|
                        0 <= i < got@.len() ==> call_ensures(
                            retry_provider,
                            ((i + 1) as u32,),
                            #[trigger] got@[i],
                        ),
                    forall|i: int|
                        0 <= i < got@.len() - 1 ==> !accepted_answer(
                            #[trigger] got@[i],
                            *constraints,
                        ),
                    response_check(initial_response.text@, *constraints) is Err,
                ensures
                    got@.len() <= self.retries(),
                    got@.len() < self.retries() ==> got@.len() > 0 && accepted_answer(
                        got@.last(),
                        *constraints,
                    ),
                decreases self.retries() - done,
            {
                let attempt = done + 1;
                let next = retry_provider(attempt);
                let accepted = match &next {
                    Some(resp) => self.validate_response(resp, constraints).is_ok(),
                    None => false,
                };
                got.push(next);
                done = attempt;
                if accepted {
                    break;
                }
            }
        }
        self.validate_with_responses(initial_response, constraints, &got, fallback_response)
    }

    /// Accepts the initial response if valid; else the first valid response of
    /// the retry attempts `1..=max_retries` (attempt `a` gives
    /// `retry_responses[a - 1]`, or nothing past the end); else the fallback if
    /// valid (its rejection is returned otherwise); else `RetryExhausted`.
    pub fn validate_with_responses(
        &self,
        initial_response: LLMResponse,
        constraints: &ValidationConstraints,
        retry_responses: &Vec<Option<LLMResponse>>,
        fallback_response: Option<LLMResponse>,
    ) -> (r: Result<LLMResponse, ValidationError>)
        ensures
            match r {
                Ok(resp) => retry_outcome(
                    initial_response,
                    *constraints,
                    retry_responses@,
                    fallback_response,
                    self.retries(),
                ) == Ok::<LLMResponse, ValidationErrorView>(resp),
                Err(e) => retry_outcome(
                    initial_response,
                    *constraints,
                    retry_responses@,
                    fallback_response,
                    self.retries(),
                ) == Err::<LLMResponse, ValidationErrorView>(e@),
            },
    {
        if self.validate_response(&initial_response, constraints).is_ok() {
            return Ok(initial_response);
        }
        let mut last_error: Option<ValidationError> = None;
        let mut attempt: u64 = 1;
        let ghost max = self.max_retries as int;
        while attempt <= self.max_retries as u64
            invariant
                1 <= attempt,
                attempt as int <= max + 1,
                max == self.retries(),
                response_check(initial_response.text@, *constraints) is Err,
                retry_scan(retry_responses@, 1, max, *constraints, None) == retry_scan(
                    retry_responses@,
                    attempt as int,
                    max,
                    *constraints,
                    match last_error {
                        Some(e) => Some(e@),
                        None => None,
                    },
                ),
            decreases max + 1 - attempt,
        {
            let next: Option<LLMResponse> = if attempt - 1 < retry_responses.len() as u64 {
                match &retry_responses[(attempt - 1) as usize] {
                    Some(resp) => Some(resp.duplicate()),
                    None => None,
                }
            } else {
                None
            };
            match next {
                None => {},
                Some(resp) => {
                    match self.validate_response(&resp, constraints) {
                        Ok(()) => {
                            return Ok(resp);
                        },
                        Err(err) => {
                            last_error = Some(err);
                        },
                    }
                },
            }
            attempt = attempt + 1;
        }
        if let Some(fallback) = fallback_response {
            match self.validate_response(&fallback, constraints) {
                Ok(()) => {
                    return Ok(fallback);
                },
                Err(e) => {
                    return Err(e);
                },
            }
        }
        let last_error_message = match last_error {
            Some(e) => e.to_string(),
            None => "no retry response available".to_string(),
        };
        Err(ValidationError::RetryExhausted { attempts: self.max_retries, last_error: last_error_message })
    }
}

/// A `u32` at either of two places of a JSON text.
fn get_u32(text: &str, p1: &str, p2: &str) -> (r: Option<u32>)
    ensures
        r == first_u32(text@, p1@, p2@),
{
    match json_pointer_u64(text, p1) {
        Some(v) => {
            if v <= u32::MAX as u64 {
                return Some(v as u32);
            }
        },
        None => {},
    }
    match json_pointer_u64(text, p2) {
        Some(v) => {
            if v <= u32::MAX as u64 {
                return Some(v as u32);
            }
        },
        None => {},
    }
    None
}

/// A `u64` at either of two places of a JSON text.
fn get_u64(text: &str, p1: &str, p2: &str) -> (r: Option<u64>)
    ensures
        r == first_u64(text@, p1@, p2@),
{
    match json_pointer_u64(text, p1) {
        Some(v) => Some(v),
        None => json_pointer_u64(text, p2),
    }
}

} // verus!
