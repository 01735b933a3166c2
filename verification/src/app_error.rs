//! Application-level error values.
use crate::llm_service::{error_text_fits, LLMServiceError};
use crate::text::{
    append_str, contains_spec, lemma_contains_parts, lemma_contains_self, lemma_contains_trans,
};
use vstd::prelude::*;

verus! {

/// Broad category of an application error.
#[derive(Debug, Clone, Copy, PartialEq, Eq, Structural)]
pub enum AppErrorKind {
    NotFound,
    InvalidInput,
    Llm,
    Io,
    Parse,
    Unknown,
}

/// An error with a category and a human-readable message.
#[derive(Debug, Clone, PartialEq, Eq)]
pub struct AppError {
    pub kind: AppErrorKind,
    pub message: String,
}

/// The message after `with_context(ctx)`: the context alone when there was
/// no message, else `"{ctx}: {message}"`.
pub open spec fn context_message(ctx: Seq<char>, message: Seq<char>) -> Seq<char> {
    if message.len() == 0 {
        ctx
    } else {
        ctx + ": "@ + message
    }
}

/// A message with context added still shows both the context and the
/// message it wraps.
pub proof fn context_message_keeps_both(ctx: Seq<char>, message: Seq<char>)
    ensures
        contains_spec(context_message(ctx, message), ctx),
        contains_spec(context_message(ctx, message), message),
{
    if message.len() > 0 {
        assert(context_message(ctx, message) =~= ctx + (": "@ + message));
        lemma_contains_parts(ctx, ": "@ + message);
        lemma_contains_parts(": "@, message);
        lemma_contains_trans(ctx + (": "@ + message), ": "@ + message, message);
    } else {
        lemma_contains_self(ctx);
        assert(message =~= Seq::<char>::empty());
        assert(ctx.subrange(0, 0) =~= message);
        assert(crate::text::occurs_at(ctx, message, 0));
    }
}

impl AppError {
    /// An error of the given kind with the given message.
    pub fn new(kind: AppErrorKind, message: &str) -> (e: AppError)
        ensures
            e.kind == kind,
            e.message@ == message@,
    {
        AppError { kind, message: message.to_string() }
    }

    /// Prefixes the message with a context description.
    pub fn with_context(self, context: &str) -> (e: AppError)
        ensures
            e.kind == self.kind,
            e.message@ == context_message(context@, self.message@),
    {
        let message = if self.message.as_str().is_empty() {
            context.to_string()
        } else {
            let mut m = context.to_string();
            append_str(&mut m, ": ");
            append_str(&mut m, self.message.as_str());
            m
        };
        AppError { kind: self.kind, message }
    }

    /// A language-model failure, carrying the failure's text.
    pub fn from_llm_error(err: LLMServiceError) -> (e: AppError)
        ensures
            e.kind == AppErrorKind::Llm,
            error_text_fits(err, e.message@),
    {
        let message = err.to_string();
        AppError { kind: AppErrorKind::Llm, message }
    }

    /// An error of unknown kind carrying the display text of an `anyhow` error.
    pub fn from_anyhow(err: anyhow::Error) -> (e: AppError)
        ensures
            e.kind == AppErrorKind::Unknown,
    {
        AppError { kind: AppErrorKind::Unknown, message: anyhow_error_text(&err) }
    }

    /// The text shown for the error: its message.
    pub fn to_string(&self) -> (s: String)
        ensures
            s@ == self.message@,
    {
        self.message.clone()
    }
}

/// Declares `anyhow::Error` so that verified code can carry it.
#[verifier::external_type_specification]
#[verifier::external_body]
pub struct ExAnyhowError(anyhow::Error);

/// `anyhow::Error`'s `Display` text (`to_string`). For an error made from a
/// message it is that message; the text of other errors is the source error's
/// own and is not restated here.
#[verifier::external_body]
fn anyhow_error_text(err: &anyhow::Error) -> String {
    err.to_string()
}

/// The error body handed to the user interface.
#[derive(Debug, Clone, PartialEq, Eq)]
pub struct ErrorResponse {
    pub error: String,
}

impl ErrorResponse {
    /// The response for an `anyhow` error: its display text.
    pub fn from(err: anyhow::Error) -> (r: ErrorResponse) {
        ErrorResponse { error: anyhow_error_text(&err) }
    }
}

} // verus!
