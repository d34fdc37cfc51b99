//! The runtime's error type and its rendering as text.

use vstd::prelude::*;
use vstd::string::*;

verus! {

#[verifier::external_type_specification]
#[verifier::external_body]
pub struct ExIoError(std::io::Error);

#[verifier::external_type_specification]
#[verifier::external_body]
pub struct ExJsonError(serde_json::Error);

/// An error of the runtime.
#[derive(Debug)]
pub enum ShimError {
    Runtime { message: String, context: Option<String> },
    Io { error: std::io::Error, context: Option<String> },
    Serialization { message: String, context: Option<String> },
    NotFound { resource: String, context: Option<String> },
    Validation { field: String, message: String },
}

/// A result whose error is a [`ShimError`].
pub type Result<T> = std::result::Result<T, ShimError>;

/// The text of an optional context: ` (context: <ctx>)`, or nothing.
pub open spec fn context_text(context: Option<String>) -> Seq<char> {
    match context {
        Some(c) => " (context: "@ + c@ + ")"@,
        None => Seq::empty(),
    }
}

/// The text of an error other than an I/O error.
pub open spec fn error_text(e: ShimError) -> Seq<char> {
    match e {
        ShimError::Runtime { message, context } => "Runtime error: "@ + message@ + context_text(context),
        ShimError::Io { error, context } => Seq::empty(),
        ShimError::Serialization { message, context } => "Serialization error: "@ + message@ + context_text(context),
        ShimError::NotFound { resource, context } => "Resource not found: "@ + resource@ + context_text(context),
        ShimError::Validation { field, message } => "Validation error for field '"@ + field@ + "': "@ + message@,
    }
}

/// The text of an I/O error, as std displays it.
///
/// Calls `<std::io::Error as Display>::fmt` through `to_string`. Nothing is
/// claimed of the text: it comes from the operating system's error strings.
#[verifier::external_body]
fn io_error_text(e: &std::io::Error) -> String {
    e.to_string()
}

/// The text of a JSON error, as serde_json displays it.
///
/// Calls `<serde_json::Error as Display>::fmt` through `to_string`. Nothing
/// is claimed of the text: it is the parser's message with the line and
/// column where parsing stopped.
#[verifier::external_body]
pub(crate) fn json_error_text(e: &serde_json::Error) -> String {
    e.to_string()
}

fn append_context(s: &mut String, context: &Option<String>)
    ensures
        final(s)@ == old(s)@ + context_text(*context),
{
    match context {
        Some(c) => {
            s.append(" (context: ");
            s.append(c.as_str());
            s.append(")");
        },
        None => {
            assert(old(s)@ + Seq::<char>::empty() =~= old(s)@);
        },
    }
}

impl ShimError {
    /// A runtime error with the given message and no context.
    pub fn runtime(msg: &str) -> (e: ShimError)
        ensures
            e matches ShimError::Runtime { message, context: None } && message@ == msg@,
    {
        ShimError::Runtime { message: String::from_str(msg), context: None }
    }

    /// A runtime error with the given message and context.
    pub fn runtime_with_context(msg: &str, ctx: &str) -> (e: ShimError)
        ensures
            e matches ShimError::Runtime { message, context: Some(c) } && message@ == msg@ && c@ == ctx@,
    {
        ShimError::Runtime { message: String::from_str(msg), context: Some(String::from_str(ctx)) }
    }

    /// A not-found error for the given resource, with no context.
    pub fn not_found(resource: &str) -> (e: ShimError)
        ensures
            e matches ShimError::NotFound { resource: r, context: None } && r@ == resource@,
    {
        ShimError::NotFound { resource: String::from_str(resource), context: None }
    }

    /// A validation error for the given field.
    pub fn validation(field: &str, msg: &str) -> (e: ShimError)
        ensures
            e matches ShimError::Validation { field: f, message } && f@ == field@ && message@ == msg@,
    {
        ShimError::Validation { field: String::from_str(field), message: String::from_str(msg) }
    }

    /// A serialization error for a JSON document that did not parse, with the
    /// parser's message.
    pub fn json(msg: &str) -> (e: ShimError)
        ensures
            e matches ShimError::Serialization { message, context: Some(c) }
                && message@ == msg@ && c@ == "JSON parsing error"@,
    {
        ShimError::Serialization {
            message: String::from_str(msg),
            context: Some(String::from_str("JSON parsing error")),
        }
    }

    /// The error for a JSON document that did not parse: a serialization
    /// error whose message is the parser's and whose context is
    /// `JSON parsing error`.
    pub fn from_json_error(e: &serde_json::Error) -> (r: ShimError)
        ensures
            r matches ShimError::Serialization { message, context: Some(c) } && c@ == "JSON parsing error"@,
    {
        let text = json_error_text(e);
        ShimError::json(text.as_str())
    }

    /// The error as text.
    pub fn to_string(&self) -> (s: String)
        ensures
            !(self is Io) ==> s@ == error_text(*self),
            self matches ShimError::Io { error, context } ==> exists|t: Seq<char>|
                s@ == "IO error: "@ + t + context_text(*context),
    {
        match self {
            ShimError::Runtime { message, context } => {
                let mut s = String::from_str("Runtime error: ");
                s.append(message.as_str());
                append_context(&mut s, context);
                s
            },
            ShimError::Io { error, context } => {
                let mut s = String::from_str("IO error: ");
                let t = io_error_text(error);
                s.append(t.as_str());
                append_context(&mut s, context);
                assert(s@ == "IO error: "@ + t@ + context_text(*context));
                s
            },
            ShimError::Serialization { message, context } => {
                let mut s = String::from_str("Serialization error: ");
                s.append(message.as_str());
                append_context(&mut s, context);
                s
            },
            ShimError::NotFound { resource, context } => {
                let mut s = String::from_str("Resource not found: ");
                s.append(resource.as_str());
                append_context(&mut s, context);
                s
            },
            ShimError::Validation { field, message } => {
                let mut s = String::from_str("Validation error for field '");
                s.append(field.as_str());
                s.append("': ");
                s.append(message.as_str());
                s
            },
        }
    }
}

impl From<std::io::Error> for ShimError {
    fn from(e: std::io::Error) -> (r: ShimError) {
        ShimError::Io { error: e, context: None }
    }
}

impl vstd::std_specs::convert::FromSpecImpl<std::io::Error> for ShimError {
    open spec fn obeys_from_spec() -> bool {
        true
    }

    open spec fn from_spec(v: std::io::Error) -> ShimError {
        ShimError::Io { error: v, context: None }
    }
}

} // verus!
