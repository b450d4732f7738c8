//! The errors that compiling and running a plan can end in.

use vstd::prelude::*;
use crate::text::{append_str, string_of};

verus! {

/// What went wrong.
#[derive(Clone, Copy, Debug, PartialEq, Eq, Structural)]
pub enum ErrorKind {
    /// A template names a variable that neither the store nor the environment
    /// holds, and interpolation is strict. The detail is the variable's path.
    UnknownVariable,
    /// A template has the braces of an interpolation, `{{` and then `}}`, but
    /// holds no interpolation that is well formed. The detail is the template.
    InvalidVariableName,
    /// The plan asks for more concurrent iterations than it has iterations. The
    /// detail is the concurrency.
    ConcurrencyTooHigh,
    /// A tag is both asked for and to be skipped. The detail is the tag.
    ConflictingTags,
    /// An optional property holds a mapping where a string belongs. The detail
    /// is the property.
    NotAString,
    /// A required property holds a mapping where a string belongs. The detail
    /// is the property.
    RequiredString,
    /// A required property is missing, or is neither a string nor a whole
    /// number. The detail is the property.
    UnknownProperty,
    /// An entry lacks the mapping that makes it a step of its kind. The detail
    /// is the name of that mapping.
    MissingField,
    /// A delay does not say how many seconds it lasts, as a whole number that
    /// is not negative. The detail is the name of the delay.
    InvalidSeconds,
    /// A request that sends a body has none that is a string, a file or hex
    /// digits. The detail is the name of the request.
    InvalidBody,
    /// The hex digits of a body do not stand for bytes. The detail is the
    /// digits.
    InvalidHex,
    /// A header of a request has a value that is no string. The detail is the
    /// header's name.
    HeaderNotString,
    /// `pick` is negative. The detail is its value.
    NegativePick,
    /// `pick` is greater than the number of items. The detail is its value.
    PickTooLarge,
    /// A property that must be literal holds an interpolation. The detail is
    /// the property.
    InterpolationNotSupported,
    /// An item of `with_items` holds an interpolation. The detail is the item.
    InterpolatedItem,
    /// A range lacks its start or its stop. The detail is the missing property.
    MissingBound,
    /// A bound or the step of a range is no whole number. The detail is the
    /// property.
    BoundNotNumber,
    /// The step of a range is zero. The detail is the name of the entry.
    InvalidStep,
    /// An entry of the plan is of no known kind. The detail is the entry, as
    /// JSON text.
    UnknownNode,
    /// The plan includes a document that was not handed in. The detail is its
    /// path.
    MissingDocument,
    /// The plan takes its items from a CSV file that was not handed in. The
    /// detail is its path; with it comes the quote character to read it with.
    MissingTable(u8),
    /// The plan takes its items from the lines of a file that was not handed
    /// in. The detail is its path.
    MissingLines,
    /// A request takes its body from a file that was not handed in. The detail
    /// is its path.
    MissingBytes,
    /// Documents include one another more deeply than the limit. The detail is
    /// the path of the document that was not entered.
    IncludeTooDeep,
    /// A document lacks the list that was asked of it. The detail is the name
    /// of the list.
    MissingAccessor,
    /// A document that should be a list of entries is none. The detail is its
    /// path.
    NotASequence,
    /// An assertion compared two texts that differ. The detail holds both.
    AssertionMismatched,
    /// A command could not be started. The detail is the command.
    ExecFailed,
    /// A request has a relative address and the store has no `base`. The
    /// detail is the address.
    UnknownBase,
    /// A request has a relative address and the `base` of the store is no
    /// string. The detail is the address.
    WrongBase,
    /// The address of a request is no URL with a host. The detail is the
    /// address.
    InvalidUrl,
    /// The method of a request is not one of those that can be sent. The detail
    /// is the method.
    UnknownMethod,
    /// The `cookies` of the store are no mapping. The detail is the name of the
    /// request.
    InvalidCookies,
    /// An iteration was handed the outcome of work that it had not asked for.
    /// The detail names what was handed in.
    UnexpectedEvent,
    /// The plan holds no step. The detail is the path of the plan.
    EmptyBenchmark,
    /// The quote character of a CSV file is not one ASCII character. The
    /// detail is what was given.
    InvalidQuote,
    /// The plan asks for no iteration at a time. The detail is the concurrency.
    NoConcurrency,
}

/// An error: its kind, and the name or text that it is about.
#[derive(Debug, PartialEq, Eq)]
pub struct Error {
    pub kind: ErrorKind,
    pub detail: String,
}

impl View for Error {
    type V = (ErrorKind, Seq<char>);

    open spec fn view(&self) -> (ErrorKind, Seq<char>) {
        (self.kind, self.detail@)
    }
}

/// The model of a failure: the kind of the error and what it is about.
pub type Failure = (ErrorKind, Seq<char>);

/// Whether the result `r` is what `s` says: the same value, or the same error.
pub open spec fn agrees<T: View>(r: Result<T, Error>, s: Result<T::V, Failure>) -> bool {
    match r {
        Ok(v) => s == Ok::<T::V, Failure>(v@),
        Err(e) => s == Err::<T::V, Failure>(e@),
    }
}

/// The words that come before and after the detail in the message of an error.
pub open spec fn message_frame(kind: ErrorKind) -> (Seq<char>, Seq<char>) {
    match kind {
        ErrorKind::UnknownVariable => ("Unknown '"@, "' variable!"@),
        ErrorKind::InvalidVariableName => ("Invalid variable name in "@, ""@),
        ErrorKind::ConcurrencyTooHigh => (
            "The concurrency can not be higher than the number of iterations: "@,
            ""@,
        ),
        ErrorKind::ConflictingTags => (
            "`tags` and `skip-tags` must not contain the same values: "@,
            ""@,
        ),
        ErrorKind::NotAString => ("`"@, "` needs to be a string. Try adding quotes"@),
        ErrorKind::RequiredString => (
            "`"@,
            "` is required needs to be a string. Try adding quotes"@,
        ),
        ErrorKind::UnknownProperty => ("Unknown node `"@, "`"@),
        ErrorKind::MissingField => (""@, " field is required"@),
        ErrorKind::InvalidSeconds => ("Invalid number of seconds in "@, ""@),
        ErrorKind::InvalidBody => ("Body must be string, file or hex in "@, ""@),
        ErrorKind::InvalidHex => ("Invalid hex string: "@, ""@),
        ErrorKind::HeaderNotString => ("Headers must be strings: "@, ""@),
        ErrorKind::NegativePick => ("pick option should not be negative, but was "@, ""@),
        ErrorKind::PickTooLarge => (
            "pick option should not be greater than the provided items, but was "@,
            ""@,
        ),
        ErrorKind::InterpolationNotSupported => (
            "Interpolations not supported in '"@,
            "' property!"@,
        ),
        ErrorKind::InterpolatedItem => (
            "Interpolations not supported in 'with_items' children: "@,
            ""@,
        ),
        ErrorKind::MissingBound => ("Range property must be given: "@, ""@),
        ErrorKind::BoundNotNumber => ("Range property needs to be a number: "@, ""@),
        ErrorKind::InvalidStep => ("Range step must not be zero in "@, ""@),
        ErrorKind::UnknownNode => ("Unknown node:\n\n"@, "\n\n"@),
        ErrorKind::MissingDocument => ("Document not loaded: "@, ""@),
        ErrorKind::MissingTable(_) => ("CSV file not loaded: "@, ""@),
        ErrorKind::MissingLines => ("File not loaded: "@, ""@),
        ErrorKind::MissingBytes => ("Body file not loaded: "@, ""@),
        ErrorKind::IncludeTooDeep => ("Too many nested includes at "@, ""@),
        ErrorKind::MissingAccessor => ("Node missing on config: "@, ""@),
        ErrorKind::NotASequence => ("Expected document to be a sequence: "@, ""@),
        ErrorKind::AssertionMismatched => ("Assertion mismatched: "@, ""@),
        ErrorKind::ExecFailed => ("Couldn't run "@, ""@),
        ErrorKind::UnknownBase => ("Unknown 'base' variable for "@, ""@),
        ErrorKind::WrongBase => ("Wrong type 'base' variable for "@, ""@),
        ErrorKind::InvalidUrl => ("Invalid url: "@, ""@),
        ErrorKind::UnknownMethod => ("Unknown method '"@, "'"@),
        ErrorKind::InvalidCookies => ("Wrong type 'cookies' variable for "@, ""@),
        ErrorKind::UnexpectedEvent => ("Unexpected event: "@, ""@),
        ErrorKind::EmptyBenchmark => ("Empty benchmark: "@, ""@),
        ErrorKind::InvalidQuote => ("Invalid quote character: "@, ""@),
        ErrorKind::NoConcurrency => ("The concurrency must be at least 1, but was "@, ""@),
    }
}

/// The words that come before and after the detail in the message of an error.
fn frame(kind: ErrorKind) -> (r: (&'static str, &'static str))
    ensures
        (r.0@, r.1@) == message_frame(kind),
{
    match kind {
        ErrorKind::UnknownVariable => ("Unknown '", "' variable!"),
        ErrorKind::InvalidVariableName => ("Invalid variable name in ", ""),
        ErrorKind::ConcurrencyTooHigh => (
            "The concurrency can not be higher than the number of iterations: ",
            "",
        ),
        ErrorKind::ConflictingTags => (
            "`tags` and `skip-tags` must not contain the same values: ",
            "",
        ),
        ErrorKind::NotAString => ("`", "` needs to be a string. Try adding quotes"),
        ErrorKind::RequiredString => ("`", "` is required needs to be a string. Try adding quotes"),
        ErrorKind::UnknownProperty => ("Unknown node `", "`"),
        ErrorKind::MissingField => ("", " field is required"),
        ErrorKind::InvalidSeconds => ("Invalid number of seconds in ", ""),
        ErrorKind::InvalidBody => ("Body must be string, file or hex in ", ""),
        ErrorKind::InvalidHex => ("Invalid hex string: ", ""),
        ErrorKind::HeaderNotString => ("Headers must be strings: ", ""),
        ErrorKind::NegativePick => ("pick option should not be negative, but was ", ""),
        ErrorKind::PickTooLarge => (
            "pick option should not be greater than the provided items, but was ",
            "",
        ),
        ErrorKind::InterpolationNotSupported => (
            "Interpolations not supported in '",
            "' property!",
        ),
        ErrorKind::InterpolatedItem => (
            "Interpolations not supported in 'with_items' children: ",
            "",
        ),
        ErrorKind::MissingBound => ("Range property must be given: ", ""),
        ErrorKind::BoundNotNumber => ("Range property needs to be a number: ", ""),
        ErrorKind::InvalidStep => ("Range step must not be zero in ", ""),
        ErrorKind::UnknownNode => ("Unknown node:\n\n", "\n\n"),
        ErrorKind::MissingDocument => ("Document not loaded: ", ""),
        ErrorKind::MissingTable(_) => ("CSV file not loaded: ", ""),
        ErrorKind::MissingLines => ("File not loaded: ", ""),
        ErrorKind::MissingBytes => ("Body file not loaded: ", ""),
        ErrorKind::IncludeTooDeep => ("Too many nested includes at ", ""),
        ErrorKind::MissingAccessor => ("Node missing on config: ", ""),
        ErrorKind::NotASequence => ("Expected document to be a sequence: ", ""),
        ErrorKind::AssertionMismatched => ("Assertion mismatched: ", ""),
        ErrorKind::ExecFailed => ("Couldn't run ", ""),
        ErrorKind::UnknownBase => ("Unknown 'base' variable for ", ""),
        ErrorKind::WrongBase => ("Wrong type 'base' variable for ", ""),
        ErrorKind::InvalidUrl => ("Invalid url: ", ""),
        ErrorKind::UnknownMethod => ("Unknown method '", "'"),
        ErrorKind::InvalidCookies => ("Wrong type 'cookies' variable for ", ""),
        ErrorKind::UnexpectedEvent => ("Unexpected event: ", ""),
        ErrorKind::EmptyBenchmark => ("Empty benchmark: ", ""),
        ErrorKind::InvalidQuote => ("Invalid quote character: ", ""),
        ErrorKind::NoConcurrency => ("The concurrency must be at least 1, but was ", ""),
    }
}

impl Error {
    /// An error of the kind `kind` about `detail`.
    pub fn new(kind: ErrorKind, detail: String) -> (r: Error)
        ensures
            r@ == (kind, detail@),
    {
        Error { kind, detail }
    }

    /// An error about the text `detail`.
    pub fn about(kind: ErrorKind, detail: &str) -> (r: Error)
        ensures
            r@ == (kind, detail@),
    {
        Error { kind, detail: detail.to_owned() }
    }

    /// The message of the error, for people to read.
    pub fn message(&self) -> (r: String)
        ensures
            r@ == message_frame(self.kind).0 + self.detail@ + message_frame(self.kind).1,
    {
        let mut out: Vec<char> = Vec::new();
        let (before, after) = frame(self.kind);
        append_str(&mut out, before);
        append_str(&mut out, self.detail.as_str());
        append_str(&mut out, after);
        assert(out@ =~= message_frame(self.kind).0 + self.detail@ + message_frame(self.kind).1);
        string_of(&out)
    }
}

} // verus!
