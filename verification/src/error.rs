//! The error type shared by every subsystem: a message and, optionally, the
//! error that caused it.

use vstd::prelude::*;

verus! {

/// `std::io::Error`. Opaque; it is only displayed.
#[verifier::external_type_specification]
#[verifier::external_body]
pub struct ExIoError(std::io::Error);

/// `std::num::ParseIntError`. Opaque; it is only displayed.
#[verifier::external_type_specification]
#[verifier::external_body]
pub struct ExParseIntError(std::num::ParseIntError);

/// Generic error with only a message and optionally a source.
///
/// Errors are typically made with `From<&'static str>` or `From<String>`,
/// and given a cause with [`GenericError::with_source`].
#[derive(Debug)]
pub struct GenericError {
    pub message: String,
    pub source: Option<Box<GenericError>>,
}

/// The separator between an error's message and the text of its source.
pub open spec fn source_separator() -> Seq<char> {
    seq![':', ' ']
}

/// An error that has `message` and no source.
pub open spec fn leaf_error(message: Seq<char>, e: GenericError) -> bool {
    e.message@ == message && e.source is None
}

/// An error that has `message` and, as its source, an error without a source
/// of its own.
pub open spec fn wraps_leaf(message: Seq<char>, e: GenericError) -> bool {
    &&& e.message@ == message
    &&& e.source matches Some(s)
    &&& s.source is None
}

/// An error that has `message` and, as its source, a leaf whose message is
/// the displayed text of `cause`.
pub open spec fn wraps_display<E: core::fmt::Display>(
    message: Seq<char>,
    cause: &E,
    e: GenericError,
) -> bool {
    &&& wraps_leaf(message, e)
    &&& vstd::string::to_string_from_display_ensures::<E>(cause, e.source->0.message)
}

impl GenericError {
    /// The full text of the error: its message, then `": "` and the text of
    /// its source if there is one.
    pub open spec fn text(self) -> Seq<char>
        decreases self,
    {
        match self.source {
            None => self.message@,
            Some(s) => self.message@ + source_separator() + s.text(),
        }
    }

    /// Changes the error's source.
    pub fn with_source(self, source: GenericError) -> (r: GenericError)
        ensures
            r.message == self.message,
            r.source == Some(Box::new(source)),
    {
        GenericError { message: self.message, source: Some(Box::new(source)) }
    }

    /// The error's own message, without its source.
    pub fn description(&self) -> (r: &str)
        ensures
            r@ == self.message@,
    {
        self.message.as_str()
    }

    /// The error that caused this one, if any.
    pub fn source(&self) -> (r: Option<&GenericError>)
        ensures
            match r {
                None => self.source is None,
                Some(s) => self.source == Some(Box::new(*s)),
            },
    {
        match &self.source {
            None => None,
            Some(source) => Some(&**source),
        }
    }

    /// Renders the error as `message`, or `message: source` when it has a
    /// source, the source rendered in the same way.
    pub fn to_text(&self) -> (r: String)
        ensures
            r@ == self.text(),
        decreases self,
    {
        let mut out = self.message.clone();
        match &self.source {
            None => {},
            Some(source) => {
                proof {
                    reveal_strlit(": ");
                }
                assert(": "@ =~= source_separator());
                out.append(": ");
                let inner = source.to_text();
                out.append(inner.as_str());
            },
        }
        out
    }

    /// An error with the given message whose source is a leaf holding the
    /// displayed text of `cause`.
    pub fn caused_by<E: core::fmt::Display>(message: &str, cause: &E) -> (r: GenericError)
        ensures
            wraps_display(message@, cause, r),
    {
        let leaf = GenericError { message: cause.to_string(), source: None };
        GenericError { message: String::from_str(message), source: Some(Box::new(leaf)) }
    }

    /// An error about the thing called `subject`: its message is `subject`
    /// followed by `what`, its source a leaf whose message is `cause`.
    pub fn with_cause(subject: &str, what: &str, cause: &str) -> (r: GenericError)
        ensures
            wraps_leaf(subject@ + what@, r),
            r.source->0.message@ == cause@,
    {
        let mut message = String::from_str(subject);
        message.append(what);
        let leaf = GenericError { message: String::from_str(cause), source: None };
        GenericError { message, source: Some(Box::new(leaf)) }
    }

    /// An error about the thing called `subject`: its message is `subject`
    /// followed by `what`, its source a leaf holding the displayed text of
    /// `cause`.
    pub fn about<E: core::fmt::Display>(subject: &str, what: &str, cause: &E) -> (r: GenericError)
        ensures
            wraps_display(subject@ + what@, cause, r),
    {
        let mut message = String::from_str(subject);
        message.append(what);
        GenericError::caused_by(message.as_str(), cause)
    }
}

impl From<&'static str> for GenericError {
    fn from(message: &'static str) -> (r: GenericError)
        ensures
            leaf_error(message@, r),
    {
        GenericError { message: String::from_str(message), source: None }
    }
}

impl vstd::std_specs::convert::FromSpecImpl<&'static str> for GenericError {
    open spec fn obeys_from_spec() -> bool {
        false
    }

    open spec fn from_spec(message: &'static str) -> GenericError {
        arbitrary()
    }
}

impl From<String> for GenericError {
    fn from(message: String) -> (r: GenericError)
        ensures
            leaf_error(message@, r),
    {
        GenericError { message, source: None }
    }
}

impl vstd::std_specs::convert::FromSpecImpl<String> for GenericError {
    open spec fn obeys_from_spec() -> bool {
        true
    }

    open spec fn from_spec(message: String) -> GenericError {
        GenericError { message, source: None }
    }
}

impl From<std::io::Error> for GenericError {
    fn from(source: std::io::Error) -> (r: GenericError)
        ensures
            wraps_display("i/o error"@, &source, r),
    {
        GenericError::caused_by("i/o error", &source)
    }
}

impl vstd::std_specs::convert::FromSpecImpl<std::io::Error> for GenericError {
    open spec fn obeys_from_spec() -> bool {
        false
    }

    open spec fn from_spec(source: std::io::Error) -> GenericError {
        arbitrary()
    }
}

impl From<std::num::ParseIntError> for GenericError {
    fn from(source: std::num::ParseIntError) -> (r: GenericError)
        ensures
            wraps_display("can't parse integer"@, &source, r),
    {
        GenericError::caused_by("can't parse integer", &source)
    }
}

impl vstd::std_specs::convert::FromSpecImpl<std::num::ParseIntError> for GenericError {
    open spec fn obeys_from_spec() -> bool {
        false
    }

    open spec fn from_spec(source: std::num::ParseIntError) -> GenericError {
        arbitrary()
    }
}

impl From<std::num::TryFromIntError> for GenericError {
    fn from(source: std::num::TryFromIntError) -> (r: GenericError)
        ensures
            wraps_display("can't convert integer"@, &source, r),
    {
        GenericError::caused_by("can't convert integer", &source)
    }
}

impl vstd::std_specs::convert::FromSpecImpl<std::num::TryFromIntError> for GenericError {
    open spec fn obeys_from_spec() -> bool {
        false
    }

    open spec fn from_spec(source: std::num::TryFromIntError) -> GenericError {
        arbitrary()
    }
}

impl From<std::sync::mpsc::RecvError> for GenericError {
    fn from(source: std::sync::mpsc::RecvError) -> (r: GenericError)
        ensures
            wraps_display("mpsc receive failed"@, &source, r),
    {
        GenericError::caused_by("mpsc receive failed", &source)
    }
}

impl vstd::std_specs::convert::FromSpecImpl<std::sync::mpsc::RecvError> for GenericError {
    open spec fn obeys_from_spec() -> bool {
        false
    }

    open spec fn from_spec(source: std::sync::mpsc::RecvError) -> GenericError {
        arbitrary()
    }
}

impl<T: 'static + Send> From<std::sync::mpsc::SendError<T>> for GenericError {
    fn from(source: std::sync::mpsc::SendError<T>) -> (r: GenericError)
        ensures
            wraps_display("mpsc send failed"@, &source, r),
    {
        GenericError::caused_by("mpsc send failed", &source)
    }
}

impl<T: 'static + Send> vstd::std_specs::convert::FromSpecImpl<std::sync::mpsc::SendError<T>> for GenericError {
    open spec fn obeys_from_spec() -> bool {
        false
    }

    open spec fn from_spec(source: std::sync::mpsc::SendError<T>) -> GenericError {
        arbitrary()
    }
}

} // verus!
