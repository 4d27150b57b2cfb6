//! The failures that the access layer reports.
use vstd::prelude::*;

verus! {

/// Why an operation of the access layer did not succeed.
#[derive(Debug, Clone, PartialEq, Eq)]
pub enum Error {
    /// An identifier string is not valid hex, or decodes to the wrong shape.
    MalformedIdentifier,
    /// An object reference or path does not lead to an object.
    ImportFailure,
    /// The addressed property holds no value.
    NotFound,
    /// The actor identifier is not valid hex.
    BadActorId,
    /// A typed accessor was used on a value of another kind.
    TypeMismatch,
    /// A value that flattening into plain strings cannot represent.
    UnsupportedValue,
    /// A change that the patch schema has no variant for.
    UnsupportedPatchAction,
    /// A creation option that asks for behaviour that is not implemented.
    UnsupportedOption,
    /// A failure reported by the document itself, with its message.
    CoreError(String),
}

/// What an [`Error`] stands for.
pub enum ErrorView {
    MalformedIdentifier,
    ImportFailure,
    NotFound,
    BadActorId,
    TypeMismatch,
    UnsupportedValue,
    UnsupportedPatchAction,
    UnsupportedOption,
    CoreError(Seq<char>),
}

impl View for Error {
    type V = ErrorView;

    open spec fn view(&self) -> ErrorView {
        match self {
            Error::MalformedIdentifier => ErrorView::MalformedIdentifier,
            Error::ImportFailure => ErrorView::ImportFailure,
            Error::NotFound => ErrorView::NotFound,
            Error::BadActorId => ErrorView::BadActorId,
            Error::TypeMismatch => ErrorView::TypeMismatch,
            Error::UnsupportedValue => ErrorView::UnsupportedValue,
            Error::UnsupportedPatchAction => ErrorView::UnsupportedPatchAction,
            Error::UnsupportedOption => ErrorView::UnsupportedOption,
            Error::CoreError(m) => ErrorView::CoreError(m@),
        }
    }
}

impl Error {
    /// The text of the message for each kind of failure.
    pub open spec fn message_text(self) -> Seq<char> {
        match self {
            Error::MalformedIdentifier => "Malformed identifier"@,
            Error::ImportFailure => "Failed to import object"@,
            Error::NotFound => "No value at this property"@,
            Error::BadActorId => "Bad actor id"@,
            Error::TypeMismatch => "Value has another type"@,
            Error::UnsupportedValue => "Unsupported value"@,
            Error::UnsupportedPatchAction => "Unsupported patch action"@,
            Error::UnsupportedOption => "Unsupported option"@,
            Error::CoreError(m) => "Core automerge error: "@ + m@,
        }
    }

    /// A human readable message for this failure.
    pub fn message(&self) -> (s: String)
        ensures
            s@ == self.message_text(),
    {
        match self {
            Error::MalformedIdentifier => "Malformed identifier".to_owned(),
            Error::ImportFailure => "Failed to import object".to_owned(),
            Error::NotFound => "No value at this property".to_owned(),
            Error::BadActorId => "Bad actor id".to_owned(),
            Error::TypeMismatch => "Value has another type".to_owned(),
            Error::UnsupportedValue => "Unsupported value".to_owned(),
            Error::UnsupportedPatchAction => "Unsupported patch action".to_owned(),
            Error::UnsupportedOption => "Unsupported option".to_owned(),
            Error::CoreError(m) => "Core automerge error: ".to_owned().concat(m.as_str()),
        }
    }
}

} // verus!
