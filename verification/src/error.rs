//! The errors that plugin operations report.

use vstd::prelude::*;

verus! {

/// Why an operation of the plugin failed.
#[derive(Debug, Clone, PartialEq, Eq)]
pub enum Error {
    /// Recording, downloading or loading a model failed.
    Recording(String),
    /// Speech recognition cannot be offered here.
    NotAvailable(String),
    /// The user has not allowed speech recognition.
    PermissionDenied(String),
    /// The request itself cannot be honoured.
    ConfigError(String),
}

/// An [`Error`] with its message as a sequence of characters.
pub enum ErrorView {
    Recording(Seq<char>),
    NotAvailable(Seq<char>),
    PermissionDenied(Seq<char>),
    ConfigError(Seq<char>),
}

impl View for Error {
    type V = ErrorView;

    open spec fn view(&self) -> ErrorView {
        match self {
            Error::Recording(m) => ErrorView::Recording(m@),
            Error::NotAvailable(m) => ErrorView::NotAvailable(m@),
            Error::PermissionDenied(m) => ErrorView::PermissionDenied(m@),
            Error::ConfigError(m) => ErrorView::ConfigError(m@),
        }
    }
}

/// The view of an error tells its message as it is.
pub proof fn law_error_tells_its_message(message: String)
    ensures
        Error::Recording(message)@ == ErrorView::Recording(message@),
        Error::NotAvailable(message)@ == ErrorView::NotAvailable(message@),
        Error::PermissionDenied(message)@ == ErrorView::PermissionDenied(message@),
        Error::ConfigError(message)@ == ErrorView::ConfigError(message@),
{
}

} // verus!
