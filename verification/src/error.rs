//! What can go wrong, as the user is told.

use vstd::prelude::*;

verus! {

/// An error of the installer.
#[derive(Debug)]
pub enum InstallerError {
    /// A message of the installer's own.
    Message(String),
    /// An input or output operation failed; the text is the system's.
    Io(String),
    /// An archive could not be read; the text is the archive reader's.
    Zip(String),
}

/// The value of an [`InstallerError`].
pub enum ErrorView {
    Message(Seq<char>),
    Io(Seq<char>),
    Zip(Seq<char>),
}

impl View for InstallerError {
    type V = ErrorView;

    open spec fn view(&self) -> ErrorView {
        match self {
            InstallerError::Message(s) => ErrorView::Message(s@),
            InstallerError::Io(s) => ErrorView::Io(s@),
            InstallerError::Zip(s) => ErrorView::Zip(s@),
        }
    }
}

impl ErrorView {
    /// The text that the user sees.
    pub open spec fn text(self) -> Seq<char> {
        match self {
            ErrorView::Message(s) => s,
            ErrorView::Io(s) => s,
            ErrorView::Zip(s) => s,
        }
    }
}

impl InstallerError {
    /// The error that shows the given message.
    pub fn message(text: &str) -> (r: InstallerError)
        ensures
            r@ == ErrorView::Message(text@),
    {
        InstallerError::Message(text.to_owned())
    }

    /// The text that the user sees.
    pub fn text(&self) -> (r: String)
        ensures
            r@ == self@.text(),
    {
        match self {
            InstallerError::Message(s) => s.clone(),
            InstallerError::Io(s) => s.clone(),
            InstallerError::Zip(s) => s.clone(),
        }
    }

    /// An equal error.
    pub fn copy(&self) -> (r: InstallerError)
        ensures
            r@ == self@,
    {
        match self {
            InstallerError::Message(s) => InstallerError::Message(s.clone()),
            InstallerError::Io(s) => InstallerError::Io(s.clone()),
            InstallerError::Zip(s) => InstallerError::Zip(s.clone()),
        }
    }
}

}
