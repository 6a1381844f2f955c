//! Errors of the IPA operations.
use vstd::prelude::*;

verus! {

/// Why an IPA operation failed.
#[derive(Debug, Clone)]
pub enum SigError {
    /// The bytes are not a readable ZIP archive, or an entry could not be read or written;
    /// carries the archive library's message.
    Archive(String),
    /// A property list could not be read or written; carries the message.
    Plist(String),
    /// A signature is not valid base64; carries the decoder's message.
    Base64(String),
    /// No `Payload/<name>.app` bundle was found.
    NoAppBundle,
    /// A fat Mach-O record names the whole image again, so inspecting it never ends.
    SelfNestedMacho,
}

/// The mathematical value of an error: its kind and message text.
pub enum SigErrorView {
    Archive(Seq<char>),
    Plist(Seq<char>),
    Base64(Seq<char>),
    NoAppBundle,
    SelfNestedMacho,
}

impl View for SigError {
    type V = SigErrorView;

    open spec fn view(&self) -> SigErrorView {
        match self {
            SigError::Archive(m) => SigErrorView::Archive(m@),
            SigError::Plist(m) => SigErrorView::Plist(m@),
            SigError::Base64(m) => SigErrorView::Base64(m@),
            SigError::NoAppBundle => SigErrorView::NoAppBundle,
            SigError::SelfNestedMacho => SigErrorView::SelfNestedMacho,
        }
    }
}

/// The message of an error: the library's own message for an archive, property list or
/// base64 failure, and a fixed text for the others.
pub open spec fn sig_error_text(e: SigErrorView) -> Seq<char> {
    match e {
        SigErrorView::Archive(m) => m,
        SigErrorView::Plist(m) => m,
        SigErrorView::Base64(m) => m,
        SigErrorView::NoAppBundle => "Could not find app bundle"@,
        SigErrorView::SelfNestedMacho => "Mach-O fat image contains itself"@,
    }
}

impl SigError {
    /// The message of the error (see [`sig_error_text`]).
    pub fn message(&self) -> (r: String)
        ensures
            r@ == sig_error_text(self@),
    {
        match self {
            SigError::Archive(m) => m.clone(),
            SigError::Plist(m) => m.clone(),
            SigError::Base64(m) => m.clone(),
            SigError::NoAppBundle => "Could not find app bundle".to_owned(),
            SigError::SelfNestedMacho => "Mach-O fat image contains itself".to_owned(),
        }
    }
}

} // verus!
