//! What can be wrong with a link, where, and how it is reported.

use crate::text::{decimal, decimal_text, pad, padded};
use vstd::prelude::*;
use vstd::string::StringExecFns;

verus! {

/// The width to which the title of a report line is filled up.
pub const TITLE_WIDTH: usize = 22;

/// Why a link is reported.
#[derive(Debug, PartialEq)]
pub enum LinkError {
    /// The target is an absolute path, and those are not allowed.
    PathAbsolute,
    /// The target is a path to nothing.
    PathNonExistant,
    /// The server answered with this status, which is not 200.
    HttpStatus(u16),
    /// The request failed before any answer came; the message says how.
    HttpError(String),
    /// The target is no URL and no relative path; the message says why.
    UrlMalformed(String),
    /// The target is a reference to a label that is defined nowhere.
    ReferenceBroken,
}

/// An error found in a document.
#[derive(Debug, PartialEq)]
pub enum DocumentError {
    /// A link, with the text it is shown with and its target.
    Link { text: String, target: String, error: LinkError },
}

/// A place in a document.
#[derive(Debug, PartialEq)]
pub struct DocumentLocation {
    pub path: String,
    pub line: usize,
}

/// An error and the place where it was found.
#[derive(Debug, PartialEq)]
pub struct LocatedDocumentError {
    pub location: DocumentLocation,
    pub error: DocumentError,
}

/// What a [`LinkError`] holds.
pub enum LinkErrorView {
    PathAbsolute,
    PathNonExistant,
    HttpStatus(u16),
    HttpError(Seq<char>),
    UrlMalformed(Seq<char>),
    ReferenceBroken,
}

/// What a [`DocumentError`] holds.
pub enum DocumentErrorView {
    Link { text: Seq<char>, target: Seq<char>, error: LinkErrorView },
}

/// What a [`DocumentLocation`] holds.
pub struct DocumentLocationView {
    pub path: Seq<char>,
    pub line: usize,
}

/// What a [`LocatedDocumentError`] holds.
pub struct LocatedDocumentErrorView {
    pub location: DocumentLocationView,
    pub error: DocumentErrorView,
}

impl View for LinkError {
    type V = LinkErrorView;

    open spec fn view(&self) -> LinkErrorView {
        match *self {
            LinkError::PathAbsolute => LinkErrorView::PathAbsolute,
            LinkError::PathNonExistant => LinkErrorView::PathNonExistant,
            LinkError::HttpStatus(code) => LinkErrorView::HttpStatus(code),
            LinkError::HttpError(message) => LinkErrorView::HttpError(message@),
            LinkError::UrlMalformed(message) => LinkErrorView::UrlMalformed(message@),
            LinkError::ReferenceBroken => LinkErrorView::ReferenceBroken,
        }
    }
}

impl View for DocumentError {
    type V = DocumentErrorView;

    open spec fn view(&self) -> DocumentErrorView {
        match *self {
            DocumentError::Link { text, target, error } => DocumentErrorView::Link {
                text: text@,
                target: target@,
                error: error@,
            },
        }
    }
}

impl View for DocumentLocation {
    type V = DocumentLocationView;

    open spec fn view(&self) -> DocumentLocationView {
        DocumentLocationView { path: self.path@, line: self.line }
    }
}

impl View for LocatedDocumentError {
    type V = LocatedDocumentErrorView;

    open spec fn view(&self) -> LocatedDocumentErrorView {
        LocatedDocumentErrorView { location: self.location@, error: self.error@ }
    }
}

/// How an HTTP status is written out: what `hyper::StatusCode` displays for
/// the number, or, for a number that is no status, what its conversion error
/// displays.
pub uninterp spec fn status_line(code: u16) -> Seq<char>;

/// `hyper::StatusCode::from_u16`, and `Display` of what it returns. Trusted:
/// the text depends on the number alone.
#[verifier::external_body]
fn status_text(code: u16) -> (text: String)
    ensures
        text@ == status_line(code),
{
    match hyper::StatusCode::from_u16(code) {
        Ok(status) => status.to_string(),
        Err(invalid) => invalid.to_string(),
    }
}

/// The title under which an error is reported.
pub open spec fn title(error: LinkErrorView) -> Seq<char> {
    match error {
        LinkErrorView::PathAbsolute => "Found absolute path"@,
        LinkErrorView::PathNonExistant => "Found broken path"@,
        LinkErrorView::HttpStatus(_) => "Found broken url"@,
        LinkErrorView::HttpError(_) => "HTTP failure"@,
        LinkErrorView::UrlMalformed(_) => "Found malformed URL"@,
        LinkErrorView::ReferenceBroken => "Found broken reference"@,
    }
}

/// What a report line adds after the place, for the errors that have more to
/// say than their title.
pub open spec fn detail(error: LinkErrorView) -> Option<Seq<char>> {
    match error {
        LinkErrorView::HttpStatus(code) => Some(status_line(code)),
        LinkErrorView::HttpError(message) => Some(message),
        LinkErrorView::UrlMalformed(message) => Some(message),
        _ => None,
    }
}

/// A place, written as the path, a colon and the line.
pub open spec fn location_line(location: DocumentLocationView) -> Seq<char> {
    location.path + ":"@ + decimal(location.line as nat)
}

/// The report line of an error: the title filled up to [`TITLE_WIDTH`], the
/// link in brackets, the place, and the detail where there is one.
pub open spec fn report_line(error: LocatedDocumentErrorView) -> Seq<char> {
    match error.error {
        DocumentErrorView::Link { text, target, error: cause } => {
            let head = padded(title(cause), TITLE_WIDTH as nat) + " ("@ + text + " -> "@ + target
                + ") at "@ + location_line(error.location);
            match detail(cause) {
                Some(more) => head + " : "@ + more,
                None => head,
            }
        },
    }
}

impl LinkError {
    /// A second value that holds the same.
    pub fn duplicate(&self) -> (copy: LinkError)
        ensures
            copy@ == self@,
    {
        match self {
            LinkError::PathAbsolute => LinkError::PathAbsolute,
            LinkError::PathNonExistant => LinkError::PathNonExistant,
            LinkError::HttpStatus(code) => LinkError::HttpStatus(*code),
            LinkError::HttpError(message) => LinkError::HttpError(message.clone()),
            LinkError::UrlMalformed(message) => LinkError::UrlMalformed(message.clone()),
            LinkError::ReferenceBroken => LinkError::ReferenceBroken,
        }
    }

    /// The title under which the error is reported.
    pub fn title(&self) -> (text: &'static str)
        ensures
            text@ == title(self@),
    {
        match self {
            LinkError::PathAbsolute => "Found absolute path",
            LinkError::PathNonExistant => "Found broken path",
            LinkError::HttpStatus(_) => "Found broken url",
            LinkError::HttpError(_) => "HTTP failure",
            LinkError::UrlMalformed(_) => "Found malformed URL",
            LinkError::ReferenceBroken => "Found broken reference",
        }
    }

    /// What the report adds after the place, if anything.
    pub fn detail(&self) -> (text: Option<String>)
        ensures
            match text {
                Some(text) => detail(self@) == Some(text@),
                None => detail(self@) is None,
            },
    {
        match self {
            LinkError::HttpStatus(code) => Some(status_text(*code)),
            LinkError::HttpError(message) => Some(message.clone()),
            LinkError::UrlMalformed(message) => Some(message.clone()),
            _ => None,
        }
    }
}

impl DocumentLocation {
    /// The place as the report shows it.
    pub fn to_string(&self) -> (text: String)
        ensures
            text@ == location_line(self@),
    {
        let mut text = self.path.clone();
        text.append(":");
        text.append(decimal_text(self.line).as_str());
        text
    }
}

impl LocatedDocumentError {
    /// The line that reports the error.
    pub fn to_string(&self) -> (line: String)
        ensures
            line@ == report_line(self@),
    {
        match &self.error {
            DocumentError::Link { text, target, error } => {
                let mut line = pad(error.title(), TITLE_WIDTH);
                line.append(" (");
                line.append(text.as_str());
                line.append(" -> ");
                line.append(target.as_str());
                line.append(") at ");
                line.append(self.location.to_string().as_str());
                match error.detail() {
                    Some(more) => {
                        line.append(" : ");
                        line.append(more.as_str());
                    },
                    None => {},
                }
                line
            },
        }
    }
}

} // verus!
