//! The classifier: what kind of thing a link points to.
//!
//! A target is parsed as a URL by the `url` crate. A target that parses is a
//! URL, and is known from then on by its text without the fragment. A target
//! that fails to parse only because it is relative is a path. Any other
//! failure makes the target malformed.

use url::{ParseError, Url};
use vstd::prelude::*;

verus! {

/// `url::Url`, a parsed URL. Nothing inside it is seen here.
#[verifier::external_type_specification]
#[verifier::external_body]
pub struct ExUrl(Url);

/// `url::ParseError`, why a text is no URL. Its variants are not seen here.
#[verifier::external_type_specification]
#[verifier::external_body]
pub struct ExParseError(ParseError);

/// The text of a URL: its serialization.
pub uninterp spec fn url_text(url: &Url) -> Seq<char>;

/// Whether a parse error is the one that says that the input is relative and
/// that there is no base to resolve it against.
pub uninterp spec fn lacks_base(error: &ParseError) -> bool;

/// The message of a parse error.
pub uninterp spec fn parse_error_message(error: &ParseError) -> Seq<char>;

/// What parsing a text as a URL gives: the text of the URL, or, for a text
/// that does not parse, whether it only lacks a base, and the message of the
/// error.
pub uninterp spec fn parsed_url(input: Seq<char>) -> Result<Seq<char>, (bool, Seq<char>)>;

/// The text of a URL once its fragment is taken away, given its text before.
pub uninterp spec fn fragment_cleared(text: Seq<char>) -> Seq<char>;

/// The scheme of the URL with the given text.
pub uninterp spec fn scheme_of(text: Seq<char>) -> Seq<char>;

/// `url::Url::parse`. Trusted: whether and how the input parses depends on
/// the input alone.
#[verifier::external_body]
fn parse_url(input: &str) -> (outcome: Result<Url, ParseError>)
    ensures
        match outcome {
            Ok(url) => parsed_url(input@) == Ok::<Seq<char>, (bool, Seq<char>)>(url_text(&url)),
            Err(error) => parsed_url(input@) == Err::<Seq<char>, (bool, Seq<char>)>(
                (lacks_base(&error), parse_error_message(&error)),
            ),
        },
{
    Url::parse(input)
}

/// `url::Url::set_fragment` with `None`. Trusted: the text of the URL after
/// the call depends on its text before alone.
#[verifier::external_body]
fn clear_fragment(url: &mut Url)
    ensures
        url_text(final(url)) == fragment_cleared(url_text(old(url))),
{
    url.set_fragment(None)
}

/// `url::Url::as_str`. Trusted: it gives the text of the URL.
#[verifier::external_body]
fn url_string(url: &Url) -> (text: String)
    ensures
        text@ == url_text(url),
{
    url.as_str().to_owned()
}

/// `url::Url::scheme`. Trusted: the scheme depends on the text of the URL
/// alone.
#[verifier::external_body]
fn url_scheme(url: &Url) -> (scheme: String)
    ensures
        scheme@ == scheme_of(url_text(url)),
{
    url.scheme().to_owned()
}

/// `==` of `url::ParseError`, against `RelativeUrlWithoutBase`.
#[verifier::external_body]
fn is_relative_without_base(error: &ParseError) -> (relative: bool)
    ensures
        relative == lacks_base(error),
{
    *error == ParseError::RelativeUrlWithoutBase
}

/// `Display` of `url::ParseError`.
#[verifier::external_body]
fn error_message(error: &ParseError) -> (message: String)
    ensures
        message@ == parse_error_message(error),
{
    error.to_string()
}

/// A URL without its fragment: the key under which links to one resource
/// meet.
#[derive(Debug, PartialEq)]
pub struct CanonicalUrl {
    /// The text of the URL, without the fragment.
    pub key: String,
    /// The scheme of the URL.
    pub scheme: String,
}

/// What a link points to.
#[derive(Debug, PartialEq)]
pub enum Target {
    /// A URL.
    Url(CanonicalUrl),
    /// A path, relative to the document or to the root.
    RelativePath,
    /// Neither; the message says why the target is no URL.
    Malformed(String),
}

/// What a [`CanonicalUrl`] holds.
pub struct CanonicalUrlView {
    pub key: Seq<char>,
    pub scheme: Seq<char>,
}

/// What a [`Target`] holds.
pub enum TargetView {
    Url(CanonicalUrlView),
    RelativePath,
    Malformed(Seq<char>),
}

impl View for CanonicalUrl {
    type V = CanonicalUrlView;

    open spec fn view(&self) -> CanonicalUrlView {
        CanonicalUrlView { key: self.key@, scheme: self.scheme@ }
    }
}

impl View for Target {
    type V = TargetView;

    open spec fn view(&self) -> TargetView {
        match *self {
            Target::Url(url) => TargetView::Url(url@),
            Target::RelativePath => TargetView::RelativePath,
            Target::Malformed(message) => TargetView::Malformed(message@),
        }
    }
}

/// The canonical form of the URL with the given text.
pub open spec fn canonical(text: Seq<char>) -> CanonicalUrlView {
    CanonicalUrlView { key: fragment_cleared(text), scheme: scheme_of(fragment_cleared(text)) }
}

/// What a target that is no URL is: a path where it only lacks a base, else
/// malformed.
pub open spec fn failed_target(lacks_base: bool, message: Seq<char>) -> TargetView {
    if lacks_base {
        TargetView::RelativePath
    } else {
        TargetView::Malformed(message)
    }
}

/// What `target` points to.
pub open spec fn classification(target: Seq<char>) -> TargetView {
    match parsed_url(target) {
        Ok(text) => TargetView::Url(canonical(text)),
        Err((lacks_base, message)) => failed_target(lacks_base, message),
    }
}

impl CanonicalUrl {
    /// A second value that holds the same.
    pub fn duplicate(&self) -> (copy: CanonicalUrl)
        ensures
            copy@ == self@,
    {
        CanonicalUrl { key: self.key.clone(), scheme: self.scheme.clone() }
    }

    /// Whether two URLs are one resource: whether their keys are equal.
    pub fn same_resource(&self, other: &CanonicalUrl) -> (same: bool)
        ensures
            same == (self@.key == other@.key),
    {
        self.key == other.key
    }
}

/// Sorts a target that did not parse as a URL.
pub fn classify_failure(lacks_base: bool, message: String) -> (target: Target)
    ensures
        target@ == failed_target(lacks_base, message@),
{
    if lacks_base {
        Target::RelativePath
    } else {
        Target::Malformed(message)
    }
}

/// Says what `target` points to.
pub fn classify(target: &str) -> (class: Target)
    ensures
        class@ == classification(target@),
{
    match parse_url(target) {
        Ok(mut url) => {
            clear_fragment(&mut url);
            Target::Url(CanonicalUrl { key: url_string(&url), scheme: url_scheme(&url) })
        },
        Err(error) => classify_failure(is_relative_without_base(&error), error_message(&error)),
    }
}

} // verus!
