//! The markdown tokens that the scanner reads.
//!
//! The tokenizer itself is `pulldown_cmark`. Its events are turned, one for
//! one, into [`Token`] values, which keep what the scanner looks at: text,
//! the end of a link, and the borders of code blocks.

use pulldown_cmark::{Event as ParserEvent, LinkType, OffsetIter, Options, Parser, Tag};
use vstd::prelude::*;

verus! {

/// How a link was written, and whether its label was found.
#[derive(Clone, Copy, Debug, PartialEq, Eq)]
pub enum LinkKind {
    /// `[text](target)`
    Inline,
    /// `[text][label]`, with a definition of the label
    Reference,
    /// `[text][label]`, without a definition of the label
    ReferenceUnknown,
    /// `[label][]`, with a definition of the label
    Collapsed,
    /// `[label][]`, without a definition of the label
    CollapsedUnknown,
    /// `[label]`, with a definition of the label
    Shortcut,
    /// `[label]`, without a definition of the label
    ShortcutUnknown,
    /// `<http://example.org>`
    Autolink,
    /// `<someone@example.org>`
    Email,
}

/// One step of the tokenizer, as far as the scanner reads it.
#[derive(Debug, PartialEq, Eq)]
pub enum Token {
    /// A run of text.
    Text(String),
    /// The end of a link, with its destination and its title.
    LinkEnd { kind: LinkKind, target: String, title: String },
    /// The start of a code block.
    CodeBlockStart,
    /// The end of a code block.
    CodeBlockEnd,
    /// Anything else.
    Other,
}

/// A token and the byte offset at which its markup starts.
#[derive(Debug, PartialEq, Eq)]
pub struct LocatedToken {
    pub token: Token,
    pub offset: usize,
}

/// What a [`Token`] holds.
pub enum TokenView {
    Text(Seq<char>),
    LinkEnd { kind: LinkKind, target: Seq<char>, title: Seq<char> },
    CodeBlockStart,
    CodeBlockEnd,
    Other,
}

/// What a [`LocatedToken`] holds.
pub struct LocatedTokenView {
    pub token: TokenView,
    pub offset: usize,
}

impl View for Token {
    type V = TokenView;

    open spec fn view(&self) -> TokenView {
        match *self {
            Token::Text(text) => TokenView::Text(text@),
            Token::LinkEnd { kind, target, title } => TokenView::LinkEnd {
                kind,
                target: target@,
                title: title@,
            },
            Token::CodeBlockStart => TokenView::CodeBlockStart,
            Token::CodeBlockEnd => TokenView::CodeBlockEnd,
            Token::Other => TokenView::Other,
        }
    }
}

impl View for LocatedToken {
    type V = LocatedTokenView;

    open spec fn view(&self) -> LocatedTokenView {
        LocatedTokenView { token: self.token@, offset: self.offset }
    }
}

/// The destination and the title given to a reference whose label has no
/// definition: no destination, and the label as the title.
pub fn unresolved_link(label: &str, _normalized: &str) -> (link: Option<(String, String)>)
    ensures
        link matches Some((target, title)) && target@ == Seq::<char>::empty() && title@ == label@,
{
    Some((String::new(), label.to_owned()))
}

/// `pulldown_cmark::OffsetIter`, the tokenizer at work. Nothing inside it is
/// seen here.
#[verifier::external_type_specification]
#[verifier::external_body]
pub struct ExOffsetIter<'a>(OffsetIter<'a>);

/// `pulldown_cmark::Event`, what the tokenizer hands out. Nothing inside it
/// is seen here.
#[verifier::external_type_specification]
#[verifier::external_body]
pub struct ExParserEvent<'a>(ParserEvent<'a>);

/// `pulldown_cmark::LinkType`. Its variants are not seen here.
#[verifier::external_type_specification]
#[verifier::external_body]
pub struct ExLinkType(LinkType);

/// The tokens that a tokenizer has still to give, in order.
pub uninterp spec fn pending_tokens(tokenizer: &OffsetIter) -> Seq<LocatedTokenView>;

/// The tokens of a markdown text, in the order of the document.
pub uninterp spec fn markdown_tokens(text: Seq<char>) -> Seq<LocatedTokenView>;

/// `pulldown_cmark::Parser::new_with_broken_link_callback`, with every
/// extension switched on and [`unresolved_link`] as the callback, turned into
/// an iterator over events and their ranges. Trusted: the tokens it will give
/// are those of the text, which depend on nothing else.
#[verifier::external_body]
pub(crate) fn tokenize<'a>(text: &'a str) -> (tokenizer: OffsetIter<'a>)
    ensures
        pending_tokens(&tokenizer) == markdown_tokens(text@),
{
    Parser::new_with_broken_link_callback(text, Options::all(), Some(&unresolved_link))
        .into_offset_iter()
}

/// The kind of link that a `pulldown_cmark::LinkType` stands for.
pub uninterp spec fn link_kind_of(kind: LinkType) -> LinkKind;

/// Tells the variants of `pulldown_cmark::LinkType` apart. Trusted: each
/// variant stands for the kind of the same name.
#[verifier::external_body]
fn link_kind(kind: LinkType) -> (own: LinkKind)
    ensures
        own == link_kind_of(kind),
{
    match kind {
        LinkType::Inline => LinkKind::Inline,
        LinkType::Reference => LinkKind::Reference,
        LinkType::ReferenceUnknown => LinkKind::ReferenceUnknown,
        LinkType::Collapsed => LinkKind::Collapsed,
        LinkType::CollapsedUnknown => LinkKind::CollapsedUnknown,
        LinkType::Shortcut => LinkKind::Shortcut,
        LinkType::ShortcutUnknown => LinkKind::ShortcutUnknown,
        LinkType::Autolink => LinkKind::Autolink,
        LinkType::Email => LinkKind::Email,
    }
}

/// A token as the tokenizer hands it out, with the kind of a link still in
/// the tokenizer's own terms.
enum RawToken {
    Text(String),
    LinkEnd { kind: LinkType, target: String, title: String },
    CodeBlockStart,
    CodeBlockEnd,
    Other,
}

impl View for RawToken {
    type V = TokenView;

    closed spec fn view(&self) -> TokenView {
        match *self {
            RawToken::Text(text) => TokenView::Text(text@),
            RawToken::LinkEnd { kind, target, title } => TokenView::LinkEnd {
                kind: link_kind_of(kind),
                target: target@,
                title: title@,
            },
            RawToken::CodeBlockStart => TokenView::CodeBlockStart,
            RawToken::CodeBlockEnd => TokenView::CodeBlockEnd,
            RawToken::Other => TokenView::Other,
        }
    }
}

/// `next` of `pulldown_cmark::OffsetIter`. Trusted: it hands out the first
/// pending token, with the offset at which the token's range starts, and
/// keeps the rest; once nothing is pending it returns `None`, and goes on
/// doing so.
#[verifier::external_body]
fn next_raw_token<'a>(tokenizer: &mut OffsetIter<'a>) -> (next: Option<(RawToken, usize)>)
    ensures
        match next {
            Some((token, offset)) => {
                &&& pending_tokens(old(tokenizer)).len() > 0
                &&& pending_tokens(old(tokenizer))[0] == (LocatedTokenView { token: token@, offset })
                &&& pending_tokens(final(tokenizer)) == pending_tokens(old(tokenizer)).skip(1)
            },
            None => {
                &&& pending_tokens(old(tokenizer)).len() == 0
                &&& pending_tokens(final(tokenizer)).len() == 0
            },
        },
{
    let (event, span) = tokenizer.next()?;
    let token = match event {
        ParserEvent::Text(text) => RawToken::Text(text.to_string()),
        ParserEvent::End(Tag::Link(kind, target, title)) => RawToken::LinkEnd {
            kind,
            target: target.to_string(),
            title: title.to_string(),
        },
        ParserEvent::Start(Tag::CodeBlock(_)) => RawToken::CodeBlockStart,
        ParserEvent::End(Tag::CodeBlock(_)) => RawToken::CodeBlockEnd,
        _ => RawToken::Other,
    };
    Some((token, span.start))
}

/// Takes the next token from the tokenizer, or `None` once it has given all.
pub(crate) fn next_token<'a>(tokenizer: &mut OffsetIter<'a>) -> (token: Option<LocatedToken>)
    ensures
        match token {
            Some(token) => {
                &&& pending_tokens(old(tokenizer)).len() > 0
                &&& token@ == pending_tokens(old(tokenizer))[0]
                &&& pending_tokens(final(tokenizer)) == pending_tokens(old(tokenizer)).skip(1)
            },
            None => {
                &&& pending_tokens(old(tokenizer)).len() == 0
                &&& pending_tokens(final(tokenizer)).len() == 0
            },
        },
{
    match next_raw_token(tokenizer) {
        None => None,
        Some((raw, offset)) => {
            let token = match raw {
                RawToken::Text(text) => Token::Text(text),
                RawToken::LinkEnd { kind, target, title } => Token::LinkEnd {
                    kind: link_kind(kind),
                    target,
                    title,
                },
                RawToken::CodeBlockStart => Token::CodeBlockStart,
                RawToken::CodeBlockEnd => Token::CodeBlockEnd,
                RawToken::Other => Token::Other,
            };
            Some(LocatedToken { token, offset })
        },
    }
}

} // verus!
