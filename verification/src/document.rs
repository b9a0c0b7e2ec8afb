//! The scanner: from the text of one markdown document to its links and
//! broken references, each with its line.

use crate::lines::{lemma_line_number_monotonic, line_number, LineIndex};
use crate::token::{
    markdown_tokens, next_token, pending_tokens, tokenize, LinkKind, LocatedToken,
    LocatedTokenView, Token, TokenView,
};
use pulldown_cmark::OffsetIter;
use vstd::prelude::*;
use vstd::string::StringSliceAdditionalSpecFns;

verus! {

/// A finding that is an error in itself.
#[derive(Debug, PartialEq)]
pub enum Error {
    /// A reference whose label is defined nowhere in the document.
    ReferenceBroken { target: String, text: String },
}

/// What the scanner finds.
#[derive(Debug, PartialEq)]
pub enum Event {
    /// A link with a destination.
    Link { target: String, text: String },
    /// A finding that needs no further check to be reported.
    Error(Error),
}

/// A finding and the 1-based line on which it stands.
#[derive(Debug, PartialEq)]
pub struct LocatedEvent {
    pub event: Event,
    pub line: usize,
}

/// What an [`Error`] holds.
pub enum ErrorView {
    ReferenceBroken { target: Seq<char>, text: Seq<char> },
}

/// What an [`Event`] holds.
pub enum EventView {
    Link { target: Seq<char>, text: Seq<char> },
    Error(ErrorView),
}

/// What a [`LocatedEvent`] holds.
pub struct LocatedEventView {
    pub event: EventView,
    pub line: usize,
}

impl View for Error {
    type V = ErrorView;

    open spec fn view(&self) -> ErrorView {
        match *self {
            Error::ReferenceBroken { target, text } => ErrorView::ReferenceBroken {
                target: target@,
                text: text@,
            },
        }
    }
}

impl View for Event {
    type V = EventView;

    open spec fn view(&self) -> EventView {
        match *self {
            Event::Link { target, text } => EventView::Link { target: target@, text: text@ },
            Event::Error(error) => EventView::Error(error@),
        }
    }
}

impl View for LocatedEvent {
    type V = LocatedEventView;

    open spec fn view(&self) -> LocatedEventView {
        LocatedEventView { event: self.event@, line: self.line }
    }
}

/// What the scanner remembers between two tokens.
#[derive(Debug, PartialEq)]
pub struct ScanState {
    /// Whether the scanner stands inside a code block.
    pub code_block: bool,
    /// The last text seen outside code blocks.
    pub last_text: Option<String>,
}

/// What a [`ScanState`] holds.
pub struct ScanStateView {
    pub code_block: bool,
    pub last_text: Option<Seq<char>>,
}

impl View for ScanState {
    type V = ScanStateView;

    open spec fn view(&self) -> ScanStateView {
        ScanStateView {
            code_block: self.code_block,
            last_text: match self.last_text {
                Some(text) => Some(text@),
                None => None,
            },
        }
    }
}

/// The state in which a scan starts: outside code blocks, with no text seen.
pub open spec fn initial_state() -> ScanStateView {
    ScanStateView { code_block: false, last_text: None }
}

/// The link has a destination: it was written with one, or its label is
/// defined.
pub open spec fn has_destination(kind: LinkKind) -> bool {
    kind is Inline || kind is Reference || kind is Collapsed || kind is Shortcut
}

/// The link refers to a label that is defined nowhere.
pub open spec fn is_unresolved(kind: LinkKind) -> bool {
    kind is ReferenceUnknown || kind is CollapsedUnknown || kind is ShortcutUnknown
}

/// The text that a link closing in `state` is reported with: the last text
/// seen, or nothing where none was seen.
pub open spec fn shown_text(state: ScanStateView) -> Seq<char> {
    match state.last_text {
        Some(text) => text,
        None => Seq::empty(),
    }
}

/// What the scanner remembers after `token`.
pub open spec fn state_after(state: ScanStateView, token: TokenView) -> ScanStateView {
    match token {
        TokenView::Text(text) => if state.code_block {
            state
        } else {
            ScanStateView { code_block: state.code_block, last_text: Some(text) }
        },
        TokenView::CodeBlockStart => ScanStateView { code_block: true, last_text: state.last_text },
        TokenView::CodeBlockEnd => ScanStateView { code_block: false, last_text: state.last_text },
        _ => state,
    }
}

/// What `token` makes the scanner report, if anything.
pub open spec fn finding(state: ScanStateView, token: TokenView) -> Option<EventView> {
    match token {
        TokenView::LinkEnd { kind, target, title } => if has_destination(kind) {
            Some(EventView::Link { target, text: shown_text(state) })
        } else if is_unresolved(kind) {
            Some(EventView::Error(ErrorView::ReferenceBroken { target, text: title }))
        } else {
            None
        },
        _ => None,
    }
}

/// The finding of `token`, with the line of the token's offset in `source`.
pub open spec fn located_finding(
    source: Seq<u8>,
    state: ScanStateView,
    token: LocatedTokenView,
) -> Option<LocatedEventView> {
    match finding(state, token.token) {
        Some(event) => Some(
            LocatedEventView { event, line: line_number(source, token.offset as int) },
        ),
        None => None,
    }
}

/// Everything that a scan of `tokens` reports, in order, when it starts in
/// `state`.
pub open spec fn scan(
    source: Seq<u8>,
    state: ScanStateView,
    tokens: Seq<LocatedTokenView>,
) -> Seq<LocatedEventView>
    decreases tokens.len(),
{
    if tokens.len() == 0 {
        Seq::empty()
    } else {
        let rest = scan(source, state_after(state, tokens[0].token), tokens.skip(1));
        match located_finding(source, state, tokens[0]) {
            Some(event) => seq![event] + rest,
            None => rest,
        }
    }
}

/// The findings of a whole markdown text.
pub open spec fn document_events(text: Seq<char>, source: Seq<u8>) -> Seq<LocatedEventView> {
    scan(source, initial_state(), markdown_tokens(text))
}

/// The offsets of `tokens` never go back, and none is below `low`.
pub open spec fn offsets_advance(tokens: Seq<LocatedTokenView>, low: int) -> bool {
    &&& forall|i: int| 0 <= i < tokens.len() ==> low <= #[trigger] tokens[i].offset
    &&& forall|i: int, j: int|
        0 <= i < j < tokens.len() ==> #[trigger] tokens[i].offset <= #[trigger] tokens[j].offset
}

/// A scan reports at most one finding for each token, and nothing where
/// there is no token.
pub proof fn lemma_scan_is_bounded(
    source: Seq<u8>,
    state: ScanStateView,
    tokens: Seq<LocatedTokenView>,
)
    ensures
        scan(source, state, tokens).len() <= tokens.len(),
    decreases tokens.len(),
{
    if tokens.len() > 0 {
        lemma_scan_is_bounded(source, state_after(state, tokens[0].token), tokens.skip(1));
    }
}

/// Where the offsets of the tokens never go back, the lines of the findings
/// never go back either, and no finding stands before the line of the lowest
/// offset.
pub proof fn lemma_scan_lines_advance(
    source: Seq<u8>,
    state: ScanStateView,
    tokens: Seq<LocatedTokenView>,
    low: int,
)
    requires
        offsets_advance(tokens, low),
    ensures
        forall|i: int|
            0 <= i < scan(source, state, tokens).len() ==> line_number(source, low) <= (
            #[trigger] scan(source, state, tokens)[i]).line,
        forall|i: int, j: int|
            0 <= i < j < scan(source, state, tokens).len() ==> (#[trigger] scan(
                source,
                state,
                tokens,
            )[i]).line <= (#[trigger] scan(source, state, tokens)[j]).line,
    decreases tokens.len(),
{
    if tokens.len() > 0 {
        let first = tokens[0];
        let rest = tokens.skip(1);
        let later = scan(source, state_after(state, first.token), rest);
        assert(offsets_advance(rest, first.offset as int)) by {
            assert forall|i: int| 0 <= i < rest.len() implies first.offset
                <= #[trigger] rest[i].offset by {
                assert(rest[i] == tokens[i + 1]);
                assert(tokens[0].offset <= tokens[i + 1].offset);
            }
            assert forall|i: int, j: int| 0 <= i < j < rest.len() implies #[trigger] rest[i].offset
                <= #[trigger] rest[j].offset by {
                assert(rest[i] == tokens[i + 1]);
                assert(rest[j] == tokens[j + 1]);
                assert(tokens[i + 1].offset <= tokens[j + 1].offset);
            }
        }
        lemma_scan_lines_advance(source, state_after(state, first.token), rest, first.offset as int);
        assert(low <= tokens[0].offset);
        lemma_line_number_monotonic(source, low, first.offset as int);
        let all = scan(source, state, tokens);
        match located_finding(source, state, first) {
            Some(event) => {
                assert(all =~= seq![event] + later);
                assert forall|i: int| 0 <= i < all.len() implies line_number(source, low) <= (
                #[trigger] all[i]).line by {
                    if i > 0 {
                        assert(all[i] == later[i - 1]);
                    }
                }
                assert forall|i: int, j: int| 0 <= i < j < all.len() implies (#[trigger] all[i]).line
                    <= (#[trigger] all[j]).line by {
                    assert(all[j] == later[j - 1]);
                    if i > 0 {
                        assert(all[i] == later[i - 1]);
                    }
                }
            },
            None => {
                assert(all =~= later);
            },
        }
    }
}

/// Puts `event` on the line of `offset`.
pub fn new_located_event(lines: &LineIndex, event: Event, offset: usize) -> (located: LocatedEvent)
    ensures
        located@ == (LocatedEventView {
            event: event@,
            line: line_number(lines.source(), offset as int),
        }),
{
    LocatedEvent { event, line: lines.line_of(offset) }
}

impl ScanState {
    /// The state in which a scan starts.
    pub fn new() -> (state: ScanState)
        ensures
            state@ == initial_state(),
    {
        ScanState { code_block: false, last_text: None }
    }

    /// Reads one token: remembers what it changes, and reports the link or the
    /// broken reference that it closes.
    pub fn step(&mut self, token: LocatedToken, lines: &LineIndex) -> (event: Option<LocatedEvent>)
        ensures
            final(self)@ == state_after(old(self)@, token@.token),
            match event {
                Some(event) => located_finding(lines.source(), old(self)@, token@) == Some(event@),
                None => located_finding(lines.source(), old(self)@, token@) is None,
            },
    {
        let LocatedToken { token, offset } = token;
        match token {
            Token::Text(text) => {
                if !self.code_block {
                    self.last_text = Some(text);
                }
                None
            },
            Token::LinkEnd { kind, target, title } => match kind {
                LinkKind::Inline | LinkKind::Reference | LinkKind::Collapsed | LinkKind::Shortcut => {
                    let text = match &self.last_text {
                        Some(text) => text.clone(),
                        None => String::new(),
                    };
                    Some(new_located_event(lines, Event::Link { target, text }, offset))
                },
                LinkKind::ReferenceUnknown
                | LinkKind::CollapsedUnknown
                | LinkKind::ShortcutUnknown => Some(
                    new_located_event(
                        lines,
                        Event::Error(Error::ReferenceBroken { target, text: title }),
                        offset,
                    ),
                ),
                LinkKind::Autolink | LinkKind::Email => None,
            },
            Token::CodeBlockStart => {
                self.code_block = true;
                None
            },
            Token::CodeBlockEnd => {
                self.code_block = false;
                None
            },
            Token::Other => None,
        }
    }
}

/// A scan of one markdown document, which hands out its findings one by one.
pub struct Document<'a> {
    parser: OffsetIter<'a>,
    lines: LineIndex,
    state: ScanState,
}

impl<'a> Document<'a> {
    /// The bytes of the document's text.
    pub closed spec fn source(&self) -> Seq<u8> {
        self.lines.source()
    }

    /// The tokens that the scan has not read yet.
    pub closed spec fn pending(&self) -> Seq<LocatedTokenView> {
        pending_tokens(&self.parser)
    }

    /// What the scan remembers of the tokens that it has read.
    pub closed spec fn state(&self) -> ScanStateView {
        self.state@
    }

    /// The findings that the scan has still to hand out.
    pub open spec fn events(&self) -> Seq<LocatedEventView> {
        scan(self.source(), self.state(), self.pending())
    }

    /// Starts a scan of `contents`.
    pub fn new(contents: &'a str) -> (document: Document<'a>)
        ensures
            document.source() == contents.spec_bytes(),
            document.state() == initial_state(),
            document.pending() == markdown_tokens(contents@),
            document.events() == document_events(contents@, contents.spec_bytes()),
    {
        Document { parser: tokenize(contents), lines: LineIndex::new(contents), state: ScanState::new() }
    }

    /// Hands out the next finding, or `None` once the document is exhausted.
    pub fn next(&mut self) -> (event: Option<LocatedEvent>)
        ensures
            final(self).source() == old(self).source(),
            match event {
                Some(event) => {
                    &&& old(self).events().len() > 0
                    &&& event@ == old(self).events()[0]
                    &&& final(self).events() == old(self).events().skip(1)
                },
                None => {
                    &&& old(self).events().len() == 0
                    &&& final(self).pending().len() == 0
                    &&& final(self).events().len() == 0
                },
            },
    {
        loop
            invariant
                self.source() == old(self).source(),
                self.events() == old(self).events(),
            decreases self.pending().len(),
        {
            match next_token(&mut self.parser) {
                None => {
                    return None;
                },
                Some(token) => {
                    if let Some(event) = self.state.step(token, &self.lines) {
                        assert(old(self).events().skip(1) =~= self.events());
                        return Some(event);
                    }
                },
            }
        }
    }
}

} // verus!
