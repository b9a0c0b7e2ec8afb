//! Occurrences of links: one for each place where a document holds a link.

use crate::document::{
    Document, Error, ErrorView, Event, EventView, LocatedEvent, LocatedEventView,
};
use crate::error::{
    DocumentError, DocumentErrorView, DocumentLocation, DocumentLocationView, LinkError,
    LinkErrorView, LocatedDocumentError, LocatedDocumentErrorView,
};
use vstd::prelude::*;
use vstd::string::StringExecFns;

verus! {

/// One link in one document: what it points to, the text it is shown with,
/// and the file and line where it stands.
#[derive(Debug, PartialEq)]
pub struct LinkContext {
    pub target: String,
    pub text: String,
    pub line: usize,
    pub file: String,
}

/// What a [`LinkContext`] holds.
pub struct LinkContextView {
    pub target: Seq<char>,
    pub text: Seq<char>,
    pub line: usize,
    pub file: Seq<char>,
}

impl View for LinkContext {
    type V = LinkContextView;

    open spec fn view(&self) -> LinkContextView {
        LinkContextView { target: self.target@, text: self.text@, line: self.line, file: self.file@ }
    }
}

/// What each of `links` holds, in order.
pub open spec fn link_views(links: Seq<LinkContext>) -> Seq<LinkContextView> {
    links.map_values(|link: LinkContext| link@)
}

/// What each of `errors` holds, in order.
pub open spec fn error_views(errors: Seq<LocatedDocumentError>) -> Seq<LocatedDocumentErrorView> {
    errors.map_values(|error: LocatedDocumentError| error@)
}

/// The report of `error` for the occurrence `link`.
pub open spec fn error_at(link: LinkContextView, error: LinkErrorView) -> LocatedDocumentErrorView {
    LocatedDocumentErrorView {
        location: DocumentLocationView { path: link.file, line: link.line },
        error: DocumentErrorView::Link { text: link.text, target: link.target, error },
    }
}

/// The occurrence that a finding in `file` stands for, whatever its kind.
pub open spec fn occurrence(event: LocatedEventView, file: Seq<char>) -> LinkContextView {
    match event.event {
        EventView::Link { target, text } => LinkContextView { target, text, line: event.line, file },
        EventView::Error(ErrorView::ReferenceBroken { target, text }) => LinkContextView {
            target,
            text,
            line: event.line,
            file,
        },
    }
}

/// The links among the findings of `file`, as occurrences.
pub open spec fn found_links(events: Seq<LocatedEventView>, file: Seq<char>) -> Seq<LinkContextView>
    decreases events.len(),
{
    if events.len() == 0 {
        Seq::empty()
    } else {
        let earlier = found_links(events.drop_last(), file);
        if events.last().event is Link {
            earlier.push(occurrence(events.last(), file))
        } else {
            earlier
        }
    }
}

/// The broken references among the findings of `file`, as errors.
pub open spec fn found_errors(events: Seq<LocatedEventView>, file: Seq<char>) -> Seq<
    LocatedDocumentErrorView,
>
    decreases events.len(),
{
    if events.len() == 0 {
        Seq::empty()
    } else {
        let earlier = found_errors(events.drop_last(), file);
        if events.last().event is Error {
            earlier.push(error_at(occurrence(events.last(), file), LinkErrorView::ReferenceBroken))
        } else {
            earlier
        }
    }
}

/// Every finding is a link or a broken reference, so the two lists share the
/// findings between them.
pub proof fn lemma_findings_are_shared(events: Seq<LocatedEventView>, file: Seq<char>)
    ensures
        found_links(events, file).len() + found_errors(events, file).len() == events.len(),
    decreases events.len(),
{
    if events.len() > 0 {
        lemma_findings_are_shared(events.drop_last(), file);
    }
}

/// What one more finding adds to the two lists.
pub proof fn lemma_found_one_more(events: Seq<LocatedEventView>, event: LocatedEventView, file: Seq<char>)
    ensures
        found_links(seq![event], file) == if event.event is Link {
            seq![occurrence(event, file)]
        } else {
            Seq::empty()
        },
        found_errors(seq![event], file) == if event.event is Error {
            seq![error_at(occurrence(event, file), LinkErrorView::ReferenceBroken)]
        } else {
            Seq::empty()
        },
        found_links(events.push(event), file) == found_links(events, file) + found_links(
            seq![event],
            file,
        ),
        found_errors(events.push(event), file) == found_errors(events, file) + found_errors(
            seq![event],
            file,
        ),
{
    let none = Seq::<LocatedEventView>::empty();
    assert(seq![event].drop_last() =~= none);
    assert(found_links(none, file) =~= Seq::empty());
    assert(found_errors(none, file) =~= Seq::empty());
    assert(found_links(seq![event], file) =~= if event.event is Link {
        seq![occurrence(event, file)]
    } else {
        Seq::empty()
    });
    assert(found_errors(seq![event], file) =~= if event.event is Error {
        seq![error_at(occurrence(event, file), LinkErrorView::ReferenceBroken)]
    } else {
        Seq::empty()
    });
    assert(events.push(event).drop_last() =~= events);
    assert(found_links(events.push(event), file) =~= found_links(events, file) + found_links(
        seq![event],
        file,
    ));
    assert(found_errors(events.push(event), file) =~= found_errors(events, file) + found_errors(
        seq![event],
        file,
    ));
}

impl LinkContext {
    /// The report of `error` for this occurrence.
    pub fn new_error(self, error: LinkError) -> (located: LocatedDocumentError)
        ensures
            located@ == error_at(self@, error@),
    {
        LocatedDocumentError {
            location: DocumentLocation { path: self.file, line: self.line },
            error: DocumentError::Link { text: self.text, target: self.target, error },
        }
    }
}

/// Files one finding of `file`: a link under `links`, a broken reference
/// under `errors`.
pub fn record(
    event: LocatedEvent,
    file: &str,
    links: &mut Vec<LinkContext>,
    errors: &mut Vec<LocatedDocumentError>,
)
    ensures
        link_views(final(links)@) == link_views(old(links)@) + found_links(seq![event@], file@),
        error_views(final(errors)@) == error_views(old(errors)@) + found_errors(
            seq![event@],
            file@,
        ),
{
    let line = event.line;
    proof {
        lemma_found_one_more(Seq::empty(), event@, file@);
    }
    match event.event {
        Event::Link { target, text } => {
            links.push(LinkContext { target, text, line, file: String::from_str(file) });
            assert(link_views(links@) =~= link_views(old(links)@) + found_links(
                seq![event@],
                file@,
            ));
            assert(error_views(errors@) =~= error_views(old(errors)@) + found_errors(
                seq![event@],
                file@,
            ));
        },
        Event::Error(Error::ReferenceBroken { target, text }) => {
            let link = LinkContext { target, text, line, file: String::from_str(file) };
            errors.push(link.new_error(LinkError::ReferenceBroken));
            assert(link_views(links@) =~= link_views(old(links)@) + found_links(
                seq![event@],
                file@,
            ));
            assert(error_views(errors@) =~= error_views(old(errors)@) + found_errors(
                seq![event@],
                file@,
            ));
        },
    }
}

/// Reads `document`, which is the text of `file`, to its end: its links are
/// added to `links`, its broken references to `errors`, both in the order of
/// the document.
pub fn collect(
    document: &mut Document,
    file: &str,
    links: &mut Vec<LinkContext>,
    errors: &mut Vec<LocatedDocumentError>,
)
    ensures
        final(document).events().len() == 0,
        final(document).source() == old(document).source(),
        link_views(final(links)@) == link_views(old(links)@) + found_links(
            old(document).events(),
            file@,
        ),
        error_views(final(errors)@) == error_views(old(errors)@) + found_errors(
            old(document).events(),
            file@,
        ),
{
    let ghost all = document.events();
    let ghost mut seen: int = 0;
    proof {
        assert(all.take(0) =~= Seq::<LocatedEventView>::empty());
        assert(all.skip(0) =~= all);
        assert(link_views(links@) =~= link_views(old(links)@) + found_links(all.take(0), file@));
        assert(error_views(errors@) =~= error_views(old(errors)@) + found_errors(
            all.take(0),
            file@,
        ));
    }
    loop
        invariant
            0 <= seen <= all.len(),
            all == old(document).events(),
            document.events() == all.skip(seen),
            document.source() == old(document).source(),
            link_views(links@) == link_views(old(links)@) + found_links(all.take(seen), file@),
            error_views(errors@) == error_views(old(errors)@) + found_errors(all.take(seen), file@),
        decreases all.len() - seen,
    {
        let ghost links_before = link_views(links@);
        let ghost errors_before = error_views(errors@);
        match document.next() {
            None => {
                assert(all.take(seen) =~= all);
                return ;
            },
            Some(event) => {
                record(event, file, links, errors);
                proof {
                    let next = all.take(seen + 1);
                    assert(next =~= all.take(seen).push(event@));
                    lemma_found_one_more(all.take(seen), event@, file@);
                    assert(all.skip(seen).skip(1) =~= all.skip(seen + 1));
                    assert(link_views(links@) =~= link_views(old(links)@) + found_links(next, file@));
                    assert(error_views(errors@) =~= error_views(old(errors)@) + found_errors(
                        next,
                        file@,
                    ));
                    seen = seen + 1;
                }
            },
        }
    }
}

} // verus!
