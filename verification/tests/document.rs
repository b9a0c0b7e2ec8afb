use marker::document::{Document, Error, Event, LocatedEvent};

#[test]
fn empty() {
    let mut doc = Document::new("");
    assert_eq!(doc.next(), None);
}

#[test]
fn link() {
    let mut doc = Document::new("[text](target)");
    assert_eq!(
        doc.next(),
        Some(LocatedEvent {
            event: Event::Link {
                target: "target".to_string(),
                text: "text".to_string(),
            },
            line: 1,
        })
    );
    assert_eq!(doc.next(), None);
}

#[test]
fn links() {
    let mut doc = Document::new("[text 1](target1)\n[text 2](target2)");
    assert_eq!(
        doc.next(),
        Some(LocatedEvent {
            event: Event::Link {
                target: "target1".to_string(),
                text: "text 1".to_string(),
            },
            line: 1,
        })
    );
    assert_eq!(
        doc.next(),
        Some(LocatedEvent {
            event: Event::Link {
                target: "target2".to_string(),
                text: "text 2".to_string(),
            },
            line: 2,
        })
    );
    assert_eq!(doc.next(), None);
}

#[test]
fn full_reference_links() {
    let mut doc = Document::new("[t 1][ref 1]\nText [t 2][ref 2]\n\n[ref 1]: 1\n[ref 2]: 2");
    assert_eq!(
        doc.next(),
        Some(LocatedEvent {
            event: Event::Link {
                target: "1".to_string(),
                text: "t 1".to_string(),
            },
            line: 1,
        })
    );
    assert_eq!(
        doc.next(),
        Some(LocatedEvent {
            event: Event::Link {
                target: "2".to_string(),
                text: "t 2".to_string(),
            },
            line: 2,
        })
    );
    assert_eq!(doc.next(), None);
}

#[test]
fn broken_reference() {
    let mut doc = Document::new("This is a [broken reference].");
    assert_eq!(
        doc.next(),
        Some(LocatedEvent {
            event: Event::Error(Error::ReferenceBroken {
                target: String::new(),
                text: "broken reference".to_string()
            }),
            line: 1
        })
    );
    assert_eq!(doc.next(), None);
}

#[test]
fn tasklist() {
    let mut doc = Document::new("- [ ] Item 1\n- [ ] Item 2");
    assert_eq!(doc.next(), None);
}

fn scan_all(text: &str) -> Vec<LocatedEvent> {
    let mut doc = Document::new(text);
    let mut events = Vec::new();
    while let Some(event) = doc.next() {
        events.push(event);
    }
    events
}

fn link_event(target: &str, text: &str, line: usize) -> LocatedEvent {
    LocatedEvent {
        event: Event::Link {
            target: target.to_string(),
            text: text.to_string(),
        },
        line,
    }
}

fn broken_event(text: &str, line: usize) -> LocatedEvent {
    LocatedEvent {
        event: Event::Error(Error::ReferenceBroken {
            target: String::new(),
            text: text.to_string(),
        }),
        line,
    }
}

#[test]
fn exhausted_document_stays_exhausted() {
    let mut doc = Document::new("[text](target)");
    assert!(doc.next().is_some());
    assert_eq!(doc.next(), None);
    assert_eq!(doc.next(), None);
    assert_eq!(doc.next(), None);
}

#[test]
fn lines_count_line_feeds_before_the_link() {
    let events = scan_all("first\n\nsecond\n\n\nsee [a](b) and [c](d)\n\n[e](f)\n");
    assert_eq!(
        events,
        vec![link_event("b", "a", 6), link_event("d", "c", 6), link_event("f", "e", 8)]
    );
}

#[test]
fn lines_count_bytes_not_characters() {
    let events = scan_all("äöü → ünïcödé\n[ß](ä.md)\n");
    assert_eq!(events, vec![link_event("ä.md", "ß", 2)]);
}

#[test]
fn lines_never_go_back() {
    let events = scan_all("[a](1)\n[b][r]\n\n[c]\n\n- [d](4)\n\n[r]: 2\n");
    let mut last = 1;
    for event in &events {
        assert!(event.line >= last);
        last = event.line;
    }
    assert_eq!(
        events,
        vec![
            link_event("1", "a", 1),
            link_event("2", "b", 2),
            broken_event("c", 4),
            link_event("4", "d", 6),
        ]
    );
}

#[test]
fn collapsed_and_shortcut_references() {
    let events = scan_all("[one][]\n[two]\n[three][]\n[four]\n\n[one]: 1\n[two]: 2\n");
    assert_eq!(
        events,
        vec![
            link_event("1", "one", 1),
            link_event("2", "two", 2),
            broken_event("three", 3),
            broken_event("four", 4),
        ]
    );
}

#[test]
fn unknown_full_reference_is_broken() {
    let events = scan_all("[shown][missing]");
    assert_eq!(events, vec![broken_event("missing", 1)]);
}

#[test]
fn fenced_code_holds_no_references() {
    let events = scan_all("```\n[not a link]\n[nor this](x)\n```\n");
    assert_eq!(events, vec![]);
}

#[test]
fn indented_code_holds_no_references() {
    let events = scan_all("text\n\n    [not a link]\n\nmore [real](target)\n");
    assert_eq!(events, vec![link_event("target", "real", 5)]);
}

#[test]
fn code_span_holds_no_references() {
    let events = scan_all("see `[not a link]` here");
    assert_eq!(events, vec![]);
}

#[test]
fn autolinks_are_not_reported() {
    let events = scan_all("<http://example.org> and <someone@example.org>");
    assert_eq!(events, vec![]);
}

#[test]
fn checked_tasklist_is_no_reference() {
    let events = scan_all("- [x] Done\n- [ ] Open, see [docs](docs.md)\n");
    assert_eq!(events, vec![link_event("docs.md", "docs", 2)]);
}

#[test]
fn link_without_text_has_empty_text() {
    let events = scan_all("[](target)");
    assert_eq!(events, vec![link_event("target", "", 1)]);
}
