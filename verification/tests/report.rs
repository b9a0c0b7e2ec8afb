use marker::document::Document;
use marker::error::{DocumentError, DocumentLocation, LinkError, LocatedDocumentError};
use marker::link::{collect, record, LinkContext};
use marker::report::{Report, EXIT_CLEAN, EXIT_ERRORS, EXIT_FATAL};

fn broken(text: &str, line: usize, file: &str) -> LocatedDocumentError {
    LocatedDocumentError {
        location: DocumentLocation {
            path: file.to_string(),
            line,
        },
        error: DocumentError::Link {
            text: text.to_string(),
            target: String::new(),
            error: LinkError::ReferenceBroken,
        },
    }
}

#[test]
fn exit_codes_differ() {
    assert_eq!(EXIT_CLEAN, 0);
    assert_eq!(EXIT_ERRORS, 1);
    assert_ne!(EXIT_FATAL, EXIT_CLEAN);
    assert_ne!(EXIT_FATAL, EXIT_ERRORS);
}

#[test]
fn empty_report_is_clean() {
    let report = Report::new();
    assert!(!report.found_error());
    assert_eq!(report.exit_code(), 0);
    assert_eq!(report.into_lines(), Vec::<String>::new());
}

#[test]
fn recording_nothing_changes_nothing() {
    let report = Report::new().record(&vec![]);
    assert!(!report.found_error());
    assert_eq!(report.exit_code(), 0);
}

#[test]
fn report_holds_a_line_for_each_error() {
    let first = vec![broken("one", 1, "a.md")];
    let second = vec![broken("two", 22, "b.md"), broken("three", 333, "c.md")];
    let report = Report::new().record(&first).record(&second);
    assert!(report.found_error());
    assert_eq!(report.exit_code(), 1);
    assert_eq!(
        report.into_lines(),
        vec![
            "Found broken reference (one -> ) at a.md:1".to_string(),
            "Found broken reference (two -> ) at b.md:22".to_string(),
            "Found broken reference (three -> ) at c.md:333".to_string(),
        ]
    );
}

#[test]
fn collect_sorts_links_from_broken_references() {
    let mut links = vec![LinkContext {
        target: "earlier".to_string(),
        text: "kept".to_string(),
        line: 4,
        file: "first.md".to_string(),
    }];
    let mut errors = Vec::new();
    let mut document = Document::new("[a](b)\n[broken]\n\nsee [c][d] and [e]\n\n[d]: f\n");
    collect(&mut document, "docs/second.md", &mut links, &mut errors);
    assert_eq!(document.next(), None);
    assert_eq!(
        links,
        vec![
            LinkContext {
                target: "earlier".to_string(),
                text: "kept".to_string(),
                line: 4,
                file: "first.md".to_string(),
            },
            LinkContext {
                target: "b".to_string(),
                text: "a".to_string(),
                line: 1,
                file: "docs/second.md".to_string(),
            },
            LinkContext {
                target: "f".to_string(),
                text: "c".to_string(),
                line: 4,
                file: "docs/second.md".to_string(),
            },
        ]
    );
    assert_eq!(
        errors,
        vec![broken("broken", 2, "docs/second.md"), broken("e", 4, "docs/second.md")]
    );
}

#[test]
fn collect_of_an_empty_document_adds_nothing() {
    let mut links = Vec::new();
    let mut errors = Vec::new();
    let mut document = Document::new("");
    collect(&mut document, "empty.md", &mut links, &mut errors);
    assert_eq!(links, vec![]);
    assert_eq!(errors, vec![]);
}

#[test]
fn record_files_one_finding() {
    let mut links = Vec::new();
    let mut errors = Vec::new();
    let mut document = Document::new("[a](b) [c]");
    let first = document.next().unwrap();
    let second = document.next().unwrap();
    record(first, "x.md", &mut links, &mut errors);
    assert_eq!(links.len(), 1);
    assert_eq!(errors.len(), 0);
    record(second, "x.md", &mut links, &mut errors);
    assert_eq!(links.len(), 1);
    assert_eq!(errors, vec![broken("c", 1, "x.md")]);
}

#[test]
fn same_input_same_report() {
    let text = "[a](http://x/a#1)\n[b]\n[c](missing.md)\n";
    let mut lines = Vec::new();
    for _ in 0..2 {
        let mut links = Vec::new();
        let mut errors = Vec::new();
        let mut document = Document::new(text);
        collect(&mut document, "doc.md", &mut links, &mut errors);
        let mut report = Report::new().record(&errors);
        let sorted = marker::sort::sort_links(links, false);
        let mut results = Vec::new();
        for group in sorted.urls.into_groups() {
            results.push(marker::check::Checked {
                group,
                outcome: Err(LinkError::HttpStatus(404)),
            });
        }
        report = report.record(&marker::check::check_urls(results));
        lines.push(report.into_lines());
    }
    assert_eq!(lines[0], lines[1]);
    assert_eq!(
        lines[0],
        vec![
            "Found broken reference (b -> ) at doc.md:2".to_string(),
            "Found broken url       (a -> http://x/a#1) at doc.md:1 : 404 Not Found".to_string(),
        ]
    );
}
