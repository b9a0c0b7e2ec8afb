use marker::error::{DocumentError, DocumentLocation, LinkError, LocatedDocumentError};
use marker::link::LinkContext;

fn located(error: LinkError) -> LocatedDocumentError {
    LocatedDocumentError {
        location: DocumentLocation {
            path: "docs/index.md".to_string(),
            line: 12,
        },
        error: DocumentError::Link {
            text: "the text".to_string(),
            target: "the/target".to_string(),
            error,
        },
    }
}

#[test]
fn location_is_path_colon_line() {
    let location = DocumentLocation {
        path: "a/b.md".to_string(),
        line: 305,
    };
    assert_eq!(location.to_string(), "a/b.md:305");
}

#[test]
fn absolute_path_line() {
    assert_eq!(
        located(LinkError::PathAbsolute).to_string(),
        "Found absolute path    (the text -> the/target) at docs/index.md:12"
    );
}

#[test]
fn broken_path_line() {
    assert_eq!(
        located(LinkError::PathNonExistant).to_string(),
        "Found broken path      (the text -> the/target) at docs/index.md:12"
    );
}

#[test]
fn broken_reference_line() {
    assert_eq!(
        located(LinkError::ReferenceBroken).to_string(),
        "Found broken reference (the text -> the/target) at docs/index.md:12"
    );
}

#[test]
fn http_status_line_names_the_status() {
    assert_eq!(
        located(LinkError::HttpStatus(404)).to_string(),
        "Found broken url       (the text -> the/target) at docs/index.md:12 : 404 Not Found"
    );
    assert_eq!(
        located(LinkError::HttpStatus(500)).to_string(),
        "Found broken url       (the text -> the/target) at docs/index.md:12 : 500 Internal Server Error"
    );
}

#[test]
fn http_status_without_a_name() {
    assert_eq!(
        LinkError::HttpStatus(299).detail(),
        Some("299 <unknown status code>".to_string())
    );
}

#[test]
fn number_that_is_no_status() {
    assert_eq!(
        LinkError::HttpStatus(42).detail(),
        Some("invalid status code".to_string())
    );
}

#[test]
fn http_failure_line_holds_the_message() {
    assert_eq!(
        located(LinkError::HttpError("connection refused".to_string())).to_string(),
        "HTTP failure           (the text -> the/target) at docs/index.md:12 : connection refused"
    );
}

#[test]
fn malformed_url_line_holds_the_message() {
    assert_eq!(
        located(LinkError::UrlMalformed("empty host".to_string())).to_string(),
        "Found malformed URL    (the text -> the/target) at docs/index.md:12 : empty host"
    );
}

#[test]
fn titles_and_details() {
    assert_eq!(LinkError::PathAbsolute.title(), "Found absolute path");
    assert_eq!(LinkError::PathNonExistant.title(), "Found broken path");
    assert_eq!(LinkError::HttpStatus(404).title(), "Found broken url");
    assert_eq!(LinkError::HttpError(String::new()).title(), "HTTP failure");
    assert_eq!(LinkError::UrlMalformed(String::new()).title(), "Found malformed URL");
    assert_eq!(LinkError::ReferenceBroken.title(), "Found broken reference");
    assert_eq!(LinkError::PathAbsolute.detail(), None);
    assert_eq!(LinkError::PathNonExistant.detail(), None);
    assert_eq!(LinkError::ReferenceBroken.detail(), None);
}

#[test]
fn duplicate_holds_the_same() {
    for error in [
        LinkError::PathAbsolute,
        LinkError::PathNonExistant,
        LinkError::HttpStatus(503),
        LinkError::HttpError("timed out".to_string()),
        LinkError::UrlMalformed("invalid port number".to_string()),
        LinkError::ReferenceBroken,
    ] {
        assert_eq!(error.duplicate(), error);
    }
}

#[test]
fn new_error_keeps_the_occurrence() {
    let link = LinkContext {
        target: "t".to_string(),
        text: "x".to_string(),
        line: 9,
        file: "f.md".to_string(),
    };
    assert_eq!(
        link.new_error(LinkError::PathAbsolute),
        LocatedDocumentError {
            location: DocumentLocation {
                path: "f.md".to_string(),
                line: 9,
            },
            error: DocumentError::Link {
                text: "x".to_string(),
                target: "t".to_string(),
                error: LinkError::PathAbsolute,
            },
        }
    );
}
