use marker::check::{check_urls, Checked};
use marker::error::{DocumentError, DocumentLocation, LinkError, LocatedDocumentError};
use marker::groups::{UrlGroup, UrlGroups};
use marker::link::LinkContext;
use marker::sort::{route_link, route_target, sort_links, LocalLink, Route};
use marker::target::{CanonicalUrl, Target};

fn link(target: &str, line: usize, file: &str) -> LinkContext {
    LinkContext {
        target: target.to_string(),
        text: format!("text of {}", target),
        line,
        file: file.to_string(),
    }
}

fn url(key: &str, scheme: &str) -> CanonicalUrl {
    CanonicalUrl {
        key: key.to_string(),
        scheme: scheme.to_string(),
    }
}

fn error(link: LinkContext, error: LinkError) -> LocatedDocumentError {
    LocatedDocumentError {
        location: DocumentLocation {
            path: link.file,
            line: link.line,
        },
        error: DocumentError::Link {
            text: link.text,
            target: link.target,
            error,
        },
    }
}

#[test]
fn no_links_no_groups() {
    let groups = UrlGroups::new();
    assert_eq!(groups.len(), 0);
    assert_eq!(groups.into_groups(), vec![]);
}

#[test]
fn links_to_one_key_share_a_group() {
    let mut groups = UrlGroups::new();
    groups.add(url("http://x/a", "http"), link("http://x/a#1", 1, "one.md"));
    groups.add(url("http://x/b", "http"), link("http://x/b", 2, "one.md"));
    groups.add(url("http://x/a", "http"), link("http://x/a#2", 7, "two.md"));
    assert_eq!(groups.len(), 2);
    assert_eq!(
        groups.into_groups(),
        vec![
            UrlGroup {
                url: url("http://x/a", "http"),
                links: vec![link("http://x/a#1", 1, "one.md"), link("http://x/a#2", 7, "two.md")],
            },
            UrlGroup {
                url: url("http://x/b", "http"),
                links: vec![link("http://x/b", 2, "one.md")],
            },
        ]
    );
}

#[test]
fn fragments_do_not_split_a_url() {
    let links = vec![link("http://x/a#1", 3, "one.md"), link("http://x/a#2", 5, "two.md")];
    let sorted = sort_links(links, false);
    assert_eq!(sorted.local, vec![]);
    assert_eq!(sorted.urls.len(), 1);
    let groups = sorted.urls.into_groups();
    assert_eq!(
        groups,
        vec![UrlGroup {
            url: url("http://x/a", "http"),
            links: vec![link("http://x/a#1", 3, "one.md"), link("http://x/a#2", 5, "two.md")],
        }]
    );
    let mut results = Vec::new();
    for group in groups {
        results.push(Checked {
            group,
            outcome: Err(LinkError::HttpStatus(404)),
        });
    }
    assert_eq!(
        check_urls(results),
        vec![
            error(link("http://x/a#1", 3, "one.md"), LinkError::HttpStatus(404)),
            error(link("http://x/a#2", 5, "two.md"), LinkError::HttpStatus(404)),
        ]
    );
}

#[test]
fn only_failed_urls_are_reported() {
    let results = vec![
        Checked {
            group: UrlGroup {
                url: url("http://x/a", "http"),
                links: vec![link("http://x/a", 1, "a.md"), link("http://x/a#x", 2, "b.md")],
            },
            outcome: Ok(()),
        },
        Checked {
            group: UrlGroup {
                url: url("http://x/b", "http"),
                links: vec![link("http://x/b", 3, "a.md")],
            },
            outcome: Err(LinkError::HttpError("timed out".to_string())),
        },
        Checked {
            group: UrlGroup {
                url: url("http://x/c", "http"),
                links: vec![link("http://x/c", 4, "a.md"), link("http://x/c", 5, "a.md")],
            },
            outcome: Err(LinkError::HttpStatus(500)),
        },
    ];
    assert_eq!(
        check_urls(results),
        vec![
            error(
                link("http://x/b", 3, "a.md"),
                LinkError::HttpError("timed out".to_string())
            ),
            error(link("http://x/c", 4, "a.md"), LinkError::HttpStatus(500)),
            error(link("http://x/c", 5, "a.md"), LinkError::HttpStatus(500)),
        ]
    );
    assert_eq!(check_urls(vec![]), vec![]);
}

#[test]
fn links_are_sorted_by_what_they_need() {
    let links = vec![
        link("http://x/a", 1, "a.md"),
        link("other.md", 2, "a.md"),
        link("http://", 3, "a.md"),
        link("mailto:me@example.org", 4, "a.md"),
        link("http://x/a#top", 5, "b.md"),
        link("/abs.md", 6, "b.md"),
    ];
    let sorted = sort_links(links, false);
    assert_eq!(
        sorted.local,
        vec![
            LocalLink::Path(link("other.md", 2, "a.md")),
            LocalLink::Malformed(error(
                link("http://", 3, "a.md"),
                LinkError::UrlMalformed("empty host".to_string())
            )),
            LocalLink::Path(link("/abs.md", 6, "b.md")),
        ]
    );
    assert_eq!(
        sorted.urls.into_groups(),
        vec![
            UrlGroup {
                url: url("http://x/a", "http"),
                links: vec![link("http://x/a", 1, "a.md"), link("http://x/a#top", 5, "b.md")],
            },
            UrlGroup {
                url: url("mailto:me@example.org", "mailto"),
                links: vec![link("mailto:me@example.org", 4, "a.md")],
            },
        ]
    );
}

#[test]
fn skip_http_drops_every_url() {
    let links = vec![
        link("http://x/a", 1, "a.md"),
        link("other.md", 2, "a.md"),
        link("http://", 3, "a.md"),
        link("mailto:me@example.org", 4, "a.md"),
    ];
    let sorted = sort_links(links, true);
    assert_eq!(sorted.urls.len(), 0);
    assert_eq!(
        sorted.local,
        vec![
            LocalLink::Path(link("other.md", 2, "a.md")),
            LocalLink::Malformed(error(
                link("http://", 3, "a.md"),
                LinkError::UrlMalformed("empty host".to_string())
            )),
        ]
    );
}

#[test]
fn route_of_each_kind_of_target() {
    let occurrence = link("anything", 1, "a.md");
    assert_eq!(
        route_target(Target::Url(url("http://x/", "http")), link("anything", 1, "a.md"), false),
        Route::Check(url("http://x/", "http"), link("anything", 1, "a.md"))
    );
    assert_eq!(
        route_target(Target::Url(url("http://x/", "http")), link("anything", 1, "a.md"), true),
        Route::Skipped
    );
    assert_eq!(
        route_target(Target::RelativePath, link("anything", 1, "a.md"), true),
        Route::Local(LocalLink::Path(link("anything", 1, "a.md")))
    );
    assert_eq!(
        route_target(
            Target::Malformed("why".to_string()),
            link("anything", 1, "a.md"),
            false
        ),
        Route::Local(LocalLink::Malformed(error(
            occurrence,
            LinkError::UrlMalformed("why".to_string())
        )))
    );
}

#[test]
fn route_link_classifies_the_target() {
    assert_eq!(
        route_link(link("https://x/y#z", 1, "a.md"), false),
        Route::Check(url("https://x/y", "https"), link("https://x/y#z", 1, "a.md"))
    );
    assert_eq!(
        route_link(link("y.md#z", 1, "a.md"), false),
        Route::Local(LocalLink::Path(link("y.md#z", 1, "a.md")))
    );
}
