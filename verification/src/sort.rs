//! What has to be done for each link: nothing, a request to its URL, a look
//! at the file system, or a report that its target is malformed.

use crate::error::{LinkError, LinkErrorView, LocatedDocumentError, LocatedDocumentErrorView};
use crate::groups::{grouped, UrlGroups, UrlLink};
use crate::link::{error_at, link_views, LinkContext, LinkContextView};
use crate::target::{classification, classify, CanonicalUrl, Target, TargetView};
use vstd::prelude::*;

verus! {

/// A link that needs no request: a path to look up, or a malformed target
/// with its report.
#[derive(Debug, PartialEq)]
pub enum LocalLink {
    Path(LinkContext),
    Malformed(LocatedDocumentError),
}

/// What has to be done for a link.
#[derive(Debug, PartialEq)]
pub enum Route {
    /// Nothing: the link is a URL, and URLs are not checked.
    Skipped,
    /// The link is filed under its URL, which is checked once for all its
    /// links.
    Check(CanonicalUrl, LinkContext),
    /// The link is dealt with on its own.
    Local(LocalLink),
}

/// What a [`LocalLink`] holds.
pub enum LocalLinkView {
    Path(LinkContextView),
    Malformed(LocatedDocumentErrorView),
}

/// What a [`Route`] holds.
pub enum RouteView {
    Skipped,
    Check(UrlLink),
    Local(LocalLinkView),
}

impl View for LocalLink {
    type V = LocalLinkView;

    open spec fn view(&self) -> LocalLinkView {
        match *self {
            LocalLink::Path(link) => LocalLinkView::Path(link@),
            LocalLink::Malformed(error) => LocalLinkView::Malformed(error@),
        }
    }
}

impl View for Route {
    type V = RouteView;

    open spec fn view(&self) -> RouteView {
        match *self {
            Route::Skipped => RouteView::Skipped,
            Route::Check(url, link) => RouteView::Check(UrlLink { url: url@, link: link@ }),
            Route::Local(local) => RouteView::Local(local@),
        }
    }
}

/// What each of `links` holds, in order.
pub open spec fn local_views(links: Seq<LocalLink>) -> Seq<LocalLinkView> {
    links.map_values(|link: LocalLink| link@)
}

/// What has to be done for `link`, given what its target is. A URL is
/// checked unless `skip_http` is set, a path is looked up, and a malformed
/// target is reported as such.
pub open spec fn route_of(target: TargetView, link: LinkContextView, skip_http: bool) -> RouteView {
    match target {
        TargetView::Url(url) => if skip_http {
            RouteView::Skipped
        } else {
            RouteView::Check(UrlLink { url, link })
        },
        TargetView::RelativePath => RouteView::Local(LocalLinkView::Path(link)),
        TargetView::Malformed(message) => RouteView::Local(
            LocalLinkView::Malformed(error_at(link, LinkErrorView::UrlMalformed(message))),
        ),
    }
}

/// What has to be done for `link`.
pub open spec fn route(link: LinkContextView, skip_http: bool) -> RouteView {
    route_of(classification(link.target), link, skip_http)
}

/// The links among `links` whose URLs are to be checked, each with its URL.
pub open spec fn checked_links(links: Seq<LinkContextView>, skip_http: bool) -> Seq<UrlLink>
    decreases links.len(),
{
    if links.len() == 0 {
        Seq::empty()
    } else {
        let earlier = checked_links(links.drop_last(), skip_http);
        match route(links.last(), skip_http) {
            RouteView::Check(entry) => earlier.push(entry),
            _ => earlier,
        }
    }
}

/// The links among `links` that are dealt with on their own.
pub open spec fn local_links(links: Seq<LinkContextView>, skip_http: bool) -> Seq<LocalLinkView>
    decreases links.len(),
{
    if links.len() == 0 {
        Seq::empty()
    } else {
        let earlier = local_links(links.drop_last(), skip_http);
        match route(links.last(), skip_http) {
            RouteView::Local(local) => earlier.push(local),
            _ => earlier,
        }
    }
}

/// With `skip_http` set no URL is checked, and what is dealt with locally
/// does not depend on it.
pub proof fn lemma_skip_http(links: Seq<LinkContextView>)
    ensures
        checked_links(links, true) == Seq::<UrlLink>::empty(),
        local_links(links, true) == local_links(links, false),
    decreases links.len(),
{
    if links.len() > 0 {
        lemma_skip_http(links.drop_last());
    }
}

/// A link that is checked is filed under the canonical form of its own
/// target, and with itself.
pub proof fn lemma_checked_links(links: Seq<LinkContextView>, skip_http: bool, at: int)
    requires
        0 <= at < checked_links(links, skip_http).len(),
    ensures
        classification(checked_links(links, skip_http)[at].link.target) == TargetView::Url(
            checked_links(links, skip_http)[at].url,
        ),
        links.contains(checked_links(links, skip_http)[at].link),
    decreases links.len(),
{
    if links.len() > 0 {
        let earlier = checked_links(links.drop_last(), skip_http);
        if at < earlier.len() {
            lemma_checked_links(links.drop_last(), skip_http, at);
            let link = earlier[at].link;
            let i = choose|i: int| 0 <= i < links.drop_last().len() && links.drop_last()[i] == link;
            assert(links[i] == link);
        } else {
            assert(links[links.len() - 1] == links.last());
        }
    }
}

/// Decides what has to be done for `link`, given what its target is.
pub fn route_target(target: Target, link: LinkContext, skip_http: bool) -> (route: Route)
    ensures
        route@ == route_of(target@, link@, skip_http),
{
    match target {
        Target::Url(url) => {
            if skip_http {
                Route::Skipped
            } else {
                Route::Check(url, link)
            }
        },
        Target::RelativePath => Route::Local(LocalLink::Path(link)),
        Target::Malformed(message) => Route::Local(
            LocalLink::Malformed(link.new_error(LinkError::UrlMalformed(message))),
        ),
    }
}

/// Decides what has to be done for `link`.
pub fn route_link(link: LinkContext, skip_http: bool) -> (route: Route)
    ensures
        route@ == self::route(link@, skip_http),
{
    let target = classify(link.target.as_str());
    route_target(target, link, skip_http)
}

/// The links of a run, sorted by what has to be done for them.
pub struct Sorted {
    /// The links to URLs that are to be checked, grouped by URL.
    pub urls: UrlGroups,
    /// The other links that need attention, in the order in which they came.
    pub local: Vec<LocalLink>,
}

/// Sorts `links` by what has to be done for them.
pub fn sort_links(links: Vec<LinkContext>, skip_http: bool) -> (sorted: Sorted)
    ensures
        sorted.urls.entries() == checked_links(link_views(links@), skip_http),
        sorted.urls@ == grouped(sorted.urls.entries()),
        local_views(sorted.local@) == local_links(link_views(links@), skip_http),
{
    let ghost all = link_views(links@);
    let mut urls = UrlGroups::new();
    let mut local: Vec<LocalLink> = Vec::new();
    proof {
        assert(all.take(0) =~= Seq::<LinkContextView>::empty());
        assert(local_views(local@) =~= Seq::empty());
    }
    for link in iter: links
        invariant
            iter.seq() == links@,
            all == link_views(links@),
            urls.entries() == checked_links(all.take(iter.index()), skip_http),
            urls@ == grouped(urls.entries()),
            local_views(local@) == local_links(all.take(iter.index()), skip_http),
    {
        proof {
            let seen = iter.index();
            assert(all.take(seen + 1).drop_last() =~= all.take(seen));
            assert(all.take(seen + 1).last() == link@);
        }
        match route_link(link, skip_http) {
            Route::Skipped => {},
            Route::Check(url, link) => {
                urls.add(url, link);
            },
            Route::Local(link) => {
                let ghost before = local_views(local@);
                local.push(link);
                assert(local_views(local@) =~= before.push(link@));
            },
        }
    }
    proof {
        assert(all.take(all.len() as int) =~= all);
    }
    Sorted { urls, local }
}

} // verus!
