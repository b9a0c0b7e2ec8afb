//! Checking URLs: which requests to send for one URL, what their answers
//! mean, and how the outcome for one URL becomes a report for every link
//! that leads to it.
//!
//! Sending a request is left to the caller: [`begin_check`] and
//! [`continue_check`] say what to send next, and when the check is over.

use crate::error::{LinkError, LinkErrorView, LocatedDocumentError, LocatedDocumentErrorView};
use crate::groups::{UrlGroup, UrlGroupView};
use crate::link::{error_at, error_views, link_views, LinkContextView};
use crate::target::{CanonicalUrl, CanonicalUrlView};
use vstd::prelude::*;
use vstd::string::StringExecFns;

verus! {

/// The status of an answer that is in order.
pub const STATUS_OK: u16 = 200;

/// The status by which a server refuses the method of a request.
pub const STATUS_METHOD_NOT_ALLOWED: u16 = 405;

/// The method of a request.
#[derive(Clone, Copy, Debug, PartialEq, Eq)]
pub enum Method {
    Head,
    Get,
}

/// What came back for a request.
#[derive(Debug, PartialEq)]
pub enum Reply {
    /// An answer, with its status.
    Status(u16),
    /// No answer; the message says what went wrong.
    Failure(String),
}

/// What to do next in the check of one URL.
#[derive(Debug, PartialEq)]
pub enum Step {
    /// Send a request with this method, and come back with the reply.
    Send(Method),
    /// The check is over, with this outcome.
    Done(Result<(), LinkError>),
}

/// What a [`Reply`] holds.
pub enum ReplyView {
    Status(u16),
    Failure(Seq<char>),
}

/// What a [`Step`] holds.
pub enum StepView {
    Send(Method),
    Done(Result<(), LinkErrorView>),
}

/// What the outcome of a check holds.
pub open spec fn outcome_view(outcome: Result<(), LinkError>) -> Result<(), LinkErrorView> {
    match outcome {
        Ok(_) => Ok(()),
        Err(error) => Err(error@),
    }
}

impl View for Reply {
    type V = ReplyView;

    open spec fn view(&self) -> ReplyView {
        match *self {
            Reply::Status(code) => ReplyView::Status(code),
            Reply::Failure(message) => ReplyView::Failure(message@),
        }
    }
}

impl View for Step {
    type V = StepView;

    open spec fn view(&self) -> StepView {
        match *self {
            Step::Send(method) => StepView::Send(method),
            Step::Done(outcome) => StepView::Done(outcome_view(outcome)),
        }
    }
}

/// Whether URLs of this scheme are checked by a request: `http` and `https`
/// are, all others are taken to be in order.
pub open spec fn is_http(scheme: Seq<char>) -> bool {
    scheme == "http"@ || scheme == "https"@
}

/// What a final reply means: status 200 is success, any other status is
/// reported with its number, and a failure with its message.
pub open spec fn verdict(reply: ReplyView) -> Result<(), LinkErrorView> {
    match reply {
        ReplyView::Status(code) => if code == STATUS_OK {
            Ok(())
        } else {
            Err(LinkErrorView::HttpStatus(code))
        },
        ReplyView::Failure(message) => Err(LinkErrorView::HttpError(message)),
    }
}

/// The first step of the check of `url`.
pub open spec fn first_step(url: CanonicalUrlView) -> StepView {
    if is_http(url.scheme) {
        StepView::Send(Method::Head)
    } else {
        StepView::Done(Ok(()))
    }
}

/// The step after `reply` came back for a request with the method `sent`: a
/// HEAD request that the server refuses as such is tried again as GET, and
/// every other reply is final.
pub open spec fn next_step(sent: Method, reply: ReplyView) -> StepView {
    if sent == Method::Head && reply == ReplyView::Status(STATUS_METHOD_NOT_ALLOWED) {
        StepView::Send(Method::Get)
    } else {
        StepView::Done(verdict(reply))
    }
}

/// The outcome of the whole check of `url`, where `head` is the reply to the
/// HEAD request and `get` the reply to a GET request.
pub open spec fn check_outcome(url: CanonicalUrlView, head: ReplyView, get: ReplyView) -> Result<
    (),
    LinkErrorView,
> {
    match first_step(url) {
        StepView::Done(outcome) => outcome,
        StepView::Send(first) => match next_step(first, head) {
            StepView::Done(outcome) => outcome,
            StepView::Send(second) => verdict(get),
        },
    }
}

/// A check sends at most two requests: HEAD first, and GET only after a
/// HEAD that the server refused as such. The reply to GET is final, whatever
/// it is.
pub proof fn lemma_check_ends(url: CanonicalUrlView, head: ReplyView, get: ReplyView)
    ensures
        first_step(url) is Send ==> first_step(url) == StepView::Send(Method::Head),
        next_step(Method::Head, head) is Send <==> head == ReplyView::Status(
            STATUS_METHOD_NOT_ALLOWED,
        ),
        next_step(Method::Head, head) is Send ==> next_step(Method::Head, head) == StepView::Send(
            Method::Get,
        ),
        next_step(Method::Get, get) == StepView::Done(verdict(get)),
        !is_http(url.scheme) ==> check_outcome(url, head, get) == Ok::<(), LinkErrorView>(()),
{
}

/// The reports that the outcome for one URL gives: none where the URL is in
/// order, else one for each link that leads to it, all with the same error.
pub open spec fn broadcast(links: Seq<LinkContextView>, outcome: Result<(), LinkErrorView>) -> Seq<
    LocatedDocumentErrorView,
> {
    match outcome {
        Ok(_) => Seq::empty(),
        Err(error) => links.map_values(|link: LinkContextView| error_at(link, error)),
    }
}

/// A group of links and the outcome of the check of their URL.
#[derive(Debug, PartialEq)]
pub struct Checked {
    pub group: UrlGroup,
    pub outcome: Result<(), LinkError>,
}

/// What a [`Checked`] holds.
pub struct CheckedView {
    pub group: UrlGroupView,
    pub outcome: Result<(), LinkErrorView>,
}

impl View for Checked {
    type V = CheckedView;

    open spec fn view(&self) -> CheckedView {
        CheckedView { group: self.group@, outcome: outcome_view(self.outcome) }
    }
}

/// What each of `results` holds, in order.
pub open spec fn checked_views(results: Seq<Checked>) -> Seq<CheckedView> {
    results.map_values(|checked: Checked| checked@)
}

/// The reports of all groups, group after group.
pub open spec fn failures(results: Seq<CheckedView>) -> Seq<LocatedDocumentErrorView>
    decreases results.len(),
{
    if results.len() == 0 {
        Seq::empty()
    } else {
        failures(results.drop_last()) + broadcast(results.last().group.links, results.last().outcome)
    }
}

/// A URL that failed is reported once for each link that leads to it, in the
/// order of the links and with the error of the URL; a URL that is in order
/// is not reported at all.
pub proof fn lemma_broadcast(links: Seq<LinkContextView>, outcome: Result<(), LinkErrorView>)
    ensures
        outcome is Ok ==> broadcast(links, outcome).len() == 0,
        outcome is Err ==> broadcast(links, outcome).len() == links.len(),
        forall|i: int|
            outcome is Err && 0 <= i < links.len() ==> #[trigger] broadcast(links, outcome)[i]
                == error_at(links[i], outcome->Err_0),
{
}

/// Says how the check of `url` starts.
pub fn begin_check(url: &CanonicalUrl) -> (step: Step)
    ensures
        step@ == first_step(url@),
{
    if url.scheme == String::from_str("http") || url.scheme == String::from_str("https") {
        Step::Send(Method::Head)
    } else {
        Step::Done(Ok(()))
    }
}

/// Says what a final reply means.
pub fn judge(reply: Reply) -> (outcome: Result<(), LinkError>)
    ensures
        outcome_view(outcome) == verdict(reply@),
{
    match reply {
        Reply::Status(code) => {
            if code == STATUS_OK {
                Ok(())
            } else {
                Err(LinkError::HttpStatus(code))
            }
        },
        Reply::Failure(message) => Err(LinkError::HttpError(message)),
    }
}

/// Says how the check goes on after `reply` came back for a request with
/// the method `sent`.
pub fn continue_check(sent: Method, reply: Reply) -> (step: Step)
    ensures
        step@ == next_step(sent, reply@),
{
    match (sent, &reply) {
        (Method::Head, Reply::Status(code)) => {
            if *code == STATUS_METHOD_NOT_ALLOWED {
                Step::Send(Method::Get)
            } else {
                Step::Done(judge(reply))
            }
        },
        _ => Step::Done(judge(reply)),
    }
}

/// Turns the outcome for each URL into the reports for its links.
pub fn check_urls(results: Vec<Checked>) -> (errors: Vec<LocatedDocumentError>)
    ensures
        error_views(errors@) == failures(checked_views(results@)),
{
    let ghost all = checked_views(results@);
    let mut errors: Vec<LocatedDocumentError> = Vec::new();
    proof {
        assert(all.take(0) =~= Seq::<CheckedView>::empty());
        assert(error_views(errors@) =~= Seq::empty());
    }
    for checked in groups: results
        invariant
            groups.seq() == results@,
            all == checked_views(results@),
            error_views(errors@) == failures(all.take(groups.index())),
    {
        let ghost done = error_views(errors@);
        let ghost view = checked@;
        proof {
            let seen = groups.index();
            assert(all.take(seen + 1).drop_last() =~= all.take(seen));
            assert(all.take(seen + 1).last() == view);
        }
        let Checked { group, outcome } = checked;
        match outcome {
            Ok(_) => {
                assert(error_views(errors@) =~= done + broadcast(view.group.links, view.outcome));
            },
            Err(error) => {
                let ghost targets = view.group.links;
                for link in links: group.links
                    invariant
                        links.seq() == group.links@,
                        targets == link_views(group.links@),
                        error_views(errors@) == done + broadcast(
                            targets.take(links.index()),
                            Err(error@),
                        ),
                {
                    let ghost before = error_views(errors@);
                    let ghost at = links.index();
                    errors.push(link.new_error(error.duplicate()));
                    proof {
                        assert(error_views(errors@) =~= before.push(error_at(link@, error@)));
                        assert(targets.take(at + 1) =~= targets.take(at).push(link@));
                        assert(broadcast(targets.take(at + 1), Err(error@)) =~= broadcast(
                            targets.take(at),
                            Err(error@),
                        ).push(error_at(link@, error@)));
                    }
                }
                proof {
                    assert(targets.take(targets.len() as int) =~= targets);
                }
            },
        }
    }
    proof {
        assert(all.take(all.len() as int) =~= all);
    }
    errors
}

} // verus!
