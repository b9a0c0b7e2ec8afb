//! The report of a run: one line for each error, and the exit code.

use crate::error::{report_line, LocatedDocumentError, LocatedDocumentErrorView};
use crate::link::error_views;
use vstd::prelude::*;

verus! {

/// The exit code of a run that found nothing to report.
pub const EXIT_CLEAN: i32 = 0;

/// The exit code of a run that reported at least one error.
pub const EXIT_ERRORS: i32 = 1;

/// The exit code of a run that could not read what it was to check.
pub const EXIT_FATAL: i32 = 2;

/// The lines that report `errors`, in order.
pub open spec fn report_lines(errors: Seq<LocatedDocumentErrorView>) -> Seq<Seq<char>> {
    errors.map_values(|error: LocatedDocumentErrorView| report_line(error))
}

/// The exit code of a run that reported `reported` errors.
pub open spec fn exit_status(reported: nat) -> i32 {
    if reported == 0 {
        EXIT_CLEAN
    } else {
        EXIT_ERRORS
    }
}

/// What each of `lines` holds, in order.
pub open spec fn line_views(lines: Seq<String>) -> Seq<Seq<char>> {
    lines.map_values(|line: String| line@)
}

/// A run fails just where it reported something, and never with the code of
/// a run that could not read its input.
pub proof fn lemma_exit_status(reported: nat)
    ensures
        exit_status(reported) != EXIT_CLEAN <==> reported > 0,
        exit_status(reported) != EXIT_FATAL,
{
}

/// Two runs that come upon the same errors in the same order report the same
/// lines and end with the same exit code.
pub proof fn lemma_report_repeats(
    first: Seq<LocatedDocumentErrorView>,
    second: Seq<LocatedDocumentErrorView>,
)
    requires
        first.len() == second.len(),
        forall|i: int| 0 <= i < first.len() ==> first[i] == second[i],
    ensures
        report_lines(first) == report_lines(second),
        exit_status(first.len()) == exit_status(second.len()),
{
    assert(first =~= second);
}

/// The errors of a run, as the lines that report them.
pub struct Report {
    lines: Vec<String>,
    reported: Ghost<Seq<LocatedDocumentErrorView>>,
}

impl View for Report {
    type V = Seq<Seq<char>>;

    closed spec fn view(&self) -> Seq<Seq<char>> {
        line_views(self.lines@)
    }
}

impl Report {
    #[verifier::type_invariant]
    spec fn well_formed(self) -> bool {
        line_views(self.lines@) == report_lines(self.reported@)
    }

    /// The errors recorded so far, in the order in which they came.
    pub closed spec fn errors(self) -> Seq<LocatedDocumentErrorView> {
        self.reported@
    }

    /// A report without errors.
    pub fn new() -> (report: Report)
        ensures
            report.errors() == Seq::<LocatedDocumentErrorView>::empty(),
            report@ == Seq::<Seq<char>>::empty(),
    {
        let lines: Vec<String> = Vec::new();
        assert(line_views(lines@) =~= report_lines(Seq::empty()));
        Report { lines, reported: Ghost(Seq::empty()) }
    }

    /// Records `errors`, in order, after those recorded before.
    pub fn record(self, errors: &Vec<LocatedDocumentError>) -> (report: Report)
        ensures
            report.errors() == self.errors() + error_views(errors@),
            report@ == report_lines(report.errors()),
    {
        proof {
            use_type_invariant(&self);
        }
        let Report { mut lines, reported } = self;
        let ghost more = error_views(errors@);
        let mut at: usize = 0;
        proof {
            assert(reported@ + more.take(0) =~= reported@);
        }
        while at < errors.len()
            invariant
                at <= errors@.len(),
                more == error_views(errors@),
                line_views(lines@) == report_lines(reported@ + more.take(at as int)),
            decreases errors@.len() - at,
        {
            let ghost before = line_views(lines@);
            let line = errors[at].to_string();
            lines.push(line);
            proof {
                assert(line_views(lines@) =~= before.push(line@));
                assert(reported@ + more.take(at as int + 1) =~= (reported@ + more.take(
                    at as int,
                )).push(more[at as int]));
                assert(report_lines(reported@ + more.take(at as int + 1)) =~= before.push(
                    report_line(more[at as int]),
                ));
            }
            at = at + 1;
        }
        proof {
            assert(more.take(at as int) =~= more);
        }
        Report { lines, reported: Ghost(reported@ + more) }
    }

    /// Whether any error was recorded.
    pub fn found_error(&self) -> (found: bool)
        ensures
            found == (self.errors().len() > 0),
    {
        proof {
            use_type_invariant(self);
            assert(line_views(self.lines@).len() == self.lines@.len());
            assert(report_lines(self.reported@).len() == self.reported@.len());
        }
        self.lines.len() > 0
    }

    /// The exit code of the run.
    pub fn exit_code(&self) -> (code: i32)
        ensures
            code == exit_status(self.errors().len()),
    {
        if self.found_error() {
            EXIT_ERRORS
        } else {
            EXIT_CLEAN
        }
    }

    /// The lines of the report: one for each error, in order.
    pub fn into_lines(self) -> (lines: Vec<String>)
        ensures
            line_views(lines@) == report_lines(self.errors()),
    {
        proof {
            use_type_invariant(&self);
        }
        self.lines
    }
}

} // verus!
