use vstd::prelude::*;
use vstd::string::*;

use crate::paper::filename_spec;
use crate::paper::Paper;
use crate::paper::PaperView;

verus! {

// The messages a download task reports. Severity is a plain tag; mapping it
// to a terminal color is the presentation layer's business.

/// How an outcome message is rendered: terminal results are emphasized,
/// auxiliary information is plain.
#[derive(Clone, Copy, PartialEq, Eq, Structural, Debug)]
pub enum Severity {
    Success,
    Failure,
    Info,
}

impl Severity {
    /// Whether a message of this severity is emphasized when rendered.
    pub fn emphasized(&self) -> (r: bool)
        ensures
            r == (*self != Severity::Info),
    {
        match self {
            Severity::Info => false,
            _ => true,
        }
    }
}

/// One message a download task reports: what to show, and how.
pub struct Outcome {
    pub text: String,
    pub severity: Severity,
}

/// The mathematical content of an `Outcome`.
#[verifier::ext_equal]
pub struct OutcomeView {
    pub text: Seq<char>,
    pub severity: Severity,
}

impl View for Outcome {
    type V = OutcomeView;

    open spec fn view(&self) -> OutcomeView {
        OutcomeView { text: self.text@, severity: self.severity }
    }
}

/// The views of a sequence of messages.
pub open spec fn message_views(msgs: Seq<Outcome>) -> Seq<OutcomeView> {
    msgs.map_values(|o: Outcome| o@)
}

/// A download result as plain mathematics: the byte count written, or the
/// cause of the failure.
pub open spec fn result_view(r: Result<usize, String>) -> Result<usize, Seq<char>> {
    match r {
        Ok(n) => Ok(n),
        Err(e) => Err(e@),
    }
}

/// The message reported when a paper was downloaded.
pub open spec fn success_text(p: PaperView) -> Seq<char> {
    "Downloaded "@ + filename_spec(p)
}

/// The message reported when a download failed, with its cause.
pub open spec fn failure_text(p: PaperView, cause: Seq<char>) -> Seq<char> {
    "Failed to download "@ + filename_spec(p) + " because: "@ + cause
}

/// The auxiliary message carrying the link for a manual retry.
pub open spec fn info_text(p: PaperView) -> Seq<char> {
    "Link for manual download: "@ + p.link
}

/// The messages one task reports for one finished download: exactly one
/// terminal message, followed by the manual-download link when it failed.
pub open spec fn outcome_views(p: PaperView, result: Result<usize, Seq<char>>) -> Seq<
    OutcomeView,
> {
    match result {
        Ok(_) => seq![
            (OutcomeView { text: success_text(p), severity: Severity::Success }),
        ],
        Err(cause) => seq![
            (OutcomeView { text: failure_text(p, cause), severity: Severity::Failure }),
            (OutcomeView { text: info_text(p), severity: Severity::Info }),
        ],
    }
}

/// The messages a task reports for one finished download of `paper`: one
/// Success message on success; one Failure message naming the cause followed
/// by one Info message with the link on failure.
pub fn outcome_messages(paper: &Paper, result: &Result<usize, String>) -> (msgs: Vec<Outcome>)
    ensures
        message_views(msgs@) == outcome_views(paper@, result_view(*result)),
{
    let mut msgs: Vec<Outcome> = Vec::new();
    match result {
        Ok(_) => {
            let mut text = String::from_str("Downloaded ");
            let f = paper.filename();
            text.append(f.as_str());
            msgs.push(Outcome { text, severity: Severity::Success });
        },
        Err(cause) => {
            let mut text = String::from_str("Failed to download ");
            let f = paper.filename();
            text.append(f.as_str());
            text.append(" because: ");
            text.append(cause.as_str());
            msgs.push(Outcome { text, severity: Severity::Failure });
            let mut info = String::from_str("Link for manual download: ");
            info.append(paper.link());
            msgs.push(Outcome { text: info, severity: Severity::Info });
        },
    }
    proof {
        assert(message_views(msgs@) =~= outcome_views(paper@, result_view(*result)));
    }
    msgs
}

} // verus!
