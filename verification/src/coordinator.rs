use vstd::prelude::*;

use crate::outcome::message_views;
use crate::outcome::outcome_messages;
use crate::outcome::outcome_views;
use crate::outcome::result_view;
use crate::outcome::Outcome;
use crate::outcome::OutcomeView;
use crate::outcome::Severity;
use crate::paper::Paper;
use crate::paper::PaperView;

verus! {

// The fan-in side of the download stage. One task runs per matched paper;
// each finished task is recorded here exactly once, against a ghost log of
// everything reported so far. The caller drains messages in whatever order
// tasks finish; the accounting below guarantees that when the batch is done,
// every download has reported exactly one terminal outcome.

/// How many messages of a log are terminal: a Success or a Failure, the one
/// verdict a task gives about its own download.
pub open spec fn terminal_count(log: Seq<OutcomeView>) -> int
    decreases log.len(),
{
    if log.len() == 0 {
        0
    } else {
        terminal_count(log.drop_last()) + if log.last().severity != Severity::Info {
            1int
        } else {
            0int
        }
    }
}

/// How many messages of a log report a success.
pub open spec fn success_count(log: Seq<OutcomeView>) -> int
    decreases log.len(),
{
    if log.len() == 0 {
        0
    } else {
        success_count(log.drop_last()) + if log.last().severity == Severity::Success {
            1int
        } else {
            0int
        }
    }
}

/// How many messages of a log report a failure.
pub open spec fn failure_count(log: Seq<OutcomeView>) -> int
    decreases log.len(),
{
    if log.len() == 0 {
        0
    } else {
        failure_count(log.drop_last()) + if log.last().severity == Severity::Failure {
            1int
        } else {
            0int
        }
    }
}

/// The three counts split over concatenated logs.
proof fn lemma_counts_concat(a: Seq<OutcomeView>, b: Seq<OutcomeView>)
    ensures
        terminal_count(a + b) == terminal_count(a) + terminal_count(b),
        success_count(a + b) == success_count(a) + success_count(b),
        failure_count(a + b) == failure_count(a) + failure_count(b),
    decreases b.len(),
{
    if b.len() == 0 {
        assert(a + b =~= a);
    } else {
        lemma_counts_concat(a, b.drop_last());
        assert((a + b).drop_last() =~= a + b.drop_last());
        assert((a + b).last() == b.last());
    }
}

/// One finished download contributes exactly one terminal message: a single
/// success, or a single failure with its trailing info line.
proof fn lemma_outcome_views_counts(p: PaperView, result: Result<usize, Seq<char>>)
    ensures
        terminal_count(outcome_views(p, result)) == 1,
        success_count(outcome_views(p, result)) == (if result is Ok {
            1int
        } else {
            0int
        }),
        failure_count(outcome_views(p, result)) == (if result is Ok {
            0int
        } else {
            1int
        }),
{
    let v = outcome_views(p, result);
    let e = Seq::<OutcomeView>::empty();
    assert(terminal_count(e) == 0 && success_count(e) == 0 && failure_count(e) == 0);
    match result {
        Ok(_) => {
            assert(v.drop_last() =~= e);
        },
        Err(_) => {
            let w = v.drop_last();
            assert(w.drop_last() =~= e);
            assert(w.last() == v[0] && v.last() == v[1]);
            assert(terminal_count(w) == 1 && success_count(w) == 0 && failure_count(w) == 1);
        },
    }
}

/// Bookkeeping for one batch of concurrent downloads: how many are expected,
/// how many have succeeded and failed so far, and the log of every message
/// reported so far, in arrival order.
pub struct Batch {
    pub total: usize,
    pub successes: usize,
    pub failures: usize,
    pub emitted: Ghost<Seq<OutcomeView>>,
}

impl Batch {
    /// The batch's invariant: no more results than downloads, and the
    /// counters agree with the log.
    pub open spec fn wf(self) -> bool {
        &&& self.successes + self.failures <= self.total
        &&& success_count(self.emitted@) == self.successes
        &&& failure_count(self.emitted@) == self.failures
        &&& terminal_count(self.emitted@) == self.successes + self.failures
    }

    /// How many downloads have reported so far.
    pub open spec fn completed(self) -> int {
        self.successes + self.failures
    }

    /// A batch of `total` downloads, none finished yet.
    pub fn new(total: usize) -> (r: Batch)
        ensures
            r.wf(),
            r.total == total,
            r.successes == 0,
            r.failures == 0,
            r.emitted@ == Seq::<OutcomeView>::empty(),
    {
        Batch { total, successes: 0, failures: 0, emitted: Ghost(Seq::empty()) }
    }

    /// Whether every download of the batch has reported.
    pub fn is_done(&self) -> (r: bool)
        requires
            self.wf(),
        ensures
            r == (self.completed() == self.total),
    {
        self.successes + self.failures == self.total
    }

    /// Record one finished download and hand back the messages it reports.
    /// Exactly one terminal message joins the log, whatever the result was;
    /// a failure moves only the failure counter and never blocks the batch.
    pub fn on_completion(&mut self, paper: &Paper, result: &Result<usize, String>) -> (msgs: Vec<
        Outcome,
    >)
        requires
            old(self).wf(),
            old(self).completed() < old(self).total,
        ensures
            final(self).wf(),
            final(self).total == old(self).total,
            final(self).completed() == old(self).completed() + 1,
            message_views(msgs@) == outcome_views(paper@, result_view(*result)),
            final(self).emitted@ == old(self).emitted@ + message_views(msgs@),
            (*result) is Ok ==> final(self).successes == old(self).successes + 1
                && final(self).failures == old(self).failures,
            (*result) is Err ==> final(self).failures == old(self).failures + 1
                && final(self).successes == old(self).successes,
    {
        let msgs = outcome_messages(paper, result);
        match result {
            Ok(_) => {
                self.successes = self.successes + 1;
            },
            Err(_) => {
                self.failures = self.failures + 1;
            },
        }
        proof {
            self.emitted@ = self.emitted@ + message_views(msgs@);
            lemma_counts_concat(old(self).emitted@, message_views(msgs@));
            lemma_outcome_views_counts(paper@, result_view(*result));
        }
        msgs
    }
}

/// When every download of a batch has reported, the log holds exactly one
/// terminal outcome per download: successes and failures together equal the
/// batch size.
pub proof fn lemma_batch_exhaustive(b: Batch)
    requires
        b.wf(),
        b.completed() == b.total,
    ensures
        terminal_count(b.emitted@) == b.total,
        success_count(b.emitted@) + failure_count(b.emitted@) == b.total,
{
}

/// The messages of a whole batch, run to completion in task order: each
/// download contributes the messages of its own result.
pub open spec fn batch_views(
    papers: Seq<PaperView>,
    results: Seq<Result<usize, Seq<char>>>,
) -> Seq<OutcomeView>
    decreases papers.len(),
{
    if papers.len() == 0 {
        Seq::empty()
    } else {
        batch_views(papers.drop_last(), results.drop_last()) + outcome_views(
            papers.last(),
            results.last(),
        )
    }
}

/// How many of the results report a success.
pub open spec fn ok_count(results: Seq<Result<usize, Seq<char>>>) -> int
    decreases results.len(),
{
    if results.len() == 0 {
        0
    } else {
        ok_count(results.drop_last()) + if results.last() is Ok {
            1int
        } else {
            0int
        }
    }
}

/// Every download of a batch reports exactly one terminal outcome, whatever
/// the individual results were: the terminal messages number the batch size,
/// the successes among them the successful downloads, and the failures the
/// rest.
pub proof fn lemma_batch_views_counts(
    papers: Seq<PaperView>,
    results: Seq<Result<usize, Seq<char>>>,
)
    requires
        papers.len() == results.len(),
    ensures
        terminal_count(batch_views(papers, results)) == results.len(),
        success_count(batch_views(papers, results)) == ok_count(results),
        failure_count(batch_views(papers, results)) == results.len() - ok_count(results),
    decreases papers.len(),
{
    if papers.len() > 0 {
        lemma_batch_views_counts(papers.drop_last(), results.drop_last());
        lemma_counts_concat(
            batch_views(papers.drop_last(), results.drop_last()),
            outcome_views(papers.last(), results.last()),
        );
        lemma_outcome_views_counts(papers.last(), results.last());
    }
}

/// Failures are isolated: the batch log always contains one download's own
/// messages, contiguous and unchanged, between the messages of the earlier
/// and the later downloads — whatever the other downloads returned.
pub proof fn lemma_batch_views_decompose(
    papers: Seq<PaperView>,
    results: Seq<Result<usize, Seq<char>>>,
    i: int,
)
    requires
        papers.len() == results.len(),
        0 <= i < papers.len(),
    ensures
        batch_views(papers, results) == batch_views(papers.take(i), results.take(i))
            + outcome_views(papers[i], results[i]) + batch_views(
            papers.skip(i + 1),
            results.skip(i + 1),
        ),
    decreases papers.len(),
{
    if i == papers.len() - 1 {
        assert(papers.take(i) =~= papers.drop_last());
        assert(results.take(i) =~= results.drop_last());
        assert(batch_views(papers.skip(i + 1), results.skip(i + 1)) =~= Seq::<
            OutcomeView,
        >::empty());
        assert(batch_views(papers, results) =~= batch_views(papers.take(i), results.take(i))
            + outcome_views(papers[i], results[i]) + batch_views(
            papers.skip(i + 1),
            results.skip(i + 1),
        ));
    } else {
        lemma_batch_views_decompose(papers.drop_last(), results.drop_last(), i);
        assert(papers.drop_last().take(i) =~= papers.take(i));
        assert(results.drop_last().take(i) =~= results.take(i));
        assert(papers.drop_last()[i] == papers[i]);
        assert(results.drop_last()[i] == results[i]);
        let tail = batch_views(papers.skip(i + 1), results.skip(i + 1));
        assert(papers.skip(i + 1).drop_last() =~= papers.drop_last().skip(i + 1));
        assert(results.skip(i + 1).drop_last() =~= results.drop_last().skip(i + 1));
        assert(papers.skip(i + 1).last() == papers.last());
        assert(results.skip(i + 1).last() == results.last());
        assert(tail == batch_views(papers.drop_last().skip(i + 1), results.drop_last().skip(i + 1))
            + outcome_views(papers.last(), results.last()));
        assert(batch_views(papers, results) =~= batch_views(papers.take(i), results.take(i))
            + outcome_views(papers[i], results[i]) + tail);
    }
}

} // verus!
