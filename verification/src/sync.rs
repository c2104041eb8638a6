//! Following a chain: old blocks are downloaded one by one over HTTP, then the pipeline
//! switches to a websocket subscription for new ones.
//!
//! Talking to the node is the caller's part; the machines here decide which block to ask
//! for next and what to do with each answer.
use vstd::prelude::*;

verus! {

/// How many blocks before the chain's head a backfill starts.
pub const BACKFILL_DEPTH: u64 = 10;

/// The block a backfill starts from: `BACKFILL_DEPTH` blocks before the head `latest`.
pub fn backfill_start(latest: u64) -> (from: u64)
    requires
        latest >= BACKFILL_DEPTH,
    ensures
        from == latest - BACKFILL_DEPTH,
{
    latest - BACKFILL_DEPTH
}

/// What the node answered when asked for a block with its transactions.
pub enum FetchOutcome {
    /// The block, which the caller holds.
    Found,
    /// The node knows no block of that number.
    Missing,
    /// The request failed, for this reason.
    Failed(String),
}

/// Why a download stopped.
pub enum DownloadError {
    /// Asking the node failed, for this reason.
    Fetch(String),
    /// The block could not be broadcast: the channel had no receiver.
    Broadcast,
}

/// What a range download does next.
pub enum HistoryAction {
    /// Ask the node for this block.
    Fetch(u64),
    /// Broadcast the block just fetched, of this number.
    Broadcast(u64),
    /// Every block of the range has been broadcast.
    Done,
    /// Stop, with this error.
    Fail(DownloadError),
}

/// The download of the blocks `first ..= last`, one at a time and in order; `next` is the
/// block being downloaded, or `last + 1` once all are done.
pub struct HistoryDownload {
    next: u64,
    last: u64,
}

pub open spec fn history_next_action_spec(next: u64, last: u64) -> HistoryAction {
    if next <= last {
        HistoryAction::Fetch(next)
    } else {
        HistoryAction::Done
    }
}

impl HistoryDownload {
    #[verifier::type_invariant]
    closed spec fn wf(self) -> bool {
        self.last < u64::MAX
    }

    /// The block being downloaded, or one past the range once it is done.
    pub closed spec fn next_block(self) -> u64 {
        self.next
    }

    /// The last block of the range.
    pub closed spec fn last_block(self) -> u64 {
        self.last
    }

    /// The download of `from ..= to`; a range with `from > to` is empty.
    pub fn new(from: u64, to: u64) -> (d: HistoryDownload)
        requires
            to < u64::MAX,
        ensures
            d.next_block() == from,
            d.last_block() == to,
    {
        HistoryDownload { next: from, last: to }
    }

    /// Ask for the next block of the range, or finish when none is left.
    pub fn next_action(&self) -> (a: HistoryAction)
        ensures
            a == history_next_action_spec(self.next_block(), self.last_block()),
            self.next_block() <= self.last_block() ==> a == HistoryAction::Fetch(
                self.next_block(),
            ),
            self.next_block() > self.last_block() ==> a == HistoryAction::Done,
    {
        if self.next <= self.last {
            HistoryAction::Fetch(self.next)
        } else {
            HistoryAction::Done
        }
    }

    /// What to do with the node's answer for the block being downloaded: broadcast it, or
    /// stop when the request failed. An answer without a block is not accepted: the
    /// download has no way to go on past a hole in the chain.
    pub fn on_fetched(&self, outcome: FetchOutcome) -> (a: HistoryAction)
        requires
            !(outcome is Missing),
        ensures
            outcome is Found ==> a == HistoryAction::Broadcast(self.next_block()),
            outcome matches FetchOutcome::Failed(e) ==> a == HistoryAction::Fail(
                DownloadError::Fetch(e),
            ),
    {
        match outcome {
            FetchOutcome::Failed(e) => HistoryAction::Fail(DownloadError::Fetch(e)),
            _ => HistoryAction::Broadcast(self.next),
        }
    }

    /// After broadcasting the block being downloaded: move on to the next block when the
    /// broadcast went out, and stop otherwise.
    pub fn on_broadcast(&mut self, sent: bool) -> (a: HistoryAction)
        requires
            old(self).next_block() <= old(self).last_block(),
        ensures
            final(self).last_block() == old(self).last_block(),
            sent ==> final(self).next_block() == old(self).next_block() + 1,
            sent ==> a == history_next_action_spec(
                final(self).next_block(),
                final(self).last_block(),
            ),
            sent && final(self).next_block() <= final(self).last_block() ==> a
                == HistoryAction::Fetch(final(self).next_block()),
            sent && final(self).next_block() > final(self).last_block() ==> a
                == HistoryAction::Done,
            !sent ==> final(self).next_block() == old(self).next_block(),
            !sent ==> a == HistoryAction::Fail(DownloadError::Broadcast),
    {
        proof {
            use_type_invariant(&*self);
        }
        if sent {
            self.next = self.next + 1;
            self.next_action()
        } else {
            HistoryAction::Fail(DownloadError::Broadcast)
        }
    }
}

/// A range download asks for the block it is at while one is left, and finishes
/// successfully, with nothing to fetch and no failure, once it is past its last block:
/// an empty range succeeds at once.
pub proof fn lemma_history_next_action(next: u64, last: u64)
    ensures
        next <= last ==> history_next_action_spec(next, last) == HistoryAction::Fetch(next),
        next > last ==> history_next_action_spec(next, last) == HistoryAction::Done,
        !(history_next_action_spec(next, last) is Fail),
        !(history_next_action_spec(next, last) is Broadcast),
{
}

/// The blocks a range download asks for, in order, when every answer holds a block and
/// every broadcast goes out, starting at `next` with `last` the end of the range.
pub open spec fn history_schedule(next: u64, last: u64) -> Seq<u64>
    decreases last + 1 - next,
{
    match history_next_action_spec(next, last) {
        HistoryAction::Fetch(n) => if n < u64::MAX {
            seq![n] + history_schedule((n + 1) as u64, last)
        } else {
            seq![n]
        },
        _ => Seq::empty(),
    }
}

/// A range download that meets no failure asks for every block of its range exactly
/// once, in increasing order, and for no other.
pub proof fn lemma_history_fetches_each_block_once(from: u64, to: u64)
    requires
        to < u64::MAX,
    ensures
        from <= to ==> history_schedule(from, to) == Seq::new(
            (to - from + 1) as nat,
            |i: int| (from + i) as u64,
        ),
        from > to ==> history_schedule(from, to) == Seq::<u64>::empty(),
    decreases to + 1 - from,
{
    if from <= to {
        lemma_history_fetches_each_block_once((from + 1) as u64, to);
        let rest = history_schedule((from + 1) as u64, to);
        assert(history_schedule(from, to) == seq![from] + rest);
        assert(history_schedule(from, to) =~= Seq::new(
            (to - from + 1) as nat,
            |i: int| (from + i) as u64,
        ));
    }
}

/// The download of the blocks between the last one the backfill fetched, `latest`, and
/// the first one the subscription announced, `first_live`: `latest + 1 ..= first_live - 1`,
/// empty when the subscription already covers everything after `latest`.
pub fn gap_download(latest: u64, first_live: u64) -> (d: HistoryDownload)
    requires
        latest < u64::MAX,
        first_live >= 1,
    ensures
        d.next_block() == latest + 1,
        d.last_block() == first_live - 1,
{
    HistoryDownload::new(latest + 1, first_live - 1)
}

/// Switching from the backfill to the subscription loses no block: with the backfill
/// over `from ..= latest`, the gap download of `gap_download(latest, first_live)`, and
/// the subscription delivering `first_live` onwards, every block from `from` on is
/// covered; when the subscription starts after `latest`, each is covered exactly once,
/// and otherwise the gap is empty and exactly the blocks `first_live ..= latest` come
/// twice.
pub proof fn lemma_switch_covers_every_block(from: u64, latest: u64, first_live: u64, n: int)
    requires
        latest < u64::MAX,
        first_live >= 1,
        n >= from,
    ensures
        ({
            let in_backfill = from <= n <= latest;
            let in_gap = latest + 1 <= n <= first_live - 1;
            let live = n >= first_live;
            &&& in_backfill || in_gap || live
            &&& !(in_backfill && in_gap)
            &&& !(in_gap && live)
            &&& (first_live > latest ==> !(in_backfill && live))
            &&& (first_live <= latest ==> (!in_gap && ((in_backfill && live) <==> first_live
                <= n <= latest)))
        }),
{
}

/// What a live download does with the node's answer for an announced block.
pub enum LiveStep {
    /// Broadcast the block; a failed broadcast is reported and the download goes on.
    Broadcast,
    /// Report that the node has no such block, and wait for the next announcement.
    ReportMissing,
    /// Stop, with this error.
    Fail(DownloadError),
}

pub open spec fn live_on_fetched_spec(outcome: FetchOutcome) -> LiveStep {
    match outcome {
        FetchOutcome::Found => LiveStep::Broadcast,
        FetchOutcome::Missing => LiveStep::ReportMissing,
        FetchOutcome::Failed(e) => LiveStep::Fail(DownloadError::Fetch(e)),
    }
}

/// Decides, for a block the subscription announced, what to do with the node's answer:
/// a block is broadcast, a missing block is reported and skipped, and a failed request
/// stops the download.
pub fn live_on_fetched(outcome: FetchOutcome) -> (s: LiveStep)
    ensures
        s == live_on_fetched_spec(outcome),
        outcome is Found ==> s == LiveStep::Broadcast,
        outcome is Missing ==> s == LiveStep::ReportMissing,
        outcome matches FetchOutcome::Failed(e) ==> s == LiveStep::Fail(DownloadError::Fetch(e)),
{
    match outcome {
        FetchOutcome::Found => LiveStep::Broadcast,
        FetchOutcome::Missing => LiveStep::ReportMissing,
        FetchOutcome::Failed(e) => LiveStep::Fail(DownloadError::Fetch(e)),
    }
}

/// A live download broadcasts exactly the blocks the node returned, goes on past a block
/// the node does not have, and stops on any failed request, whatever its message, with
/// that very message.
pub proof fn lemma_live_download_stops_on_every_failure(outcome: FetchOutcome)
    ensures
        live_on_fetched_spec(outcome) is Broadcast <==> outcome is Found,
        live_on_fetched_spec(outcome) is ReportMissing <==> outcome is Missing,
        forall|e: String| #[trigger] live_on_fetched_spec(FetchOutcome::Failed(e)) == LiveStep::Fail(
            DownloadError::Fetch(e),
        ),
{
}

/// What a relay, which forwards each announced block to the next stage, does with the
/// node's answer.
pub enum RelayStep {
    /// Forward the block; when the next stage is gone, the relay stops.
    Forward,
    /// Report that the node has no such block, and wait for the next number.
    ReportMissing,
    /// Report the failed request, and wait for the next number.
    ReportError(String),
}

pub open spec fn relay_on_fetched_spec(outcome: FetchOutcome) -> RelayStep {
    match outcome {
        FetchOutcome::Found => RelayStep::Forward,
        FetchOutcome::Missing => RelayStep::ReportMissing,
        FetchOutcome::Failed(e) => RelayStep::ReportError(e),
    }
}

/// Decides, for a block number handed to the relay, what to do with the node's answer: a
/// block is forwarded, and a missing block or a failed request is reported without
/// stopping the relay.
pub fn relay_on_fetched(outcome: FetchOutcome) -> (s: RelayStep)
    ensures
        s == relay_on_fetched_spec(outcome),
        s is Forward <==> outcome is Found,
        outcome is Missing ==> s == RelayStep::ReportMissing,
        outcome matches FetchOutcome::Failed(e) ==> s == RelayStep::ReportError(e),
{
    match outcome {
        FetchOutcome::Found => RelayStep::Forward,
        FetchOutcome::Missing => RelayStep::ReportMissing,
        FetchOutcome::Failed(e) => RelayStep::ReportError(e),
    }
}

/// A relay forwards a block only when the node returned one, and reports every failed
/// request, whatever its message, with that very message, without stopping.
pub proof fn lemma_relay_forwards_only_fetched_blocks(outcome: FetchOutcome)
    ensures
        relay_on_fetched_spec(outcome) is Forward <==> outcome is Found,
        relay_on_fetched_spec(outcome) is ReportMissing <==> outcome is Missing,
        forall|e: String| #[trigger] relay_on_fetched_spec(FetchOutcome::Failed(e))
            == RelayStep::ReportError(e),
{
}

} // verus!
