//! What holds of every driver, proved once.
//!
//! A driver is a machine that turns replies into moves. The laws here are
//! stated over whole runs of such a machine and rest on a handful of facts
//! about single moves, which each driver proves of itself.

use vstd::prelude::*;

use crate::engine::{
    acquisitions, ends_stream, is_exit, is_init, is_release, no_terminal, releases, stream_of,
    EngineReplyView, StepView,
};
use crate::events::StreamEventView;

verus! {

/// A driver, seen as a machine over replies.
pub trait Machine: Sized {
    /// One move: the state after the reply and what is wanted next.
    spec fn advance(self, r: EngineReplyView) -> (Self, StepView);

    /// The states that a run can be in.
    spec fn valid(self) -> bool;

    /// Whether a transaction is started and not yet given up.
    spec fn holds_transaction(self) -> bool;

    /// Whether the answer to a request for a transaction is awaited.
    spec fn awaits_transaction(self) -> bool;

    /// Whether a request for a transaction may still come.
    spec fn may_ask(self) -> bool;

    /// Whether the operation has ended.
    spec fn ended(self) -> bool;

    /// The facts about one move: states stay valid; a transaction is held
    /// from the reply that grants it to the move that gives it up; it is
    /// asked for at most once; and a run that has ended holds none.
    proof fn lemma_advance(self, r: EngineReplyView)
        requires
            self.valid(),
        ensures
            self.advance(r).0.valid(),
            self.advance(r).0.awaits_transaction() <==> is_init(self.advance(r).1),
            is_init(self.advance(r).1) ==> self.may_ask() && !self.advance(r).0.may_ask(),
            self.advance(r).0.may_ask() ==> self.may_ask(),
            (if self.advance(r).0.holds_transaction() {
                1int
            } else {
                0int
            }) + (if is_release(self.advance(r).1) {
                1int
            } else {
                0int
            }) == (if self.holds_transaction() {
                1int
            } else {
                0int
            }) + (if self.awaits_transaction() && r.error is None {
                1int
            } else {
                0int
            }),
            self.ended() ==> !self.holds_transaction() && !self.awaits_transaction(),
            self.ended() ==> self.advance(r).0.ended(),
            is_exit(self.advance(r).1) <==> self.advance(r).0.ended(),
    ;
}

/// A driver that streams records to the caller.
pub trait Streaming: Machine {
    /// Whether the terminal record has been streamed.
    spec fn completed(self) -> bool;

    /// The facts about one move: the move that completes the run streams
    /// the terminal record last and no other; a move before it streams no
    /// terminal record; a move after it streams nothing; and a run does
    /// not end without it.
    proof fn lemma_stream(self, r: EngineReplyView)
        requires
            self.valid(),
        ensures
            self.completed() ==> self.advance(r).0.completed() && self.advance(r).1.emit.len()
                == 0,
            !self.completed() && self.advance(r).0.completed() ==> ends_stream(
                self.advance(r).1.emit,
            ),
            !self.completed() && !self.advance(r).0.completed() ==> no_terminal(
                self.advance(r).1.emit,
            ),
            self.ended() ==> self.completed(),
    ;
}

/// What a run has done and where it stands.
pub struct Trace<M> {
    pub state: M,
    /// The moves made, one for each reply.
    pub steps: Seq<StepView>,
}

/// The run of a machine from the state `s` over `replies`.
pub open spec fn run_of<M: Machine>(s: M, replies: Seq<EngineReplyView>) -> Trace<M>
    decreases replies.len(),
{
    if replies.len() == 0 {
        Trace { state: s, steps: Seq::empty() }
    } else {
        let (next, step) = s.advance(replies[0]);
        let rest = run_of(next, replies.drop_first());
        Trace { state: rest.state, steps: seq![step] + rest.steps }
    }
}

/// 1 where the condition holds, else 0.
pub open spec fn one_if(b: bool) -> nat {
    if b {
        1
    } else {
        0
    }
}

/// A run makes one move for each reply.
pub proof fn lemma_one_move_per_reply<M: Machine>(s: M, replies: Seq<EngineReplyView>)
    ensures
        run_of(s, replies).steps.len() == replies.len(),
    decreases replies.len(),
{
    if replies.len() > 0 {
        lemma_one_move_per_reply(s.advance(replies[0]).0, replies.drop_first());
    }
}

/// A run unfolds into its first move and the run that follows it.
pub proof fn lemma_unfold<M: Machine>(s: M, replies: Seq<EngineReplyView>)
    requires
        replies.len() > 0,
    ensures
        run_of(s, replies).steps[0] == s.advance(replies[0]).1,
        run_of(s, replies).steps.drop_first() == run_of(
            s.advance(replies[0]).0,
            replies.drop_first(),
        ).steps,
        run_of(s, replies).state == run_of(s.advance(replies[0]).0, replies.drop_first()).state,
{
    let rest = run_of(s.advance(replies[0]).0, replies.drop_first());
    assert(run_of(s, replies).steps.drop_first() =~= rest.steps);
}

/// A run that has ended stays ended.
pub proof fn lemma_ended_stays<M: Machine>(s: M, replies: Seq<EngineReplyView>)
    requires
        s.valid(),
        s.ended(),
    ensures
        run_of(s, replies).state.ended(),
    decreases replies.len(),
{
    if replies.len() > 0 {
        s.lemma_advance(replies[0]);
        lemma_ended_stays(s.advance(replies[0]).0, replies.drop_first());
    }
}

/// Over a run that has ended, the transaction was given up as often as the
/// engine had started one, counting a transaction that the run already held
/// or was about to be granted when the replies began.
pub proof fn lemma_release_balance<M: Machine>(s: M, replies: Seq<EngineReplyView>)
    requires
        s.valid(),
        run_of(s, replies).state.ended(),
    ensures
        releases(run_of(s, replies).steps) == acquisitions(run_of(s, replies).steps, replies)
            + one_if(s.holds_transaction()) + one_if(
            s.awaits_transaction() && replies.len() >= 1 && replies[0].error is None,
        ),
    decreases replies.len(),
{
    if replies.len() > 0 {
        let next = s.advance(replies[0]).0;
        s.lemma_advance(replies[0]);
        lemma_unfold(s, replies);
        lemma_release_balance(next, replies.drop_first());
        if replies.len() >= 2 {
            assert(replies.drop_first()[0] == replies[1]);
        }
    } else {
        s.lemma_advance(arbitrary());
    }
}

/// A run asks for a transaction at most once, and not at all once it has
/// asked.
pub proof fn lemma_asks_at_most_once<M: Machine>(s: M, replies: Seq<EngineReplyView>)
    requires
        s.valid(),
    ensures
        acquisitions(run_of(s, replies).steps, replies) <= one_if(s.may_ask()),
    decreases replies.len(),
{
    if replies.len() > 0 {
        let next = s.advance(replies[0]).0;
        s.lemma_advance(replies[0]);
        lemma_unfold(s, replies);
        lemma_asks_at_most_once(next, replies.drop_first());
    }
}

/// Once the terminal record is out, nothing more is streamed.
pub proof fn lemma_quiet_after_terminal<M: Streaming>(s: M, replies: Seq<EngineReplyView>)
    requires
        s.valid(),
        s.completed(),
    ensures
        stream_of(run_of(s, replies).steps).len() == 0,
    decreases replies.len(),
{
    if replies.len() > 0 {
        let next = s.advance(replies[0]).0;
        s.lemma_advance(replies[0]);
        s.lemma_stream(replies[0]);
        lemma_unfold(s, replies);
        lemma_quiet_after_terminal(next, replies.drop_first());
    }
}

/// Records without a terminal one, followed by a finished stream, are a
/// finished stream.
pub proof fn lemma_stream_extends(head: Seq<StreamEventView>, tail: Seq<StreamEventView>)
    requires
        no_terminal(head),
        ends_stream(tail),
    ensures
        ends_stream(head + tail),
{
    let all = head + tail;
    assert(all.last() == tail.last());
    assert forall|i: int| 0 <= i < all.drop_last().len() implies !((
    #[trigger] all.drop_last()[i]) is Complete) by {
        if i < head.len() {
            assert(all.drop_last()[i] == head[i]);
        } else {
            assert(all.drop_last()[i] == tail.drop_last()[i - head.len()]);
        }
    }
}

/// What a run that has ended has streamed is a finished stream: exactly one
/// terminal record, and nothing behind it. Where the terminal record was
/// already out when the replies began, the run streamed nothing.
pub proof fn lemma_stream_is_finished<M: Streaming>(s: M, replies: Seq<EngineReplyView>)
    requires
        s.valid(),
        run_of(s, replies).state.ended(),
    ensures
        s.completed() ==> stream_of(run_of(s, replies).steps).len() == 0,
        !s.completed() ==> ends_stream(stream_of(run_of(s, replies).steps)),
    decreases replies.len(),
{
    if replies.len() > 0 {
        let next = s.advance(replies[0]).0;
        let step = s.advance(replies[0]).1;
        let rest = stream_of(run_of(next, replies.drop_first()).steps);
        s.lemma_advance(replies[0]);
        s.lemma_stream(replies[0]);
        lemma_unfold(s, replies);
        lemma_stream_is_finished(next, replies.drop_first());
        if !s.completed() {
            if next.completed() {
                assert(step.emit + rest =~= step.emit);
            } else {
                lemma_stream_extends(step.emit, rest);
            }
        }
    } else {
        s.lemma_stream(arbitrary());
    }
}

} // verus!
