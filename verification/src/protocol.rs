//! Exchanges between the library and the system, one call and one reply at a time.

use vstd::prelude::*;

verus! {

/// An exchange in progress: either a call is pending, or the exchange is over.
pub trait Protocol: Sized {
    /// What the library asks of the system.
    type Call;

    /// What the system answers.
    type Reply;

    /// The call that is due, `None` once the exchange is over.
    spec fn pending(self) -> Option<Self::Call>;

    /// Whether `reply` is an answer to the pending call.
    spec fn fits(self, reply: Self::Reply) -> bool;

    /// Where the exchange stands after `reply`.
    spec fn advance(self, reply: Self::Reply) -> Self;
}

/// Where the exchange stands after a run of replies.
pub open spec fn after<P: Protocol>(p: P, replies: Seq<P::Reply>) -> P
    decreases replies.len(),
{
    if replies.len() == 0 {
        p
    } else {
        after(p, replies.drop_last()).advance(replies.last())
    }
}

/// The call that reply number `i` answers.
pub open spec fn call_at<P: Protocol>(p: P, replies: Seq<P::Reply>, i: int) -> P::Call {
    after(p, replies.take(i)).pending()->0
}

/// The calls that a run of replies answers, in order.
pub open spec fn calls<P: Protocol>(p: P, replies: Seq<P::Reply>) -> Seq<P::Call> {
    Seq::new(replies.len(), |i: int| call_at(p, replies, i))
}

/// Whether every reply answers a call that was pending.
pub open spec fn answers<P: Protocol>(p: P, replies: Seq<P::Reply>) -> bool
    decreases replies.len(),
{
    replies.len() > 0 ==> {
        let before = after(p, replies.drop_last());
        &&& answers(p, replies.drop_last())
        &&& before.pending() is Some
        &&& before.fits(replies.last())
    }
}

/// Whether `replies` is a whole exchange: every reply answers a pending call, and no call is left.
pub open spec fn completes<P: Protocol>(p: P, replies: Seq<P::Reply>) -> bool {
    answers(p, replies) && after(p, replies).pending() is None
}

/// The last step of a run: the calls before it are those of the shorter run, and the last reply
/// answers the call that was pending there.
pub proof fn lemma_last_step<P: Protocol>(p: P, replies: Seq<P::Reply>)
    requires
        replies.len() > 0,
    ensures
        calls(p, replies) == calls(p, replies.drop_last()).push(
            after(p, replies.drop_last()).pending()->0,
        ),
        answers(p, replies) ==> after(p, replies.drop_last()).pending() == Some(
            calls(p, replies).last(),
        ),
{
    let shorter = replies.drop_last();
    assert forall|i: int| 0 <= i < shorter.len() implies #[trigger] calls(p, replies)[i] == calls(
        p,
        shorter,
    )[i] by {
        assert(replies.take(i) =~= shorter.take(i));
    }
    assert(replies.take(replies.len() - 1) =~= shorter);
    assert(calls(p, replies) =~= calls(p, shorter).push(after(p, shorter).pending()->0));
}

/// Every prefix of a run is a run.
pub proof fn lemma_prefix<P: Protocol>(p: P, replies: Seq<P::Reply>, n: int)
    requires
        answers(p, replies),
        0 <= n <= replies.len(),
    ensures
        answers(p, replies.take(n)),
        calls(p, replies.take(n)) == calls(p, replies).take(n),
        n < replies.len() ==> after(p, replies.take(n)).pending() == Some(calls(p, replies)[n]),
        n < replies.len() ==> after(p, replies.take(n)).fits(replies[n]),
    decreases replies.len(),
{
    if n == replies.len() {
        assert(replies.take(n) =~= replies);
        assert(calls(p, replies).take(n) =~= calls(p, replies));
    } else {
        let shorter = replies.drop_last();
        lemma_last_step(p, replies);
        lemma_prefix(p, shorter, n);
        assert(shorter.take(n) =~= replies.take(n));
        assert(calls(p, replies).take(n) =~= calls(p, shorter).take(n));
        if n == shorter.len() {
            assert(replies.take(n) =~= shorter);
        }
    }
}

/// A run goes on from where its first reply leads.
pub proof fn lemma_first_step<P: Protocol>(p: P, replies: Seq<P::Reply>)
    requires
        replies.len() > 0,
    ensures
        after(p, replies) == after(p.advance(replies[0]), replies.skip(1)),
        answers(p, replies) <==> p.pending() is Some && p.fits(replies[0]) && answers(
            p.advance(replies[0]),
            replies.skip(1),
        ),
        calls(p, replies) == seq![p.pending()->0] + calls(
            p.advance(replies[0]),
            replies.skip(1),
        ),
    decreases replies.len(),
{
    let first = replies[0];
    let next = p.advance(first);
    let rest = replies.skip(1);
    lemma_last_step(p, replies);
    if replies.len() == 1 {
        assert(replies.drop_last() =~= Seq::<P::Reply>::empty());
        assert(rest =~= Seq::<P::Reply>::empty());
        reveal_with_fuel(after, 2);
        reveal_with_fuel(answers, 2);
        assert(calls(p, replies) =~= seq![p.pending()->0] + calls(next, rest));
    } else {
        let shorter = replies.drop_last();
        lemma_first_step(p, shorter);
        assert(shorter.skip(1) =~= rest.drop_last());
        assert(shorter[0] == first);
        lemma_last_step(next, rest);
        assert(calls(p, replies) =~= seq![p.pending()->0] + calls(next, rest));
    }
}

} // verus!
