//! The search for a Connes distance, as a machine that decides and a caller
//! that computes.
//!
//! The distance between two states is the largest value of `c . f / L(f)`
//! over observables `f`, where `c` is the difference of the two states'
//! indicator vectors and `L` is the Lipschitz seminorm. The search scores `c`
//! itself, then climbs from several random observables and scores where each
//! climb ends. It keeps the best score and returns its absolute value.
//!
//! The machine holds no observable. It tells the caller what to compute next,
//! takes one number in reply, and decides from it: whether to nudge a
//! degenerate start, whether to go on climbing, whether to scale the
//! observable back, whether a score is a new best.

use vstd::prelude::*;
use crate::binary64::{abs, absolute, at_most, greater, gt, le, less, lt, ONE, ZERO};

verus! {

/// How many random observables the search climbs from.
pub const RESTARTS: usize = 8;

/// The most steps that one climb takes.
pub const ITERATIONS: usize = 600;

/// The seed of the random source that the observables are drawn from.
pub const SEED: u64 = 42;

/// A start with a seminorm below this, the number nearest to ten to the
/// power -12, is nudged before the climb.
pub const DEGENERATE: u64 = 0x3D71_9799_812D_EA11;

/// A climb stops once the seminorm is at most this, the number nearest to ten
/// to the power -15.
pub const COLLAPSED: u64 = 0x3CD2_03AF_9EE7_5616;

/// What is added to every entry of a degenerate start: the number nearest to
/// one thousandth.
pub const NUDGE: u64 = 0x3F50_624D_D2F1_A9FC;

/// The length of a step along the gradient: one half.
pub const RATE: u64 = 0x3FE0_0000_0000_0000;

/// What the machine is waiting for.
#[derive(Debug, Clone, Copy, PartialEq, Eq, Structural)]
pub enum Phase {
    /// The seminorm of `c`.
    Direction,
    /// The score of `c`.
    Baseline,
    /// The seminorm of a fresh observable.
    Start,
    /// The seminorm of a nudged observable.
    Nudged,
    /// The seminorm after a step.
    Climb,
    /// The seminorm of the observable that the climb ended on.
    Settle,
    /// The score of that observable.
    Score,
    /// Nothing: the search is over.
    Done,
}

/// What the caller is to compute next. Each request but the last is answered
/// by one number. The caller keeps the current observable `f`.
#[derive(Debug, Clone, Copy, PartialEq, Eq, Structural)]
pub enum Action {
    /// Reply with `L(c)`.
    MeasureDirection,
    /// Reply with `c . c / L(c)`.
    ScoreDirection,
    /// Draw every entry of a new `f` uniformly between minus one and one, and
    /// reply with `L(f)`.
    Draw,
    /// Add `by` to every entry of `f`, and reply with `L(f)`.
    Nudge { by: u64 },
    /// Divide `f` by `shrink` where there is one. Then, with `l` the seminorm
    /// last replied, `g` a subgradient of the seminorm where `l` was measured
    /// and `s = c . f`, add `rate * (c * l - g * s) / (l * l)` to `f`, and
    /// reply with `L(f)`.
    Step { shrink: Option<u64>, rate: u64 },
    /// Divide `f` by `shrink` where there is one, and reply with `L(f)`.
    Settle { shrink: Option<u64> },
    /// Reply with `c . f / over`.
    Score { over: u64 },
    /// The search is over and this is the distance.
    Finish { distance: u64 },
}

/// The state of a search.
#[derive(Debug, Clone, Copy, PartialEq, Eq, Structural)]
pub struct Search {
    /// What the machine is waiting for.
    pub phase: Phase,
    /// How many climbs are behind it.
    pub restart: usize,
    /// How many steps of the current climb are behind it.
    pub iteration: usize,
    /// The best score so far.
    pub best: u64,
}

/// The larger of a seminorm and one; one where the seminorm is not a number.
pub open spec fn at_least_one(seminorm: u64) -> u64 {
    if gt(seminorm, ONE) {
        seminorm
    } else {
        ONE
    }
}

/// By what to divide an observable whose seminorm left the unit ball.
pub open spec fn shrink_for(seminorm: u64) -> Option<u64> {
    if gt(seminorm, ONE) {
        Some(seminorm)
    } else {
        None
    }
}

impl Search {
    /// The counters are within their limits.
    pub open spec fn wf(&self) -> bool {
        &&& self.restart < RESTARTS
        &&& self.iteration <= ITERATIONS
        &&& self.phase is Climb ==> self.iteration < ITERATIONS
    }

    /// The state before anything was measured.
    pub open spec fn initial() -> Search {
        Search { phase: Phase::Direction, restart: 0, iteration: 0, best: ZERO }
    }

    /// The head of the climbing loop: with `iteration` steps behind it and the
    /// seminorm at `seminorm`, the climb either takes one more step or ends.
    /// Either way the observable is first divided by `shrink`, if any.
    pub open spec fn climb_or_settle(
        self,
        iteration: usize,
        seminorm: u64,
        shrink: Option<u64>,
    ) -> (Search, Action) {
        if iteration >= ITERATIONS || le(seminorm, COLLAPSED) {
            (Search { phase: Phase::Settle, iteration, ..self }, Action::Settle { shrink })
        } else {
            (Search { phase: Phase::Climb, iteration, ..self }, Action::Step { shrink, rate: RATE })
        }
    }

    /// The best score once `score` has come in.
    pub open spec fn better(self, score: u64) -> u64 {
        if gt(score, self.best) {
            score
        } else {
            self.best
        }
    }

    /// The state and the request that follow when `reply` answers the pending
    /// request.
    pub open spec fn next(self, reply: u64) -> (Search, Action) {
        match self.phase {
            Phase::Direction => {
                if gt(reply, ZERO) {
                    (Search { phase: Phase::Baseline, ..self }, Action::ScoreDirection)
                } else {
                    (Search { phase: Phase::Start, best: ZERO, ..self }, Action::Draw)
                }
            },
            Phase::Baseline => (Search { phase: Phase::Start, best: reply, ..self }, Action::Draw),
            Phase::Start => {
                if lt(reply, DEGENERATE) {
                    (Search { phase: Phase::Nudged, ..self }, Action::Nudge { by: NUDGE })
                } else {
                    self.climb_or_settle(0, reply, None)
                }
            },
            Phase::Nudged => self.climb_or_settle(0, reply, None),
            Phase::Climb => self.climb_or_settle(
                (self.iteration + 1) as usize,
                reply,
                shrink_for(reply),
            ),
            Phase::Settle => (
                Search { phase: Phase::Score, ..self },
                Action::Score { over: at_least_one(reply) },
            ),
            Phase::Score => {
                if self.restart + 1 < RESTARTS {
                    (
                        Search {
                            phase: Phase::Start,
                            restart: (self.restart + 1) as usize,
                            iteration: 0,
                            best: self.better(reply),
                        },
                        Action::Draw,
                    )
                } else {
                    (
                        Search { phase: Phase::Done, best: self.better(reply), ..self },
                        Action::Finish { distance: abs(self.better(reply)) },
                    )
                }
            },
            Phase::Done => (self, Action::Finish { distance: abs(self.best) }),
        }
    }

    /// An upper bound on the replies that the search still takes.
    pub open spec fn remaining(self) -> nat {
        let later = (RESTARTS - 1 - self.restart) * (ITERATIONS + 4);
        let now = match self.phase {
            Phase::Direction => ITERATIONS + 6,
            Phase::Baseline => ITERATIONS + 5,
            Phase::Start => ITERATIONS + 4,
            Phase::Nudged => ITERATIONS + 3,
            Phase::Climb => ITERATIONS - self.iteration + 2,
            Phase::Settle => 2,
            Phase::Score => 1,
            Phase::Done => 0,
        };
        if self.phase is Done {
            0
        } else {
            (later + now) as nat
        }
    }

    /// Starts a search: nothing is measured yet, and the first request is for
    /// the seminorm of the direction.
    pub fn begin() -> (r: (Search, Action))
        ensures
            r.0 == Search::initial(),
            r.0.wf(),
            r.1 == Action::MeasureDirection,
    {
        (
            Search { phase: Phase::Direction, restart: 0, iteration: 0, best: ZERO },
            Action::MeasureDirection,
        )
    }

    fn head(self, iteration: usize, seminorm: u64, shrink: Option<u64>) -> (r: (Search, Action))
        ensures
            r == self.climb_or_settle(iteration, seminorm, shrink),
    {
        if iteration >= ITERATIONS || at_most(seminorm, COLLAPSED) {
            (Search { phase: Phase::Settle, iteration, ..self }, Action::Settle { shrink })
        } else {
            (Search { phase: Phase::Climb, iteration, ..self }, Action::Step { shrink, rate: RATE })
        }
    }

    /// Takes the reply to the pending request, and gives the next state and
    /// the next request. The counters stay within their limits, and a search
    /// that is not over comes closer to its end.
    pub fn advance(self, reply: u64) -> (r: (Search, Action))
        requires
            self.wf(),
        ensures
            r == self.next(reply),
            r.0.wf(),
            !(self.phase is Done) ==> r.0.remaining() < self.remaining(),
            r.1 is Finish <==> r.0.phase is Done,
            r.0.phase is Done ==> r.1 == (Action::Finish { distance: abs(r.0.best) }),
    {
        match self.phase {
            Phase::Direction => {
                if greater(reply, ZERO) {
                    (Search { phase: Phase::Baseline, ..self }, Action::ScoreDirection)
                } else {
                    (Search { phase: Phase::Start, best: ZERO, ..self }, Action::Draw)
                }
            },
            Phase::Baseline => (Search { phase: Phase::Start, best: reply, ..self }, Action::Draw),
            Phase::Start => {
                if less(reply, DEGENERATE) {
                    (Search { phase: Phase::Nudged, ..self }, Action::Nudge { by: NUDGE })
                } else {
                    self.head(0, reply, None)
                }
            },
            Phase::Nudged => self.head(0, reply, None),
            Phase::Climb => {
                let shrink: Option<u64> = if greater(reply, ONE) {
                    Some(reply)
                } else {
                    None
                };
                self.head(self.iteration + 1, reply, shrink)
            },
            Phase::Settle => {
                let over: u64 = if greater(reply, ONE) {
                    reply
                } else {
                    ONE
                };
                (Search { phase: Phase::Score, ..self }, Action::Score { over })
            },
            Phase::Score => {
                let best: u64 = if greater(reply, self.best) {
                    reply
                } else {
                    self.best
                };
                if self.restart + 1 < RESTARTS {
                    (
                        Search { phase: Phase::Start, restart: self.restart + 1, iteration: 0, best },
                        Action::Draw,
                    )
                } else {
                    (
                        Search { phase: Phase::Done, best, ..self },
                        Action::Finish { distance: absolute(best) },
                    )
                }
            },
            Phase::Done => (self, Action::Finish { distance: absolute(self.best) }),
        }
    }
}

/// The state after the replies have come in, one by one, from the start.
pub open spec fn state_after(replies: Seq<u64>) -> Search
    decreases replies.len(),
{
    if replies.len() == 0 {
        Search::initial()
    } else {
        state_after(replies.drop_last()).next(replies.last()).0
    }
}

/// The request that is pending after the replies have come in.
pub open spec fn request_after(replies: Seq<u64>) -> Action {
    if replies.len() == 0 {
        Action::MeasureDirection
    } else {
        state_after(replies.drop_last()).next(replies.last()).1
    }
}


/// Whatever the replies, the counters of the search stay within their limits,
/// and the replies taken and the replies still to come never add up to more
/// than the search had before it at the start.
pub proof fn lemma_search_is_bounded(replies: Seq<u64>)
    ensures
        state_after(replies).wf(),
        state_after(replies).phase is Done || state_after(replies).remaining() + replies.len()
            <= Search::initial().remaining(),
    decreases replies.len(),
{
    if replies.len() > 0 {
        lemma_search_is_bounded(replies.drop_last());
    }
}

/// A search is over once it has taken two replies for the direction and, for
/// each restart, one reply for the start, one for the nudge, one for each
/// step, one for the final seminorm and one for the score.
pub proof fn lemma_search_ends(replies: Seq<u64>)
    requires
        replies.len() >= 2 + RESTARTS * (ITERATIONS + 4),
    ensures
        state_after(replies).phase is Done,
        request_after(replies) is Finish,
{
    lemma_search_is_bounded(replies);
    assert(Search::initial().remaining() == 7 * 604 + 606);
    assert(2 + RESTARTS * (ITERATIONS + 4) == 4834);
    let before = state_after(replies.drop_last());
    lemma_search_is_bounded(replies.drop_last());
    assert(state_after(replies) == before.next(replies.last()).0);
    assert(request_after(replies) == before.next(replies.last()).1);
}

/// Once a search is over, further replies change nothing.
pub proof fn lemma_search_stays_over(replies: Seq<u64>, reply: u64)
    requires
        state_after(replies).phase is Done,
    ensures
        state_after(replies.push(reply)) == state_after(replies),
        request_after(replies.push(reply)) == (Action::Finish {
            distance: abs(state_after(replies).best),
        }),
{
    assert(replies.push(reply).drop_last() =~= replies);
}

/// Which request is pending tells what the machine is waiting for, and the
/// other way round.
pub proof fn lemma_request_matches_phase(replies: Seq<u64>)
    ensures
        ({
            let phase = state_after(replies).phase;
            let request = request_after(replies);
            &&& phase is Direction <==> request is MeasureDirection
            &&& phase is Baseline <==> request is ScoreDirection
            &&& phase is Start <==> request is Draw
            &&& phase is Nudged <==> request is Nudge
            &&& phase is Climb <==> request is Step
            &&& phase is Settle <==> request is Settle
            &&& phase is Score <==> request is Score
            &&& phase is Done <==> request is Finish
        }),
{
    if replies.len() > 0 {
        lemma_search_is_bounded(replies.drop_last());
    }
}

/// Whether no reply to a request for the seminorm of the direction or for a
/// score is greater than zero.
pub open spec fn never_positive(replies: Seq<u64>) -> bool {
    forall|k: int|
        0 <= k < replies.len() && (request_after(replies.take(k)) is MeasureDirection
            || request_after(replies.take(k)) is Score) ==> !gt(#[trigger] replies[k], ZERO)
}

/// Where the direction has no seminorm above zero and no score is above zero,
/// the best score stays at zero, and a search that finishes finishes with the
/// distance zero.
pub proof fn lemma_nothing_positive_gives_zero(replies: Seq<u64>)
    requires
        never_positive(replies),
    ensures
        state_after(replies).best == ZERO,
        !(state_after(replies).phase is Baseline),
        request_after(replies) is Finish ==> request_after(replies) == (Action::Finish {
            distance: ZERO,
        }),
    decreases replies.len(),
{
    if replies.len() > 0 {
        let front = replies.drop_last();
        assert forall|k: int|
            0 <= k < front.len() && (request_after(front.take(k)) is MeasureDirection
                || request_after(front.take(k)) is Score) implies !gt(#[trigger] front[k], ZERO) by {
            assert(front.take(k) =~= replies.take(k));
            assert(front[k] == replies[k]);
        }
        lemma_nothing_positive_gives_zero(front);
        lemma_request_matches_phase(front);
        assert(replies.take(replies.len() - 1) =~= front);
        let last = replies[replies.len() - 1];
        assert(request_after(front) is MeasureDirection || request_after(front) is Score ==> !gt(
            last,
            ZERO,
        ));
    }
}

/// Whether every reply is what `answer` gives after the replies before it.
/// Such replies come from a caller whose arithmetic depends on nothing but
/// the requests made so far: one that starts its random source afresh with
/// each search.
pub open spec fn answered_by(replies: Seq<u64>, answer: spec_fn(Seq<u64>) -> u64) -> bool {
    forall|k: int| 0 <= k < replies.len() ==> #[trigger] replies[k] == answer(replies.take(k))
}

/// Replies that come from the same answers agree as far as both go.
pub proof fn lemma_same_answers_same_replies(
    a: Seq<u64>,
    b: Seq<u64>,
    answer: spec_fn(Seq<u64>) -> u64,
    n: int,
)
    requires
        answered_by(a, answer),
        answered_by(b, answer),
        0 <= n <= a.len(),
        n <= b.len(),
    ensures
        a.take(n) == b.take(n),
    decreases n,
{
    if n > 0 {
        lemma_same_answers_same_replies(a, b, answer, n - 1);
        assert(a[n - 1] == answer(a.take(n - 1)));
        assert(b[n - 1] == answer(b.take(n - 1)));
        assert(a.take(n) =~= a.take(n - 1).push(a[n - 1]));
        assert(b.take(n) =~= b.take(n - 1).push(b[n - 1]));
    } else {
        assert(a.take(0) =~= b.take(0));
    }
}

/// A search that is over after some of the replies is over after all of
/// them, in the same state and with the same distance.
pub proof fn lemma_search_over_early(replies: Seq<u64>, n: int)
    requires
        0 <= n <= replies.len(),
        state_after(replies.take(n)).phase is Done,
    ensures
        state_after(replies) == state_after(replies.take(n)),
        request_after(replies) == request_after(replies.take(n)),
    decreases replies.len() - n,
{
    if n < replies.len() {
        let front = replies.drop_last();
        assert(front.take(n) =~= replies.take(n));
        lemma_search_over_early(front, n);
        let early = replies.take(n);
        assert(request_after(early) == (Action::Finish { distance: abs(state_after(early).best) })) by {
            lemma_search_is_bounded(early.drop_last());
        }
    } else {
        assert(replies.take(n) =~= replies);
    }
}

/// Two searches whose replies come from the same answers finish with the same
/// distance.
pub proof fn lemma_same_answers_same_distance(
    a: Seq<u64>,
    b: Seq<u64>,
    answer: spec_fn(Seq<u64>) -> u64,
)
    requires
        answered_by(a, answer),
        answered_by(b, answer),
        request_after(a) is Finish,
        request_after(b) is Finish,
    ensures
        request_after(a) == request_after(b),
{
    lemma_request_matches_phase(a);
    lemma_request_matches_phase(b);
    if a.len() <= b.len() {
        lemma_same_answers_same_replies(a, b, answer, a.len() as int);
        assert(a.take(a.len() as int) =~= a);
        lemma_search_over_early(b, a.len() as int);
    } else {
        lemma_same_answers_same_replies(a, b, answer, b.len() as int);
        assert(b.take(b.len() as int) =~= b);
        lemma_search_over_early(a, b.len() as int);
    }
}

} // verus!
