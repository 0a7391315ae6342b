//! The spectral triple of a finite Markov chain, and the distance between two
//! of its states.

use vstd::prelude::*;
use crate::binary64::{abs, absolute, greater, gt, NEG_ONE, ONE, SIGN_BIT, ZERO};
use crate::error::ConnesError;
use crate::matrix::Matrix;
use crate::search::{request_after, state_after, Action, Phase, Search};
use crate::validate::{
    generator_verdict,
    none_non_positive,
    stationary_verdict,
    transition_verdict,
    validate_generator,
    validate_stationary,
    validate_transition,
};

verus! {

/// A generator `L`, a stationary distribution `pi` and a regularizer
/// `epsilon`.
#[derive(Debug, Clone)]
pub struct SpectralTriple {
    /// The generator, whose rows add up to zero.
    pub generator: Matrix,
    /// The stationary distribution: positive entries that add up to one.
    pub stationary: Vec<u64>,
    /// The regularizer, greater than zero.
    pub epsilon: u64,
}

/// The verdict on a generator, a distribution and a regularizer that are
/// offered as a triple: the generator is judged first, then the distribution,
/// then the regularizer, which has to be a number greater than zero.
pub open spec fn triple_verdict(
    rows: usize,
    cols: usize,
    row_sums: Seq<u64>,
    stationary: Seq<u64>,
    sum: u64,
    excess: u64,
    epsilon: u64,
) -> Result<(), ConnesError> {
    if generator_verdict(rows, cols, row_sums) is Err {
        generator_verdict(rows, cols, row_sums)
    } else if stationary_verdict(stationary, sum, excess) is Err {
        stationary_verdict(stationary, sum, excess)
    } else if !gt(epsilon, ZERO) {
        Err(ConnesError::NonPositiveEpsilon(epsilon))
    } else {
        Ok(())
    }
}

/// A regularizer that is not a number greater than zero is refused, and
/// reported, whenever the generator and the distribution that come with it
/// are valid.
pub proof fn lemma_non_positive_epsilon_is_refused(
    rows: usize,
    cols: usize,
    row_sums: Seq<u64>,
    stationary: Seq<u64>,
    sum: u64,
    excess: u64,
    epsilon: u64,
)
    requires
        generator_verdict(rows, cols, row_sums) is Ok,
        stationary_verdict(stationary, sum, excess) is Ok,
        !gt(epsilon, ZERO),
    ensures
        triple_verdict(rows, cols, row_sums, stationary, sum, excess, epsilon) == Err::<
            (),
            ConnesError,
        >(ConnesError::NonPositiveEpsilon(epsilon)),
{
}

/// The verdict on a triple that is built from a transition matrix: the
/// transition matrix is judged first, then the estimated distribution, then
/// the generator that was derived, then the regularizer.
pub open spec fn transition_triple_verdict(
    transition_rows: usize,
    transition_cols: usize,
    row_excess: Seq<u64>,
    rows: usize,
    cols: usize,
    row_sums: Seq<u64>,
    stationary: Seq<u64>,
    sum: u64,
    excess: u64,
    epsilon: u64,
) -> Result<(), ConnesError> {
    if transition_verdict(transition_rows, transition_cols, row_excess) is Err {
        transition_verdict(transition_rows, transition_cols, row_excess)
    } else if stationary_verdict(stationary, sum, excess) is Err {
        stationary_verdict(stationary, sum, excess)
    } else {
        triple_verdict(rows, cols, row_sums, stationary, sum, excess, epsilon)
    }
}

/// The verdict on a pair of states of a chain with `n` states.
pub open spec fn states_verdict(n: usize, state_i: usize, state_j: usize) -> Result<
    (),
    ConnesError,
> {
    if state_i >= n || state_j >= n {
        Err(
            ConnesError::DimensionMismatch {
                len: (if state_i >= state_j {
                    state_i + 1
                } else {
                    state_j + 1
                }) as usize,
                n,
            },
        )
    } else {
        Ok(())
    }
}

/// The difference of the indicator vectors of two states: one at `state_i`,
/// minus one at `state_j`, zero elsewhere, and zero everywhere where the two
/// states are the same.
pub open spec fn direction_of(n: usize, state_i: usize, state_j: usize) -> Seq<u64> {
    Seq::new(
        n as nat,
        |k: int|
            if state_i == state_j {
                ZERO
            } else if k == state_i {
                ONE
            } else if k == state_j {
                NEG_ONE
            } else {
                ZERO
            },
    )
}

impl SpectralTriple {
    /// The generator is square, no entry of the distribution is zero or less,
    /// and the regularizer is a number greater than zero.
    pub open spec fn wf(&self) -> bool {
        &&& self.generator.wf()
        &&& self.generator.rows == self.generator.cols
        &&& none_non_positive(self.stationary@)
        &&& gt(self.epsilon, ZERO)
    }

    /// Makes a triple of a generator, a stationary distribution and a
    /// regularizer, if all three are valid.
    ///
    /// `row_sums` holds the sum of each row of the generator, `sum` the sum of
    /// the distribution, and `excess` that sum less one.
    pub fn new(
        generator: Matrix,
        row_sums: &Vec<u64>,
        stationary: Vec<u64>,
        sum: u64,
        excess: u64,
        epsilon: u64,
    ) -> (r: Result<SpectralTriple, ConnesError>)
        requires
            generator.wf(),
        ensures
            match triple_verdict(
                generator.rows,
                generator.cols,
                row_sums@,
                stationary@,
                sum,
                excess,
                epsilon,
            ) {
                Ok(()) => r == Ok::<SpectralTriple, ConnesError>(
                    SpectralTriple { generator, stationary, epsilon },
                ) && r->Ok_0.wf(),
                Err(e) => r == Err::<SpectralTriple, ConnesError>(e),
            },
    {
        match validate_generator(&generator, row_sums) {
            Err(e) => {
                return Err(e);
            },
            Ok(()) => {},
        }
        match validate_stationary(&stationary, sum, excess) {
            Err(e) => {
                return Err(e);
            },
            Ok(()) => {},
        }
        if !greater(epsilon, ZERO) {
            return Err(ConnesError::NonPositiveEpsilon(epsilon));
        }
        Ok(SpectralTriple { generator, stationary, epsilon })
    }

    /// Makes a triple of a generator and a regularizer, with a stationary
    /// distribution that was estimated from the generator.
    ///
    /// `row_sums` holds the sum of each row of the generator. `stationary` is
    /// the estimate after it was divided by its sum, `sum` is what it then
    /// adds up to, and `excess` is that sum less one.
    pub fn from_generator(
        generator: Matrix,
        row_sums: &Vec<u64>,
        stationary: Vec<u64>,
        sum: u64,
        excess: u64,
        epsilon: u64,
    ) -> (r: Result<SpectralTriple, ConnesError>)
        requires
            generator.wf(),
        ensures
            match triple_verdict(
                generator.rows,
                generator.cols,
                row_sums@,
                stationary@,
                sum,
                excess,
                epsilon,
            ) {
                Ok(()) => r == Ok::<SpectralTriple, ConnesError>(
                    SpectralTriple { generator, stationary, epsilon },
                ) && r->Ok_0.wf(),
                Err(e) => r == Err::<SpectralTriple, ConnesError>(e),
            },
    {
        match validate_generator(&generator, row_sums) {
            Err(e) => {
                return Err(e);
            },
            Ok(()) => {},
        }
        match validate_stationary(&stationary, sum, excess) {
            Err(e) => {
                return Err(e);
            },
            Ok(()) => {},
        }
        Self::new(generator, row_sums, stationary, sum, excess, epsilon)
    }

    /// Makes a triple of a transition matrix and a regularizer. The generator
    /// is the transition matrix less the identity, and the stationary
    /// distribution was estimated from the transition matrix.
    ///
    /// `row_excess` holds the sum of each row of the transition matrix, less
    /// one. `generator` is the generator and `row_sums` the sum of each of its
    /// rows. `stationary` is the estimate after it was divided by its sum,
    /// `sum` is what it then adds up to, and `excess` is that sum less one.
    pub fn from_transition(
        transition: &Matrix,
        row_excess: &Vec<u64>,
        generator: Matrix,
        row_sums: &Vec<u64>,
        stationary: Vec<u64>,
        sum: u64,
        excess: u64,
        epsilon: u64,
    ) -> (r: Result<SpectralTriple, ConnesError>)
        requires
            generator.wf(),
        ensures
            match transition_triple_verdict(
                transition.rows,
                transition.cols,
                row_excess@,
                generator.rows,
                generator.cols,
                row_sums@,
                stationary@,
                sum,
                excess,
                epsilon,
            ) {
                Ok(()) => r == Ok::<SpectralTriple, ConnesError>(
                    SpectralTriple { generator, stationary, epsilon },
                ) && r->Ok_0.wf(),
                Err(e) => r == Err::<SpectralTriple, ConnesError>(e),
            },
    {
        match validate_transition(transition, row_excess) {
            Err(e) => {
                return Err(e);
            },
            Ok(()) => {},
        }
        match validate_stationary(&stationary, sum, excess) {
            Err(e) => {
                return Err(e);
            },
            Ok(()) => {},
        }
        Self::new(generator, row_sums, stationary, sum, excess, epsilon)
    }

    /// The number of states of the chain.
    pub fn states(&self) -> (n: usize)
        ensures
            n == self.generator.rows,
    {
        self.generator.rows
    }

    /// Accepts two states of the chain; otherwise reports how many states the
    /// larger index would take.
    pub fn check_states(&self, state_i: usize, state_j: usize) -> (r: Result<(), ConnesError>)
        requires
            state_i < usize::MAX,
            state_j < usize::MAX,
        ensures
            r == states_verdict(self.generator.rows, state_i, state_j),
    {
        let n: usize = self.generator.rows;
        if state_i >= n || state_j >= n {
            let larger: usize = if state_i >= state_j {
                state_i
            } else {
                state_j
            };
            return Err(ConnesError::DimensionMismatch { len: larger + 1, n });
        }
        Ok(())
    }

    /// The difference of the indicator vectors of two states of the chain.
    pub fn direction(&self, state_i: usize, state_j: usize) -> (c: Vec<u64>)
        requires
            state_i < self.generator.rows,
            state_j < self.generator.rows,
        ensures
            c@ == direction_of(self.generator.rows, state_i, state_j),
    {
        let n: usize = self.generator.rows;
        let mut c: Vec<u64> = Vec::new();
        let mut k: usize = 0;
        while k < n
            invariant
                k <= n,
                n == self.generator.rows,
                c@.len() == k,
                forall|m: int| 0 <= m < k ==> c@[m] == direction_of(n, state_i, state_j)[m],
            decreases n - k,
        {
            if state_i == state_j {
                c.push(ZERO);
            } else if k == state_i {
                c.push(ONE);
            } else if k == state_j {
                c.push(NEG_ONE);
            } else {
                c.push(ZERO);
            }
            k += 1;
        }
        proof {
            assert(c@ =~= direction_of(n, state_i, state_j));
        }
        c
    }

    /// The Connes distance between two states, with `evaluate` doing the
    /// arithmetic.
    ///
    /// States outside the chain are refused. Otherwise the search runs from
    /// its start to its end: `evaluate` is handed the direction and one
    /// request after the other, each request is the one that the search makes
    /// after the replies so far, and the distance is what the search finishes
    /// with. It is the absolute value of a score, so its sign bit is clear.
    pub fn connes_distance<F: Fn(&Vec<u64>, Action) -> u64>(
        &self,
        state_i: usize,
        state_j: usize,
        evaluate: F,
    ) -> (r: Result<u64, ConnesError>)
        requires
            state_i < usize::MAX,
            state_j < usize::MAX,
            forall|c: &Vec<u64>, request: Action| call_requires(evaluate, (c, request)),
        ensures
            match states_verdict(self.generator.rows, state_i, state_j) {
                Err(e) => r == Err::<u64, ConnesError>(e),
                Ok(()) => r matches Ok(distance) && distance < SIGN_BIT && exists|
                    c: &Vec<u64>,
                    replies: Seq<u64>,
                |
                    {
                        &&& c@ == direction_of(self.generator.rows, state_i, state_j)
                        &&& forall|k: int|
                            0 <= k < replies.len() ==> call_ensures(
                                evaluate,
                                (c, request_after(replies.take(k))),
                                #[trigger] replies[k],
                            )
                        &&& request_after(replies) == (Action::Finish { distance })
                    },
            },
    {
        match self.check_states(state_i, state_j) {
            Err(e) => {
                return Err(e);
            },
            Ok(()) => {},
        }
        let c: Vec<u64> = self.direction(state_i, state_j);
        let begun = Search::begin();
        let mut state: Search = begun.0;
        let mut request: Action = begun.1;
        let ghost mut replies: Seq<u64> = Seq::empty();
        while state.phase != Phase::Done
            invariant
                state.wf(),
                state == state_after(replies),
                request == request_after(replies),
                state.phase is Done ==> request == (Action::Finish { distance: abs(state.best) }),
                forall|c: &Vec<u64>, request: Action| call_requires(evaluate, (c, request)),
                forall|k: int|
                    0 <= k < replies.len() ==> call_ensures(
                        evaluate,
                        (&c, request_after(replies.take(k))),
                        #[trigger] replies[k],
                    ),
            decreases state.remaining(),
        {
            let reply: u64 = evaluate(&c, request);
            let advanced = state.advance(reply);
            proof {
                let longer = replies.push(reply);
                assert(longer.drop_last() =~= replies);
                assert forall|k: int| 0 <= k < longer.len() implies call_ensures(
                    evaluate,
                    (&c, request_after(longer.take(k))),
                    #[trigger] longer[k],
                ) by {
                    if k < replies.len() {
                        assert(longer.take(k) =~= replies.take(k));
                    } else {
                        assert(longer.take(k) =~= replies);
                    }
                }
                replies = longer;
            }
            state = advanced.0;
            request = advanced.1;
        }
        Ok(absolute(state.best))
    }
}

} // verus!
