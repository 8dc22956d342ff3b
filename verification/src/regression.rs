//! The regression: its data, its parameters, and the course of a fit.

use vstd::prelude::*;
use crate::error::ShapeMismatch;
use crate::matrix::{Grid, Matrix};
use crate::number::{ONE, ZERO};

verus! {

/// The rounds of a fit, unless the caller sets another count.
pub const DEFAULT_ITERATIONS: i64 = 1000;

/// The learning rate, unless the caller sets another: the number nearest to
/// one hundredth.
pub const DEFAULT_LEARNING_RATE: u64 = 0x3F84_7AE1_47AE_147B;

/// What a regression holds.
pub struct Model {
    /// The samples, one row each: the bias column first, then the features.
    pub design: Grid,
    /// The target of each sample.
    pub targets: Seq<u64>,
    /// The parameters: the bias weight first, then one weight for each feature.
    pub theta: Seq<u64>,
    /// The rounds that a fit runs.
    pub iterations: i64,
    /// The step size of a round.
    pub learning_rate: u64,
}

/// The state of a fit: the rounds that are still due.
#[derive(Debug, Clone, Copy, PartialEq, Eq, Structural)]
pub struct FitState {
    pub due: u64,
}

/// What the caller reports to `fit`.
#[derive(Debug)]
pub enum FitEvent {
    /// A fit is to begin.
    Start,
    /// The round that was asked for is done, and these are the parameters that
    /// it computed.
    Round(Vec<u64>),
}

/// What `fit` asks of the caller.
#[derive(Debug, Clone, Copy, PartialEq, Eq, Structural)]
pub enum FitAction {
    /// Compute one round from the current parameters, and report it.
    Descend,
    /// Nothing: the fit is over.
    Finish,
}

impl FitState {
    /// What is asked of the caller in this state.
    pub open spec fn action(self) -> FitAction {
        if self.due > 0 {
            FitAction::Descend
        } else {
            FitAction::Finish
        }
    }
}

impl Model {
    /// The shapes agree, and the first column of the design matrix is one.
    pub open spec fn wf(self) -> bool {
        &&& self.design.wf()
        &&& self.design.width >= 1
        &&& forall|r: int| 0 <= r < self.design.rows.len() ==> (#[trigger] self.design.rows[r])[0] == ONE
        &&& self.targets.len() == self.design.rows.len()
        &&& self.theta.len() == self.design.width
    }

    /// The number of samples.
    pub open spec fn samples(self) -> nat {
        self.design.rows.len()
    }

    /// The number of features of a sample.
    pub open spec fn features(self) -> nat {
        (self.design.width - 1) as nat
    }

    /// The regression that is made of the samples `x` and the targets `y`.
    pub open spec fn fresh(x: Grid, y: Seq<u64>) -> Model {
        Model {
            design: x.prepend_column(ONE),
            targets: y,
            theta: Seq::new(x.width + 1, |i: int| ZERO),
            iterations: DEFAULT_ITERATIONS,
            learning_rate: DEFAULT_LEARNING_RATE,
        }
    }

    /// The state and the request with which a fit begins: `iterations` rounds
    /// are due, none if `iterations` is not positive.
    pub open spec fn start(self) -> (FitState, FitAction) {
        let state = FitState { due: if self.iterations > 0 { self.iterations as u64 } else { 0 } };
        (state, state.action())
    }

    /// The regression and the answer after a round has handed back `theta`.
    ///
    /// Where no round is due, nothing changes. Where `theta` has not the
    /// length of the parameters, nothing changes and the fit fails. Else
    /// `theta` takes the parameters' place and one round less is due.
    pub open spec fn round(self, state: FitState, theta: Seq<u64>) -> (
        Model,
        Result<(FitState, FitAction), ShapeMismatch>,
    ) {
        if state.due == 0 {
            (self, Ok((state, FitAction::Finish)))
        } else if theta.len() != self.theta.len() {
            (
                self,
                Err(
                    ShapeMismatch::Parameters {
                        expected: self.theta.len() as usize,
                        found: theta.len() as usize,
                    },
                ),
            )
        } else {
            let left = FitState { due: (state.due - 1) as u64 };
            (Model { theta, ..self }, Ok((left, left.action())))
        }
    }

    /// The regression after the rounds that are due in `state`, where each
    /// round hands back `step` of the parameters that it found. A round that
    /// fails ends the run.
    pub open spec fn run(self, state: FitState, step: spec_fn(Seq<u64>) -> Seq<u64>) -> Model
        decreases state.due,
    {
        if state.due == 0 {
            self
        } else {
            match self.round(state, step(self.theta)) {
                (next, Ok((left, _))) => next.run(left, step),
                (next, Err(_)) => next,
            }
        }
    }

    /// The regression after a whole fit, where each round hands back `step`
    /// of the parameters that it found.
    pub open spec fn fit(self, step: spec_fn(Seq<u64>) -> Seq<u64>) -> Model {
        self.run(self.start().0, step)
    }
}

/// Linear regression by batch gradient descent.
#[derive(Debug)]
pub struct LinearRegression {
    x: Matrix,
    y: Vec<u64>,
    theta: Vec<u64>,
    iterations: i64,
    learning_rate: u64,
}

impl View for LinearRegression {
    type V = Model;

    closed spec fn view(&self) -> Model {
        Model {
            design: self.x@,
            targets: self.y@,
            theta: self.theta@,
            iterations: self.iterations,
            learning_rate: self.learning_rate,
        }
    }
}

impl LinearRegression {
    #[verifier::type_invariant]
    spec fn inv(&self) -> bool {
        self@.wf()
    }

    /// The samples with the bias column in front.
    pub fn with_bias(x: Matrix) -> (out: Matrix)
        requires
            x@.has_room(),
        ensures
            out@ == x@.prepend_column(ONE),
    {
        x.prepend_column(ONE)
    }

    /// The regression of the targets `y` on the samples `x`, one row of `x`
    /// for each sample: all parameters zero, `DEFAULT_ITERATIONS` rounds to a
    /// fit, learning rate `DEFAULT_LEARNING_RATE`.
    ///
    /// Fails where `y` has not one target for each row of `x`.
    pub fn new(x: Matrix, y: Vec<u64>) -> (out: Result<LinearRegression, ShapeMismatch>)
        requires
            x@.has_room(),
        ensures
            y@.len() == x@.rows.len() ==> out is Ok && out->Ok_0@ == Model::fresh(x@, y@),
            y@.len() != x@.rows.len() ==> out is Err && out->Err_0 == (ShapeMismatch::Targets {
                samples: x@.rows.len() as usize,
                targets: y@.len() as usize,
            }),
    {
        let samples = x.rows();
        if y.len() != samples {
            return Err(ShapeMismatch::Targets { samples, targets: y.len() });
        }
        let n = x.cols();
        let ghost grid = x@;
        proof {
            x.lemma_view_wf();
        }
        let design = Self::with_bias(x);
        let theta = vec![ZERO; n + 1];
        assert(theta@ =~= Seq::new(grid.width + 1, |i: int| ZERO));
        Ok(
            LinearRegression {
                x: design,
                y,
                theta,
                iterations: DEFAULT_ITERATIONS,
                learning_rate: DEFAULT_LEARNING_RATE,
            },
        )
    }

    /// The design matrix: a row for each sample, the bias column first.
    pub fn design(&self) -> (m: &Matrix)
        ensures
            m@ == self@.design,
            self@.wf(),
    {
        proof {
            use_type_invariant(self);
        }
        &self.x
    }

    /// The target of each sample.
    pub fn targets(&self) -> (y: &Vec<u64>)
        ensures
            y@ == self@.targets,
            self@.wf(),
    {
        proof {
            use_type_invariant(self);
        }
        &self.y
    }

    /// The parameters: the bias weight, then one weight for each feature.
    pub fn theta(&self) -> (theta: &Vec<u64>)
        ensures
            theta@ == self@.theta,
            self@.wf(),
    {
        proof {
            use_type_invariant(self);
        }
        &self.theta
    }

    /// The rounds that a fit runs.
    pub fn iterations(&self) -> (n: i64)
        ensures
            n == self@.iterations,
    {
        self.iterations
    }

    /// The step size of a round.
    pub fn learning_rate(&self) -> (rate: u64)
        ensures
            rate == self@.learning_rate,
    {
        self.learning_rate
    }

    /// Sets the rounds that a fit runs. Any count is taken: a fit of a count
    /// that is not positive runs no round.
    pub fn set_iterations(&mut self, n: i64)
        ensures
            final(self)@ == (Model { iterations: n, ..old(self)@ }),
    {
        proof {
            use_type_invariant(&*self);
        }
        self.iterations = n;
    }

    /// Sets the step size of a round. Any number is taken.
    pub fn set_learning_rate(&mut self, rate: u64)
        ensures
            final(self)@ == (Model { learning_rate: rate, ..old(self)@ }),
    {
        proof {
            use_type_invariant(&*self);
        }
        self.learning_rate = rate;
    }

    /// One step of a fit: takes the state of the fit and what the caller
    /// reports, and gives the next state and what is asked of the caller.
    ///
    /// A fit is gradient descent in `iterations` rounds, one after the other,
    /// each from the parameters that the round before it left. The arithmetic
    /// of a round is the caller's. The caller reports `Start`, and then, as
    /// long as the answer is `Descend`, computes one round from the current
    /// parameters and reports it. A fit never sets the parameters back to
    /// zero, and it takes a round's parameters as they are, finite or not.
    pub fn fit(&mut self, state: FitState, event: FitEvent) -> (out: Result<
        (FitState, FitAction),
        ShapeMismatch,
    >)
        ensures
            event is Start ==> final(self)@ == old(self)@ && out == Ok::<
                (FitState, FitAction),
                ShapeMismatch,
            >(old(self)@.start()),
            event matches FitEvent::Round(theta) ==> (final(self)@, out) == old(self)@.round(
                state,
                theta@,
            ),
    {
        proof {
            use_type_invariant(&*self);
        }
        match event {
            FitEvent::Start => {
                let begun = FitState {
                    due: if self.iterations > 0 {
                        self.iterations as u64
                    } else {
                        0
                    },
                };
                Ok((begun, request(begun)))
            },
            FitEvent::Round(theta) => {
                if state.due == 0 {
                    Ok((state, FitAction::Finish))
                } else if theta.len() != self.theta.len() {
                    Err(
                        ShapeMismatch::Parameters {
                            expected: self.theta.len(),
                            found: theta.len(),
                        },
                    )
                } else {
                    self.theta = theta;
                    let left = FitState { due: state.due - 1 };
                    Ok((left, request(left)))
                }
            },
        }
    }

    /// The design matrix of the samples `x`, whose product with the
    /// parameters is the prediction for each sample: `x` with the bias column
    /// in front.
    ///
    /// Fails where the rows of `x` have not the regression's feature count.
    pub fn predict(&self, x: Matrix) -> (out: Result<Matrix, ShapeMismatch>)
        requires
            x@.has_room(),
        ensures
            x@.width == self@.features() ==> out is Ok && out->Ok_0@ == x@.prepend_column(ONE),
            x@.width != self@.features() ==> out is Err && out->Err_0 == (
            ShapeMismatch::Features {
                expected: self@.features() as usize,
                found: x@.width as usize,
            }),
    {
        proof {
            use_type_invariant(self);
        }
        let expected = self.x.cols() - 1;
        let found = x.cols();
        if found != expected {
            return Err(ShapeMismatch::Features { expected, found });
        }
        Ok(Self::with_bias(x))
    }
}

/// What is asked of the caller in `state`.
fn request(state: FitState) -> (action: FitAction)
    ensures
        action == state.action(),
{
    if state.due > 0 {
        FitAction::Descend
    } else {
        FitAction::Finish
    }
}

} // verus!
