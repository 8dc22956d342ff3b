//! What holds of every regression and of every fit.

use vstd::prelude::*;
use crate::matrix::Grid;
use crate::number::{ONE, ZERO};
use crate::regression::{FitAction, FitState, Model};

verus! {

/// A fresh regression has its shapes in order: it has one parameter for the
/// bias and one for each feature, all of them zero, and its design matrix is
/// the samples with a first column that is one in every row.
pub proof fn lemma_fresh(x: Grid, y: Seq<u64>)
    requires
        x.wf(),
        y.len() == x.rows.len(),
    ensures
        Model::fresh(x, y).wf(),
        Model::fresh(x, y).samples() == x.rows.len(),
        Model::fresh(x, y).features() == x.width,
        Model::fresh(x, y).theta.len() == x.width + 1,
        forall|i: int| 0 <= i <= x.width ==> Model::fresh(x, y).theta[i] == ZERO,
        forall|r: int| 0 <= r < x.rows.len() ==> Model::fresh(x, y).design.rows[r][0] == ONE,
        forall|r: int, c: int|
            0 <= r < x.rows.len() && 0 <= c < x.width ==> Model::fresh(x, y).design.rows[r][c + 1]
                == x.rows[r][c],
{
}

/// A round changes nothing but the parameters, and not their count: in a
/// regression whose shapes are in order they stay so, and the first column of
/// the design matrix stays one.
pub proof fn lemma_round_keeps_shape(m: Model, state: FitState, theta: Seq<u64>)
    requires
        m.wf(),
    ensures
        m.round(state, theta).0.wf(),
        m.round(state, theta).0.theta.len() == m.theta.len(),
        m.round(state, theta).0 == (Model { theta: m.round(state, theta).0.theta, ..m }),
{
}

/// A fit changes nothing but the parameters, and not their count, whatever
/// the rounds hand back.
pub proof fn lemma_fit_keeps_shape(m: Model, step: spec_fn(Seq<u64>) -> Seq<u64>)
    requires
        m.wf(),
    ensures
        m.fit(step).wf(),
        m.fit(step).theta.len() == m.theta.len(),
        m.fit(step) == (Model { theta: m.fit(step).theta, ..m }),
{
    lemma_run_keeps_shape(m, m.start().0, step);
}

/// A run changes nothing but the parameters, and not their count.
pub proof fn lemma_run_keeps_shape(
    m: Model,
    state: FitState,
    step: spec_fn(Seq<u64>) -> Seq<u64>,
)
    requires
        m.wf(),
    ensures
        m.run(state, step).wf(),
        m.run(state, step).theta.len() == m.theta.len(),
        m.run(state, step) == (Model { theta: m.run(state, step).theta, ..m }),
    decreases state.due,
{
    if state.due > 0 {
        match m.round(state, step(m.theta)) {
            (next, Ok((left, _))) => {
                lemma_run_keeps_shape(next, left, step);
            },
            (next, Err(_)) => {},
        }
    }
}

/// A fit whose iteration count is not positive asks for no round and leaves
/// the regression as it is.
pub proof fn lemma_fit_without_rounds(m: Model, step: spec_fn(Seq<u64>) -> Seq<u64>)
    requires
        m.iterations <= 0,
    ensures
        m.start() == (FitState { due: 0 }, FitAction::Finish),
        m.fit(step) == m,
{
}

/// A fit runs as many rounds as its iteration count says, each from the
/// parameters that the round before it left: where every round hands back as
/// many parameters as it found, the parameters after the fit are `step`
/// applied that many times.
pub proof fn lemma_run_is_repeated_step(
    m: Model,
    state: FitState,
    step: spec_fn(Seq<u64>) -> Seq<u64>,
)
    requires
        forall|theta: Seq<u64>| (#[trigger] step(theta)).len() == theta.len(),
    ensures
        m.run(state, step).theta == repeated(step, state.due as nat, m.theta),
    decreases state.due,
{
    if state.due > 0 {
        let left = FitState { due: (state.due - 1) as u64 };
        lemma_run_is_repeated_step(Model { theta: step(m.theta), ..m }, left, step);
    }
}

/// `step` applied `n` times, beginning with `theta`.
pub open spec fn repeated(step: spec_fn(Seq<u64>) -> Seq<u64>, n: nat, theta: Seq<u64>) -> Seq<u64>
    decreases n,
{
    if n == 0 {
        theta
    } else {
        repeated(step, (n - 1) as nat, step(theta))
    }
}

/// A run of `a` rounds and then a run of `b` rounds is a run of `a + b`
/// rounds: the second run goes on where the first one ended.
pub proof fn lemma_run_resumes(
    m: Model,
    a: FitState,
    b: FitState,
    step: spec_fn(Seq<u64>) -> Seq<u64>,
)
    requires
        a.due + b.due <= u64::MAX,
    ensures
        m.run(a, step).run(b, step) == m.run(FitState { due: (a.due + b.due) as u64 }, step),
    decreases a.due,
{
    if a.due > 0 {
        match m.round(a, step(m.theta)) {
            (next, Ok((left, _))) => {
                lemma_run_resumes(next, left, b, step);
            },
            (next, Err(_)) => {},
        }
    }
}

/// The iteration count has no part in a run once the run has begun.
pub proof fn lemma_run_ignores_iterations(
    m: Model,
    n: i64,
    state: FitState,
    step: spec_fn(Seq<u64>) -> Seq<u64>,
)
    ensures
        (Model { iterations: n, ..m }).run(state, step) == (Model {
            iterations: n,
            ..m.run(state, step)
        }),
    decreases state.due,
{
    if state.due > 0 {
        match m.round(state, step(m.theta)) {
            (next, Ok((left, _))) => {
                lemma_run_ignores_iterations(next, n, left, step);
            },
            (next, Err(_)) => {},
        }
    }
}

/// A fit goes on from the parameters that it finds and does not set them
/// back: two fits of `n` iterations each leave the parameters that one fit of
/// `2 * n` iterations leaves, the data, the learning rate and the rounds'
/// arithmetic being the same.
pub proof fn lemma_fit_resumes(m: Model, n: i64, step: spec_fn(Seq<u64>) -> Seq<u64>)
    requires
        i64::MIN <= 2 * n <= i64::MAX,
    ensures
        (Model { iterations: n, ..m }).fit(step).fit(step).theta == (Model {
            iterations: (2 * n) as i64,
            ..m
        }).fit(step).theta,
{
    let half = Model { iterations: n, ..m };
    let whole = Model { iterations: (2 * n) as i64, ..m };
    let once = half.start().0;
    let twice = whole.start().0;
    lemma_run_ignores_iterations(half, n, once, step);
    lemma_run_resumes(half, once, once, step);
    lemma_run_ignores_iterations(half, (2 * n) as i64, twice, step);
}

} // verus!
