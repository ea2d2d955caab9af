//! The middleware chain: where a request stands on its way to the endpoint.
//!
//! A chain is a list of middleware followed by an endpoint. Running a chain
//! at a position either hands the request to the middleware at that position,
//! together with the chain after it, or, when no middleware is left, to the
//! endpoint. A middleware that does not run the rest of the chain ends the
//! request there: nothing after it runs.
use vstd::prelude::*;

verus! {

/// The rest of a middleware chain: the position of the next middleware to
/// run and the number of middleware in the chain.
#[derive(Clone, Copy, Debug, PartialEq, Eq, Structural)]
pub struct Next {
    position: usize,
    count: usize,
}

/// What running the chain at a position does.
#[derive(Clone, Copy, Debug, PartialEq, Eq, Structural)]
pub enum Step {
    /// Run the middleware at this index, handing it the rest of the chain.
    Middleware(usize, Next),
    /// No middleware is left: run the endpoint.
    Endpoint,
}

/// A component of a chain that ran.
pub ghost enum Stage {
    Middleware(int),
    Endpoint,
}

/// The step taken when the chain is run at `n`.
pub open spec fn step_of(n: Next) -> Step {
    if n.position() < n.count() {
        Step::Middleware(n.position() as usize, Next::at_spec(n.position() + 1, n.count()))
    } else {
        Step::Endpoint
    }
}

/// The components that run, in order, when the chain is run at `n` and the
/// middleware at index `i` runs the rest of the chain exactly when
/// `forwards[i]` holds.
pub open spec fn run_from(n: Next, forwards: Seq<bool>) -> Seq<Stage>
    decreases n.count() - n.position(),
{
    if n.position() < n.count() {
        let rest = Next::at_spec(n.position() + 1, n.count());
        if forwards[n.position()] {
            seq![Stage::Middleware(n.position())] + run_from(rest, forwards)
        } else {
            seq![Stage::Middleware(n.position())]
        }
    } else {
        seq![Stage::Endpoint]
    }
}

impl Next {
    /// The position of the next middleware to run.
    pub closed spec fn position(self) -> int {
        self.position as int
    }

    /// The number of middleware in the chain.
    pub closed spec fn count(self) -> int {
        self.count as int
    }

    /// The chain of `count` middleware at `position`.
    pub closed spec fn at_spec(position: int, count: int) -> Next {
        Next { position: position as usize, count: count as usize }
    }

    /// The start of a chain of `count` middleware.
    pub fn new(count: usize) -> (r: Next)
        ensures
            r.position() == 0,
            r.count() == count,
            r == Next::at_spec(0, count as int),
    {
        Next { position: 0, count }
    }

    /// How many middleware are still to run.
    pub fn remaining(&self) -> (r: usize)
        ensures
            self.position() <= self.count() ==> r == self.count() - self.position(),
            self.position() > self.count() ==> r == 0,
    {
        if self.position <= self.count {
            self.count - self.position
        } else {
            0
        }
    }

    /// What running the chain here does: hand the request to the next
    /// middleware with the chain after it, or to the endpoint.
    pub fn step(&self) -> (r: Step)
        ensures
            r == step_of(*self),
    {
        if self.position < self.count {
            Step::Middleware(self.position, Next { position: self.position + 1, count: self.count })
        } else {
            Step::Endpoint
        }
    }
}

/// Middleware runs in registration order: when every middleware runs the
/// rest of the chain, the middleware run one after the other, first to last,
/// and the endpoint runs after all of them.
pub proof fn lemma_chain_order(count: nat, forwards: Seq<bool>)
    requires
        count <= usize::MAX,
        forwards.len() == count,
        forall|i: int| 0 <= i < count ==> forwards[i],
    ensures
        run_from(Next::at_spec(0, count as int), forwards) == Seq::new(count, |i: int| Stage::Middleware(i)).push(
            Stage::Endpoint,
        ),
{
    lemma_chain_order_from(count, forwards, 0);
    assert(Seq::new(count, |i: int| Stage::Middleware(i)).push(Stage::Endpoint) =~= Seq::new(
        (count - 0) as nat,
        |i: int| Stage::Middleware(i + 0),
    ).push(Stage::Endpoint));
}

proof fn lemma_chain_order_from(count: nat, forwards: Seq<bool>, from: nat)
    requires
        count <= usize::MAX,
        from <= count,
        forwards.len() == count,
        forall|i: int| 0 <= i < count ==> forwards[i],
    ensures
        run_from(Next::at_spec(from as int, count as int), forwards) == Seq::new(
            (count - from) as nat,
            |i: int| Stage::Middleware(i + from),
        ).push(Stage::Endpoint),
    decreases count - from,
{
    let n = Next::at_spec(from as int, count as int);
    assert(n.position() == from && n.count() == count);
    if from < count {
        lemma_chain_order_from(count, forwards, from + 1);
        assert(Seq::new((count - from) as nat, |i: int| Stage::Middleware(i + from)).push(
            Stage::Endpoint,
        ) =~= seq![Stage::Middleware(from as int)] + Seq::new(
            (count - (from + 1)) as nat,
            |i: int| Stage::Middleware(i + (from + 1)),
        ).push(Stage::Endpoint));
    } else {
        assert(Seq::new((count - from) as nat, |i: int| Stage::Middleware(i + from)).push(
            Stage::Endpoint,
        ) =~= seq![Stage::Endpoint]);
    }
}

/// A middleware that does not run the rest of the chain ends the request:
/// when the middleware at `k` does not forward and all before it do, exactly
/// the middleware up to `k` run, and neither the middleware after it nor the
/// endpoint do.
pub proof fn lemma_short_circuit(count: nat, forwards: Seq<bool>, k: nat)
    requires
        count <= usize::MAX,
        k < count,
        forwards.len() == count,
        !forwards[k as int],
        forall|i: int| 0 <= i < k ==> forwards[i],
    ensures
        run_from(Next::at_spec(0, count as int), forwards) == Seq::new(k + 1, |i: int| Stage::Middleware(i)),
        !run_from(Next::at_spec(0, count as int), forwards).contains(Stage::Endpoint),
{
    lemma_short_circuit_from(count, forwards, k, 0);
    let run = run_from(Next::at_spec(0, count as int), forwards);
    assert(Seq::new(k + 1, |i: int| Stage::Middleware(i)) =~= Seq::new(
        (k + 1 - 0) as nat,
        |i: int| Stage::Middleware(i + 0),
    ));
    if run.contains(Stage::Endpoint) {
        let j = choose|j: int| 0 <= j < run.len() && run[j] == Stage::Endpoint;
        assert(run[j] == Stage::Middleware(j));
    }
}

proof fn lemma_short_circuit_from(count: nat, forwards: Seq<bool>, k: nat, from: nat)
    requires
        count <= usize::MAX,
        from <= k < count,
        forwards.len() == count,
        !forwards[k as int],
        forall|i: int| 0 <= i < k ==> forwards[i],
    ensures
        run_from(Next::at_spec(from as int, count as int), forwards) == Seq::new(
            (k + 1 - from) as nat,
            |i: int| Stage::Middleware(i + from),
        ),
    decreases k - from,
{
    let n = Next::at_spec(from as int, count as int);
    assert(n.position() == from && n.count() == count);
    if from < k {
        lemma_short_circuit_from(count, forwards, k, from + 1);
        assert(Seq::new((k + 1 - from) as nat, |i: int| Stage::Middleware(i + from)) =~= seq![
            Stage::Middleware(from as int),
        ] + Seq::new((k + 1 - (from + 1)) as nat, |i: int| Stage::Middleware(i + (from + 1))));
    } else {
        assert(Seq::new((k + 1 - from) as nat, |i: int| Stage::Middleware(i + from)) =~= seq![
            Stage::Middleware(from as int),
        ]);
    }
}

} // verus!
