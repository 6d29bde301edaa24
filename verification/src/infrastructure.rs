//! The sequential-circuit abstraction: a clocked element is a value that maps
//! an input to an output and a successor state at each tick, and a mutable
//! adapter offers in-place ticking at the outermost layer.

use vstd::prelude::*;

use crate::primitive::Bit;

verus! {

/// A clocked circuit: `tick` observes the input at a clock edge and returns
/// the output together with the state after the edge. States are immutable;
/// each tick produces a new one. Each implementation states in its own
/// `ensures` what its tick computes.
pub trait SequentialCircuit: Sized {
    type Input;

    type Output;

    fn tick(&self, input: &Self::Input) -> (Self::Output, Self);
}

/// A circuit ticked in place: the state is replaced destructively. Only the
/// outermost layers use this; inner components stay immutable for
/// composition.
pub trait MutSC {
    type Input;

    type Output;

    fn tick(&mut self, input: &Self::Input) -> Self::Output;
}

/// A clocked element in its zero state: every stored bit low.
pub trait Zero: Sized {
    fn new() -> Self;
}

/// The one-bit delay: outputs its stored bit, and stores the input bit for
/// the next tick.
pub struct Dff {
    pub bit: Bit,
}

impl Dff {
    /// The bit the flip-flop holds.
    pub open spec fn stored(self) -> Bit {
        self.bit
    }
}

impl SequentialCircuit for Dff {
    type Input = Bit;

    type Output = Bit;

    fn tick(&self, input: &Bit) -> (r: (Bit, Dff))
        ensures
            r.0 == self.stored(),
            r.1.stored() == *input,
    {
        (self.bit, Dff { bit: *input })
    }
}

impl Zero for Dff {
    fn new() -> (r: Dff)
        ensures
            r.stored() == Bit::Negative,
    {
        Dff { bit: Bit::Negative }
    }
}

/// Wraps an immutable circuit as an in-place one.
pub struct FreeMutSC<T: SequentialCircuit>(pub T);

impl<T: SequentialCircuit> MutSC for FreeMutSC<T> {
    type Input = T::Input;

    type Output = T::Output;

    /// Ticks the wrapped circuit and keeps its successor state: the output
    /// and the new state are whatever the wrapped circuit's own `tick`
    /// promises of them.
    fn tick(&mut self, input: &Self::Input) -> (r: Self::Output)
        ensures
            call_ensures(T::tick, (&old(self).0, input), (r, final (self).0)),
    {
        let (o, s) = self.0.tick(input);
        self.0 = s;
        o
    }
}

impl<T: SequentialCircuit + Zero> Zero for FreeMutSC<T> {
    /// Wraps the circuit's own zero state.
    fn new() -> (r: Self)
        ensures
            call_ensures(T::new, (), r.0),
    {
        Self(T::new())
    }
}

} // verus!
