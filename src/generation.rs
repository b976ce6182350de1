//! The life of a generation: a tick counter that calls for evolution once
//! the generation has lived its length.
use vstd::prelude::*;

verus! {

/// The age after one tick: one more, or 0 once it passes `length`.
pub open spec fn next_age(age: nat, length: nat) -> nat {
    if age + 1 > length {
        0
    } else {
        age + 1
    }
}

/// The age after `ticks` ticks from `age`.
pub open spec fn age_after(age: nat, length: nat, ticks: nat) -> nat
    decreases ticks,
{
    if ticks == 0 {
        age
    } else {
        next_age(age_after(age, length, (ticks - 1) as nat), length)
    }
}

/// Counts the ticks of the current generation.
#[derive(Clone, Copy, Debug)]
pub struct GenerationClock {
    age: usize,
    generation_length: usize,
}

impl View for GenerationClock {
    type V = (nat, nat);

    closed spec fn view(&self) -> (nat, nat) {
        (self.age as nat, self.generation_length as nat)
    }
}

impl GenerationClock {
    /// The age never passes the length, and one more tick can be counted.
    #[verifier::type_invariant]
    spec fn inv(&self) -> bool {
        self.age <= self.generation_length < usize::MAX
    }

    /// A fresh generation of the given length, at age 0.
    pub fn new(generation_length: usize) -> (r: Self)
        requires
            generation_length < usize::MAX,
        ensures
            r@ == (0nat, generation_length as nat),
    {
        GenerationClock { age: 0, generation_length }
    }

    /// Ticks since the generation began.
    pub fn age(&self) -> (r: usize)
        ensures
            r == self@.0,
    {
        self.age
    }

    /// Ticks a generation lives before the next one is bred.
    pub fn generation_length(&self) -> (r: usize)
        ensures
            r == self@.1,
    {
        self.generation_length
    }

    /// Counts one tick. Returns whether the generation is over and the next
    /// must be bred, in which case the age is back at 0.
    pub fn tick(&mut self) -> (evolve: bool)
        ensures
            final(self)@ == (next_age(old(self)@.0, old(self)@.1), old(self)@.1),
            evolve == (old(self)@.0 + 1 > old(self)@.1),
    {
        proof {
            use_type_invariant(&*self);
        }
        let age = self.age + 1;
        if age > self.generation_length {
            self.age = 0;
            true
        } else {
            self.age = age;
            false
        }
    }
}

/// From the start of a generation, each of its first `length` ticks only
/// ages it by one, and the tick after those ends it: the age is then back
/// at 0.
pub proof fn lemma_generation_ends(length: nat, ticks: nat)
    requires
        ticks <= length + 1,
    ensures
        ticks <= length ==> age_after(0, length, ticks) == ticks,
        ticks == length + 1 ==> age_after(0, length, ticks) == 0,
    decreases ticks,
{
    if ticks > 0 {
        lemma_generation_ends(length, (ticks - 1) as nat);
    }
}

} // verus!
