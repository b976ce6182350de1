//! Observers: values that others set and read without knowing one another.
use vstd::prelude::*;

verus! {

/// A value that can be set and read back.
pub trait Observer<T: Clone> {
    fn set(&mut self, new_value: T) -> bool;

    fn get(&self) -> T;
}

/// The decimal digit `d`.
pub open spec fn digit_char(d: nat) -> char {
    "0123456789"@[d as int]
}

/// The decimal writing of `n`, with no leading zeros.
pub open spec fn decimal(n: nat) -> Seq<char>
    decreases n,
{
    if n < 10 {
        seq![digit_char(n)]
    } else {
        decimal(n / 10) + seq![digit_char(n % 10)]
    }
}

/// Relies on std's `ToString` for `usize`: its decimal writing.
#[verifier::external_body]
fn usize_to_decimal(n: usize) -> (r: String)
    ensures
        r@ == decimal(n as nat),
{
    n.to_string()
}

/// Observes the number of the current generation, for the page element
/// named `id`.
#[derive(Debug)]
pub struct GenerationObserver {
    id: String,
    generation: usize,
}

impl View for GenerationObserver {
    type V = (Seq<char>, usize);

    closed spec fn view(&self) -> (Seq<char>, usize) {
        (self.id@, self.generation)
    }
}

impl GenerationObserver {
    /// An observer of generation 0 for the element `id`.
    pub fn new(id: String) -> (r: Self)
        ensures
            r@ == (id@, 0usize),
    {
        GenerationObserver { id, generation: 0 }
    }

    /// The name of the element that shows the generation.
    pub fn id(&self) -> (r: &String)
        ensures
            r@ == self@.0,
    {
        &self.id
    }

    /// The text the element shows: the generation in decimal.
    pub fn update_page(&self) -> (r: String)
        ensures
            r@ == decimal(self@.1 as nat),
    {
        usize_to_decimal(self.generation)
    }
}

impl Observer<usize> for GenerationObserver {
    /// Records the generation; always succeeds.
    fn set(&mut self, new_value: usize) -> (r: bool)
        ensures
            final(self)@ == (old(self)@.0, new_value),
            r,
    {
        self.generation = new_value;
        true
    }

    fn get(&self) -> (r: usize)
        ensures
            r == self@.1,
    {
        self.generation
    }
}

} // verus!
