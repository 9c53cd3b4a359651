use vstd::prelude::*;

verus! {

/// A request to the sorting page.
#[derive(Clone, Copy, Debug, PartialEq, Eq, Structural)]
pub enum Msg {
    Start,
    Stop,
    Reset,
    ShowStep,
    Tick,
    Change,
}

/// The sorting algorithm that the page shows.
#[derive(Clone, Copy, Debug, PartialEq, Eq, Structural)]
pub enum Algorithm {
    Insertion,
    Selection,
}

/// The state behind the sorting page: the chosen algorithm, whether it runs,
/// and the values to sort.
pub struct Sorting {
    alg: Algorithm,
    active: bool,
    coll: Vec<usize>,
}

/// Relies on `rand::thread_rng` and `Rng::gen_range`: a value drawn from
/// `0..bound`. `gen_range` panics on an empty range, hence `bound > 0`;
/// `thread_rng` panics only if seeding or reseeding from the operating
/// system's generator fails.
#[verifier::external_body]
fn random_below(bound: usize) -> (r: usize)
    requires
        bound > 0,
    ensures
        r < bound,
{
    rand::Rng::gen_range(&mut rand::thread_rng(), 0..bound)
}

/// `size` random values, each below `2 * size`.
pub fn generate_random(size: usize) -> (r: Vec<usize>)
    requires
        size <= usize::MAX / 2,
    ensures
        r@.len() == size,
        forall|i: int| 0 <= i < size ==> r@[i] < 2 * size,
{
    let mut values: Vec<usize> = Vec::new();
    let mut i: usize = 0;
    while i < size
        invariant
            i <= size,
            size <= usize::MAX / 2,
            values@.len() == i,
            forall|j: int| 0 <= j < i ==> values@[j] < 2 * size,
        decreases size - i,
    {
        values.push(random_below(2 * size));
        i += 1;
    }
    values
}

impl Sorting {
    pub closed spec fn algorithm(&self) -> Algorithm {
        self.alg
    }

    pub closed spec fn running(&self) -> bool {
        self.active
    }

    pub closed spec fn items(&self) -> Seq<usize> {
        self.coll@
    }

    /// A stopped page over `size` random values, each below `2 * size`.
    pub fn new(a: Algorithm, size: usize) -> (r: Sorting)
        requires
            size <= usize::MAX / 2,
        ensures
            r.algorithm() == a,
            !r.running(),
            r.items().len() == size,
            forall|i: int| 0 <= i < size ==> r.items()[i] < 2 * size,
    {
        Sorting { alg: a, active: false, coll: generate_random(size) }
    }

    /// Messages change nothing yet; nothing is redrawn.
    pub fn update(&mut self, _msg: Msg) -> (redraw: bool)
        ensures
            !redraw,
            final(self).algorithm() == old(self).algorithm(),
            final(self).running() == old(self).running(),
            final(self).items() == old(self).items(),
    {
        false
    }

    /// The chosen algorithm.
    pub fn alg(&self) -> (r: Algorithm)
        ensures
            r == self.algorithm(),
    {
        self.alg
    }

    /// Whether the page runs.
    pub fn is_active(&self) -> (r: bool)
        ensures
            r == self.running(),
    {
        self.active
    }

    /// The values, in their current order.
    pub fn values(&self) -> (r: &[usize])
        ensures
            r@ == self.items(),
    {
        self.coll.as_slice()
    }
}

} // verus!
