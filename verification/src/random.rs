//! Random choices, drawn from the thread's random number generator.
use vstd::prelude::*;
use rand::rngs::ThreadRng;

verus! {

#[verifier::external_type_specification]
#[verifier::external_body]
pub struct ExThreadRng(rand::rngs::ThreadRng);

/// `rand::thread_rng`: the thread's random number generator.
#[verifier::external_body]
pub(crate) fn thread_rng() -> ThreadRng {
    rand::thread_rng()
}

/// `Rng::gen_range(0..n)`: a random index below `n`, which must not be zero
/// (the call panics on an empty range). Which index comes out is chance.
#[verifier::external_body]
pub(crate) fn gen_index(rng: &mut ThreadRng, n: usize) -> (r: usize)
    requires
        n > 0,
    ensures
        r < n,
{
    rand::Rng::gen_range(rng, 0..n)
}

/// `rand::random::<u8>()`: a random byte; any value can come out.
#[verifier::external_body]
pub(crate) fn random_byte() -> u8 {
    rand::random::<u8>()
}

/// A collection that one item can be drawn from at random.
pub trait RandomItem<T> {
    spec fn items(&self) -> Seq<T>;

    /// One of the items, drawn at random; the collection must not be empty.
    fn random_item(&self, rng: &mut ThreadRng) -> (r: &T)
        requires
            self.items().len() > 0,
        ensures
            self.items().contains(*r),
    ;
}

impl<T> RandomItem<T> for Vec<T> {
    open spec fn items(&self) -> Seq<T> {
        self@
    }

    fn random_item(&self, rng: &mut ThreadRng) -> (r: &T) {
        let i = gen_index(rng, self.len());
        &self[i]
    }
}

impl<T> RandomItem<T> for [T] {
    open spec fn items(&self) -> Seq<T> {
        self@
    }

    fn random_item(&self, rng: &mut ThreadRng) -> (r: &T) {
        let i = gen_index(rng, self.len());
        &self[i]
    }
}

} // verus!
