use vstd::prelude::*;
use rand::seq::SliceRandom;
use rand::SeedableRng;
use rand_chacha::ChaCha20Rng;

verus! {

#[verifier::external_type_specification]
#[verifier::external_body]
pub struct ExChaCha20Rng(ChaCha20Rng);

/// The permutation that one in-place shuffle leaves behind: what a ChaCha
/// generator that was seeded with `seed`, and has already shuffled rows of
/// the lengths listed in `prior`, makes of the row `input`.
pub uninterp spec fn chacha_shuffle(seed: u64, prior: Seq<int>, input: Seq<i32>) -> Seq<i32>;

/// A deterministic random source: a ChaCha generator together with the seed
/// it was built from and the lengths of the rows shuffled with it so far,
/// which between them determine its state exactly.
pub struct SimRng {
    rng: ChaCha20Rng,
    seed: u64,
    draws: Ghost<Seq<int>>,
}

impl SimRng {
    /// The seed this source was built from.
    pub closed spec fn seed(&self) -> u64 {
        self.seed
    }

    /// The lengths of the rows shuffled so far, oldest first.
    pub closed spec fn draws(&self) -> Seq<int> {
        self.draws@
    }

    /// Builds the source for a given seed, with no draws made yet.
    pub fn new(seed: u64) -> (r: SimRng)
        ensures
            r.seed() == seed,
            r.draws() == Seq::<int>::empty(),
    {
        SimRng { rng: seeded_chacha(seed), seed, draws: Ghost(Seq::empty()) }
    }

    /// Shuffles `v` in place. Relies on rand's `SliceRandom::shuffle`: a
    /// Fisher-Yates shuffle that only swaps elements of the slice, so the
    /// elements are kept; its outcome is a deterministic function of the
    /// slice and of the generator's state, and the generator's state is in
    /// turn determined by the seed and by the lengths of the slices shuffled
    /// before, since the shuffle advances the generator by the slice's
    /// length alone.
    #[verifier::external_body]
    pub(crate) fn shuffle(&mut self, v: &mut Vec<i32>)
        ensures
            final(self).seed() == old(self).seed(),
            final(self).draws() == old(self).draws().push(old(v)@.len() as int),
            final(v)@ == chacha_shuffle(old(self).seed(), old(self).draws(), old(v)@),
            final(v)@.to_multiset() == old(v)@.to_multiset(),
    {
        v.shuffle(&mut self.rng);
    }
}

/// Relies on rand's `SeedableRng::seed_from_u64`: builds the ChaCha
/// generator, deterministically, from a 64-bit seed.
#[verifier::external_body]
fn seeded_chacha(seed: u64) -> ChaCha20Rng {
    ChaCha20Rng::seed_from_u64(seed)
}

} // verus!
