//! The pseudo-random stream behind every stochastic choice: a ChaCha
//! generator with the all-zero key whose block counter is set from the seed.
//! The source keeps, as ghost state, its seed and the words it has handed out;
//! the k-th word of the stream of a seed is `chacha_word(seed, k)`.
use rand::ChaChaRng;
use rand::Rng;
use vstd::prelude::*;

verus! {

#[verifier::external_type_specification]
#[verifier::external_body]
pub struct ExChaChaRng(ChaChaRng);

/// The word at position `k` (0-based) of the ChaCha stream that
/// `ChaChaRng::new_unseeded` followed by `set_counter(seed, seed)` produces.
pub uninterp spec fn chacha_word(seed: u64, k: int) -> u32;

/// A seedable, reproducible stream of 32-bit words.
pub struct RandomSource {
    rng: ChaChaRng,
    seed: Ghost<u64>,
    drawn: Ghost<Seq<u32>>,
}

/// `b` is `a` after more words were drawn: same seed, and each new word is
/// the stream's word at its position.
pub open spec fn stream_extends(a: RandomSource, b: RandomSource) -> bool {
    &&& b.seed() == a.seed()
    &&& b.drawn().len() >= a.drawn().len()
    &&& b.drawn().subrange(0, a.drawn().len() as int) == a.drawn()
    &&& forall|i: int|
        a.drawn().len() <= i < b.drawn().len() ==> #[trigger] b.drawn()[i] == chacha_word(a.seed(), i)
}

/// Drawing more after drawing more is drawing more.
pub proof fn lemma_stream_extends_trans(a: RandomSource, b: RandomSource, c: RandomSource)
    requires
        stream_extends(a, b),
        stream_extends(b, c),
    ensures
        stream_extends(a, c),
{
    assert(c.drawn().subrange(0, a.drawn().len() as int) =~= c.drawn().subrange(
        0,
        b.drawn().len() as int,
    ).subrange(0, a.drawn().len() as int));
    assert forall|i: int| a.drawn().len() <= i < c.drawn().len() implies #[trigger] c.drawn()[i]
        == chacha_word(a.seed(), i) by {
        if i < b.drawn().len() {
            assert(c.drawn()[i] == c.drawn().subrange(0, b.drawn().len() as int)[i]);
        }
    }
}

/// Nothing drawn is drawing nothing.
pub proof fn lemma_stream_extends_refl(a: RandomSource)
    ensures
        stream_extends(a, a),
{
    assert(a.drawn().subrange(0, a.drawn().len() as int) =~= a.drawn());
}

impl RandomSource {
    /// The seed the stream was made from.
    pub closed spec fn seed(&self) -> u64 {
        self.seed@
    }

    /// The words handed out so far, oldest first.
    pub closed spec fn drawn(&self) -> Seq<u32> {
        self.drawn@
    }

    /// A stream at the start of the sequence of `seed`.
    pub fn from_seed(seed: u64) -> (r: RandomSource)
        ensures
            r.seed() == seed,
            r.drawn() == Seq::<u32>::empty(),
    {
        chacha_source(seed)
    }

    /// Draws the next word of the stream.
    pub fn next_u32(&mut self) -> (w: u32)
        ensures
            w == chacha_word(old(self).seed(), old(self).drawn().len() as int),
            final(self).seed() == old(self).seed(),
            final(self).drawn() == old(self).drawn().push(w),
            stream_extends(*old(self), *final(self)),
    {
        let w = chacha_next(self);
        proof {
            assert(self.drawn().subrange(0, old(self).drawn().len() as int) =~= old(self).drawn());
        }
        w
    }
}

/// Relies on rand's `ChaChaRng::new_unseeded` and
/// `ChaChaRng::set_counter(seed, seed)`: the generator is then at the start
/// of the stream of `seed`, which depends on the seed alone.
#[verifier::external_body]
fn chacha_source(seed: u64) -> (r: RandomSource)
    ensures
        r.seed() == seed,
        r.drawn() == Seq::<u32>::empty(),
{
    let mut rng = ChaChaRng::new_unseeded();
    rng.set_counter(seed, seed);
    RandomSource { rng, seed: Ghost(seed), drawn: Ghost(Seq::empty()) }
}

/// Relies on rand's `Rng::next_u32` for `ChaChaRng`: each call returns the
/// next word of the stream, so the word depends only on the seed and on how
/// many words came before it.
#[verifier::external_body]
fn chacha_next(src: &mut RandomSource) -> (w: u32)
    ensures
        w == chacha_word(old(src).seed(), old(src).drawn().len() as int),
        final(src).seed() == old(src).seed(),
        final(src).drawn() == old(src).drawn().push(w),
{
    src.rng.next_u32()
}

} // verus!
