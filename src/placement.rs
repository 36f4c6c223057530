//! Choice of the worker nodes that hold the replicas of a block, by sequential
//! exclusion: the i-th draw is taken from the `n - i` nodes not chosen yet and
//! shifted past the chosen ones, in the order they were chosen.
use crate::random::lemma_stream_extends_refl;
use crate::random::lemma_stream_extends_trans;
use crate::random::stream_extends;
use crate::random::RandomSource;
use vstd::prelude::*;

verus! {

/// Shifts `v` past each entry of `chosen` that it reaches, first chosen first.
pub open spec fn adjust(v: int, chosen: Seq<u16>) -> int
    decreases chosen.len(),
{
    if chosen.len() == 0 {
        v
    } else {
        adjust(if v >= chosen[0] { v + 1 } else { v }, chosen.drop_first())
    }
}

/// The holders chosen among `n` nodes from the words `draws`, one word each.
pub open spec fn holders_from(draws: Seq<u32>, n: nat) -> Seq<u16>
    decreases draws.len(),
{
    if draws.len() == 0 {
        Seq::empty()
    } else {
        let prev = holders_from(draws.drop_last(), n);
        prev.push(adjust(draws.last() as int % (n - prev.len()), prev) as u16)
    }
}

/// Adjusting moves a value up by at most the number of entries.
pub proof fn lemma_adjust_bounds(v: int, chosen: Seq<u16>)
    ensures
        v <= adjust(v, chosen) <= v + chosen.len(),
    decreases chosen.len(),
{
    if chosen.len() > 0 {
        lemma_adjust_bounds(if v >= chosen[0] { v + 1 } else { v }, chosen.drop_first());
    }
}

proof fn lemma_adjust_step(v: int, chosen: Seq<u16>, j: int)
    requires
        0 <= j < chosen.len(),
    ensures
        adjust(v, chosen.subrange(j, chosen.len() as int)) == adjust(
            if v >= chosen[j] { v + 1 } else { v },
            chosen.subrange(j + 1, chosen.len() as int),
        ),
{
    assert(chosen.subrange(j, chosen.len() as int).drop_first() =~= chosen.subrange(
        j + 1,
        chosen.len() as int,
    ));
}

/// One holder per draw, each a valid node index.
pub proof fn lemma_holders_in_range(draws: Seq<u32>, n: nat)
    requires
        draws.len() <= n <= 65535,
    ensures
        holders_from(draws, n).len() == draws.len(),
        forall|i: int|
            0 <= i < draws.len() ==> 0 <= #[trigger] holders_from(draws, n)[i] < n,
    decreases draws.len(),
{
    if draws.len() > 0 {
        let prev = holders_from(draws.drop_last(), n);
        lemma_holders_in_range(draws.drop_last(), n);
        let r = draws.last() as int % (n - prev.len());
        lemma_adjust_bounds(r, prev);
        let h = holders_from(draws, n);
        assert forall|i: int| 0 <= i < draws.len() implies 0 <= #[trigger] h[i] < n by {
            if i < prev.len() {
                assert(h[i] == prev[i]);
            }
        }
    }
}

/// With at most two replicas, the holders are pairwise distinct.
pub proof fn lemma_two_holders_distinct(draws: Seq<u32>, n: nat)
    requires
        draws.len() <= 2,
        draws.len() <= n <= 65535,
    ensures
        forall|i: int, j: int|
            0 <= i < j < draws.len() ==> holders_from(draws, n)[i] != holders_from(draws, n)[j],
{
    lemma_holders_in_range(draws, n);
    if draws.len() == 2 {
        let d1 = draws.drop_last();
        let prev = holders_from(d1, n);
        assert(d1.drop_last().len() == 0);
        assert(prev.len() == 1);
        let r = draws.last() as int % (n - 1);
        let v = if r >= prev[0] { r + 1 } else { r };
        assert(prev.drop_first().len() == 0);
        assert(adjust(v, prev.drop_first()) == v);
        assert(adjust(r, prev) == v);
        lemma_holders_in_range(d1, n);
        assert(v < n);
        assert(holders_from(draws, n)[1] == v as u16);
        assert(holders_from(draws, n)[0] == prev[0]);
    }
}

/// Draws one word per replica from `rng` and chooses `repl` holders among
/// `num_datanodes` worker nodes.
pub fn pick_replica_holders(rng: &mut RandomSource, repl: u16, num_datanodes: u16) -> (r: Vec<u16>)
    requires
        repl <= num_datanodes,
    ensures
        final(rng).drawn().len() == old(rng).drawn().len() + repl,
        stream_extends(*old(rng), *final(rng)),
        r@ == holders_from(
            final(rng).drawn().subrange(old(rng).drawn().len() as int, final(rng).drawn().len() as int),
            num_datanodes as nat,
        ),
{
    let ghost start = old(rng).drawn().len() as int;
    proof {
        lemma_stream_extends_refl(*rng);
    }
    let mut chosen: Vec<u16> = Vec::new();
    let mut i: u16 = 0;
    while i < repl
        invariant
            stream_extends(*old(rng), *rng),
            i <= repl <= num_datanodes,
            start == old(rng).drawn().len(),
            rng.drawn().len() == start + i,
            rng.drawn().subrange(0, start) == old(rng).drawn(),
            chosen@ == holders_from(rng.drawn().subrange(start, start + i), num_datanodes as nat),
        decreases repl - i,
    {
        let ghost before = rng.drawn();
        let ghost src_before = *rng;
        let w = rng.next_u32();
        proof {
            lemma_stream_extends_trans(*old(rng), src_before, *rng);
        }
        let range: u32 = (num_datanodes - i) as u32;
        let mut val: u16 = (w % range) as u16;
        let ghost v0 = val as int;
        proof {
            lemma_holders_in_range(before.subrange(start, start + i), num_datanodes as nat);
        }
        assert(chosen@.subrange(0, chosen@.len() as int) =~= chosen@);
        let mut j: usize = 0;
        while j < chosen.len()
            invariant
                j <= chosen.len() == i,
                i < num_datanodes,
                v0 < num_datanodes - i,
                v0 <= val <= v0 + j,
                adjust(val as int, chosen@.subrange(j as int, chosen@.len() as int)) == adjust(
                    v0,
                    chosen@,
                ),
            decreases chosen.len() - j,
        {
            proof {
                lemma_adjust_step(val as int, chosen@, j as int);
            }
            if val >= chosen[j] {
                val = val + 1;
            }
            j = j + 1;
        }
        proof {
            assert(chosen@.subrange(j as int, chosen@.len() as int).len() == 0);
            let d = rng.drawn().subrange(start, start + i + 1);
            assert(d.drop_last() =~= before.subrange(start, start + i));
            assert(d.last() == w);
            assert(rng.drawn().subrange(0, start) =~= before.subrange(0, start));
        }
        chosen.push(val);
        i = i + 1;
    }
    chosen
}

} // verus!
