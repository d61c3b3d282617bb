//! Roulette-wheel selection over integer weights, with and without
//! replacement.

use vstd::prelude::*;
use vstd::multiset::Multiset;
use rand::Rng;
use crate::text::texts;

verus! {

broadcast use vstd::seq_lib::group_to_multiset_ensures;

/// The sum of `w`.
pub open spec fn weight_sum(w: Seq<i64>) -> int
    decreases w.len(),
{
    if w.len() == 0 {
        0
    } else {
        weight_sum(w.drop_last()) + w.last()
    }
}

/// The running total of `w` up to and including index `j`.
pub open spec fn running_total(w: Seq<i64>, j: int) -> int {
    weight_sum(w.take(j + 1))
}

/// Index `i` is where a roulette walk stops for `roll`: the first index
/// whose running total of weights exceeds `roll`.
pub open spec fn is_pick(w: Seq<i64>, roll: int, i: int) -> bool {
    &&& 0 <= i < w.len()
    &&& running_total(w, i) > roll
    &&& forall|j: int| 0 <= j < i ==> #[trigger] running_total(w, j) <= roll
}

/// The index that a roulette walk over `w` stops at for `roll`.
pub open spec fn roulette(w: Seq<i64>, roll: int) -> int {
    choose|i: int| is_pick(w, roll, i)
}

/// All weights are positive.
pub open spec fn all_positive(w: Seq<i64>) -> bool {
    forall|i: int| 0 <= i < w.len() ==> w[i] > 0
}

/// No weight is positive.
pub open spec fn none_positive(w: Seq<i64>) -> bool {
    forall|i: int| 0 <= i < w.len() ==> w[i] <= 0
}

/// `id` is one of `ids` whose weight is positive.
pub open spec fn positive_entry(id: Seq<char>, ids: Seq<Seq<char>>, w: Seq<i64>) -> bool {
    exists|i: int| 0 <= i < ids.len() && i < w.len() && w[i] > 0 && ids[i] == id
}

/// `id` with weight `wt` is an entry of `ids` and `w`.
pub open spec fn entry_of(id: Seq<char>, wt: i64, ids: Seq<Seq<char>>, w: Seq<i64>) -> bool {
    exists|i: int| 0 <= i < ids.len() && i < w.len() && ids[i] == id && w[i] == wt
}

/// Each drawn text is one of `ids` whose weight is positive.
pub open spec fn drawn_from(r: Seq<Seq<char>>, ids: Seq<Seq<char>>, w: Seq<i64>) -> bool {
    forall|k: int| 0 <= k < r.len() ==> positive_entry(#[trigger] r[k], ids, w)
}

/// (identifier, weight) pairs of parallel sequences.
pub open spec fn zip_entries(ids: Seq<Seq<char>>, w: Seq<i64>) -> Seq<(Seq<char>, i64)> {
    Seq::new(ids.len(), |i: int| (ids[i], w[i]))
}

/// The identifiers of (identifier, weight) pairs.
pub open spec fn pair_ids(s: Seq<(Seq<char>, i64)>) -> Seq<Seq<char>> {
    s.map_values(|e: (Seq<char>, i64)| e.0)
}

/// The weights of (identifier, weight) pairs.
pub open spec fn pair_weights(s: Seq<(Seq<char>, i64)>) -> Seq<i64> {
    s.map_values(|e: (Seq<char>, i64)| e.1)
}

/// `r` was drawn card by card from `ids` weighted by `w`, each card leaving
/// the pool once drawn, and the drawing stopped short of `limit` cards only
/// when the undrawn cards' weights summed to at most zero.
pub open spec fn stops_when_spent(r: Seq<Seq<char>>, ids: Seq<Seq<char>>, w: Seq<i64>, limit: int) -> bool {
    exists|d: Seq<(Seq<char>, i64)>, rest: Seq<(Seq<char>, i64)>| {
        &&& #[trigger] d.to_multiset().add(rest.to_multiset()) == zip_entries(ids, w).to_multiset()
        &&& pair_ids(d) == r
        &&& (r.len() < limit ==> weight_sum(pair_weights(rest)) <= 0)
    }
}

/// A sum of `n` weights lies within `n` times the weight range.
proof fn lemma_sum_bounds(w: Seq<i64>)
    ensures
        -(w.len() as int) * 0x8000_0000_0000_0000 <= weight_sum(w) <= (w.len() as int) * 0x8000_0000_0000_0000,
    decreases w.len(),
{
    if w.len() > 0 {
        lemma_sum_bounds(w.drop_last());
        let n = w.len() as int;
        assert((n - 1) * 0x8000_0000_0000_0000 + 0x8000_0000_0000_0000 == n * 0x8000_0000_0000_0000) by (nonlinear_arith);
    }
}

/// A sum of fewer than 2^64 weights fits in an `i128`.
proof fn lemma_sum_fits(w: Seq<i64>)
    requires
        w.len() <= usize::MAX,
    ensures
        i128::MIN < weight_sum(w) < i128::MAX,
{
    lemma_sum_bounds(w);
    let n = w.len() as int;
    assert(n * 0x8000_0000_0000_0000 <= 0xFFFF_FFFF_FFFF_FFFF * 0x8000_0000_0000_0000) by (nonlinear_arith)
        requires 0 <= n <= 0xFFFF_FFFF_FFFF_FFFF;
}

/// A sum of positive weights is positive once there is one.
proof fn lemma_positive_sum(w: Seq<i64>)
    requires
        all_positive(w),
    ensures
        weight_sum(w) >= w.len(),
    decreases w.len(),
{
    if w.len() > 0 {
        lemma_positive_sum(w.drop_last());
    }
}

/// A sum of weights none of which is positive is not positive.
proof fn lemma_nonpositive_sum(w: Seq<i64>)
    requires
        none_positive(w),
    ensures
        weight_sum(w) <= 0,
    decreases w.len(),
{
    if w.len() > 0 {
        lemma_nonpositive_sum(w.drop_last());
    }
}

/// The roulette walk stops at exactly one index.
proof fn lemma_pick_unique(w: Seq<i64>, roll: int, i: int, j: int)
    requires
        is_pick(w, roll, i),
        is_pick(w, roll, j),
    ensures
        i == j,
{
    if i < j {
        assert(running_total(w, i) <= roll);
    } else if j < i {
        assert(running_total(w, j) <= roll);
    }
}

/// A walk that starts at a non-negative roll stops at a positive weight.
proof fn lemma_pick_positive(w: Seq<i64>, roll: int, i: int)
    requires
        is_pick(w, roll, i),
        roll >= 0,
    ensures
        w[i] > 0,
{
    assert(w.take(i + 1).drop_last() =~= w.take(i));
    assert(w.take(i + 1).last() == w[i]);
    assert(weight_sum(w.take(i + 1)) == weight_sum(w.take(i)) + w[i]);
    if i > 0 {
        assert(running_total(w, i - 1) <= roll);
        assert(w.take(i - 1 + 1) =~= w.take(i));
    } else {
        assert(w.take(0) =~= Seq::<i64>::empty());
    }
}

/// The sum of `weights`.
pub fn total_weight(weights: &Vec<i64>) -> (r: i128)
    ensures
        r == weight_sum(weights@),
{
    let mut total: i128 = 0;
    let mut i: usize = 0;
    while i < weights.len()
        invariant
            i <= weights.len(),
            total == weight_sum(weights@.take(i as int)),
        decreases weights.len() - i,
    {
        assert(weights@.take(i + 1).drop_last() =~= weights@.take(i as int));
        proof {
            lemma_sum_fits(weights@.take(i + 1));
        }
        total = total + weights[i] as i128;
        i += 1;
    }
    assert(weights@.take(weights.len() as int) =~= weights@);
    total
}

/// The index that a roulette walk over `weights` stops at for `roll`: the
/// first whose running total exceeds `roll`.
pub fn pick_index(weights: &Vec<i64>, roll: i128) -> (r: usize)
    requires
        0 <= roll < weight_sum(weights@),
    ensures
        is_pick(weights@, roll as int, r as int),
        r == roulette(weights@, roll as int),
{
    let mut running: i128 = 0;
    let mut i: usize = 0;
    while i < weights.len()
        invariant
            i <= weights.len(),
            running == weight_sum(weights@.take(i as int)),
            forall|j: int| 0 <= j < i ==> #[trigger] running_total(weights@, j) <= roll,
        decreases weights.len() - i,
    {
        assert(weights@.take(i + 1).drop_last() =~= weights@.take(i as int));
        proof {
            lemma_sum_fits(weights@.take(i + 1));
        }
        running = running + weights[i] as i128;
        if running > roll {
            proof {
                assert(is_pick(weights@, roll as int, i as int));
                assert(is_pick(weights@, roll as int, roulette(weights@, roll as int)));
                lemma_pick_unique(weights@, roll as int, i as int, roulette(weights@, roll as int));
            }
            return i;
        }
        i += 1;
    }
    assert(weights@.take(weights.len() as int) =~= weights@);
    assert(weights@.len() > 0);
    assert(running_total(weights@, weights.len() - 1) <= roll);
    assert(weights@.take(weights.len() - 1 + 1) =~= weights@);
    i
}


/// Relies on `rand::thread_rng` and `Rng::gen_range`: a value drawn from
/// `[0, bound)`; `gen_range` panics on an empty range, which `requires`
/// leaves out.
#[verifier::external_body]
fn random_below(bound: i128) -> (r: i128)
    requires
        bound > 0,
    ensures
        0 <= r < bound,
{
    rand::thread_rng().gen_range(0..bound)
}

/// Draws one index of `weights` by roulette: its chance is its weight over
/// the total. Requires a positive total.
pub fn draw_index(weights: &Vec<i64>) -> (r: usize)
    requires
        weight_sum(weights@) > 0,
    ensures
        exists|roll: int| 0 <= roll < weight_sum(weights@) && is_pick(weights@, roll, r as int),
        weights@[r as int] > 0,
{
    let total = total_weight(weights);
    let roll = random_below(total);
    let i = pick_index(weights, roll);
    proof {
        lemma_pick_positive(weights@, roll as int, i as int);
    }
    i
}

/// The index of the template that `roll` selects: by roulette over
/// positive-total weights, or the roll itself as a uniform index when the
/// total is not positive.
pub fn template_for_roll(weights: &Vec<i64>, roll: i128) -> (r: usize)
    requires
        weights.len() > 0,
        weight_sum(weights@) > 0 ==> 0 <= roll < weight_sum(weights@),
        weight_sum(weights@) <= 0 ==> 0 <= roll < weights.len(),
    ensures
        r < weights.len(),
        weight_sum(weights@) > 0 ==> is_pick(weights@, roll as int, r as int),
        weight_sum(weights@) > 0 ==> r == roulette(weights@, roll as int),
        weight_sum(weights@) <= 0 ==> r == roll,
{
    let total = total_weight(weights);
    if total <= 0 {
        roll as usize
    } else {
        pick_index(weights, roll)
    }
}

/// Selects one template index: weighted by `weights` when their total is
/// positive, uniformly otherwise.
pub fn choose_template(weights: &Vec<i64>) -> (r: usize)
    requires
        weights.len() > 0,
    ensures
        r < weights.len(),
        weight_sum(weights@) > 0 ==> weights@[r as int] > 0,
{
    let total = total_weight(weights);
    if total <= 0 {
        let roll = random_below(weights.len() as i128);
        template_for_roll(weights, roll)
    } else {
        let roll = random_below(total);
        let i = template_for_roll(weights, roll);
        proof {
            lemma_pick_positive(weights@, roll as int, i as int);
        }
        i
    }
}

/// `count` independent roulette draws from `ids` weighted by `weights`;
/// nothing when the total weight is not positive.
pub fn sample_with_replacement(ids: &Vec<String>, weights: &Vec<i64>, count: usize) -> (r: Vec<String>)
    requires
        ids.len() == weights.len(),
    ensures
        weight_sum(weights@) <= 0 ==> r.len() == 0,
        weight_sum(weights@) > 0 ==> r.len() == count,
        none_positive(weights@) ==> r.len() == 0,
        drawn_from(texts(r@), texts(ids@), weights@),
{
    proof {
        if none_positive(weights@) {
            lemma_nonpositive_sum(weights@);
        }
    }
    let mut out: Vec<String> = Vec::new();
    let total = total_weight(weights);
    if total <= 0 {
        assert(texts(out@) =~= Seq::<Seq<char>>::empty());
        return out;
    }
    let mut k: usize = 0;
    while k < count
        invariant
            k <= count,
            out.len() == k,
            ids.len() == weights.len(),
            weight_sum(weights@) > 0,
            drawn_from(texts(out@), texts(ids@), weights@),
        decreases count - k,
    {
        let i = draw_index(weights);
        let ghost before = texts(out@);
        out.push(ids[i].clone());
        proof {
            assert(texts(out@) =~= before.push(texts(ids@)[i as int]));
            assert forall|m: int| 0 <= m < texts(out@).len() implies positive_entry(#[trigger] texts(out@)[m], texts(ids@), weights@) by {
                if m < before.len() {
                    assert(texts(out@)[m] == before[m]);
                } else {
                    assert(texts(out@)[m] == texts(ids@)[i as int]);
                }
            }
        }
        k += 1;
    }
    out
}

/// Takes out of the pool the card at which a roulette walk stops for `roll`
/// and returns its identifier.
pub fn take_pick(ids: &mut Vec<String>, weights: &mut Vec<i64>, roll: i128) -> (r: String)
    requires
        old(ids).len() == old(weights).len(),
        0 <= roll < weight_sum(old(weights)@),
    ensures
        0 <= roulette(old(weights)@, roll as int) < old(ids)@.len(),
        r@ == old(ids)@[roulette(old(weights)@, roll as int)]@,
        old(weights)@[roulette(old(weights)@, roll as int)] > 0,
        final(ids)@ == old(ids)@.remove(roulette(old(weights)@, roll as int)),
        final(weights)@ == old(weights)@.remove(roulette(old(weights)@, roll as int)),
{
    let i = pick_index(weights, roll);
    proof {
        lemma_pick_positive(weights@, roll as int, i as int);
    }
    weights.remove(i);
    ids.remove(i)
}

/// Up to `count` roulette draws from `ids` weighted by `weights`, each card
/// leaving the pool once drawn. Stops early when the remaining weight is not
/// positive.
pub fn sample_without_replacement(ids: &Vec<String>, weights: &Vec<i64>, count: usize) -> (r: Vec<String>)
    requires
        ids.len() == weights.len(),
    ensures
        r.len() <= count,
        r.len() <= ids.len(),
        texts(r@).to_multiset().subset_of(texts(ids@).to_multiset()),
        all_positive(weights@) ==> r.len() == if count < ids.len() { count } else { ids.len() },
        all_positive(weights@) && count >= ids.len() ==> texts(r@).to_multiset() == texts(ids@).to_multiset(),
        none_positive(weights@) ==> r.len() == 0,
        drawn_from(texts(r@), texts(ids@), weights@),
        stops_when_spent(texts(r@), texts(ids@), weights@, if count < ids.len() { count as int } else { ids.len() as int }),
{
    let actual = if count < ids.len() { count } else { ids.len() };
    let mut pool_ids = clone_all(ids);
    let mut pool_weights = clone_weights(weights);
    let mut out: Vec<String> = Vec::new();
    let mut k: usize = 0;
    assert(texts(out@).to_multiset() =~= Multiset::<Seq<char>>::empty());
    let ghost mut drawn: Seq<(Seq<char>, i64)> = Seq::empty();
    assert(drawn.to_multiset() =~= Multiset::<(Seq<char>, i64)>::empty());
    assert(zip_entries(texts(pool_ids@), pool_weights@) =~= zip_entries(texts(ids@), weights@));
    assert forall|j: int| 0 <= j < pool_ids.len() implies entry_of(#[trigger] texts(pool_ids@)[j], pool_weights@[j], texts(ids@), weights@) by {
        assert(texts(pool_ids@)[j] == texts(ids@)[j]);
    }
    while k < actual
        invariant
            k <= actual,
            actual <= ids.len(),
            out.len() == k,
            pool_ids.len() == pool_weights.len(),
            pool_ids.len() + k == ids.len(),
            texts(out@).to_multiset().add(texts(pool_ids@).to_multiset()) == texts(ids@).to_multiset(),
            all_positive(weights@) ==> all_positive(pool_weights@),
            none_positive(weights@) ==> none_positive(pool_weights@),
            none_positive(weights@) ==> k == 0,
            drawn_from(texts(out@), texts(ids@), weights@),
            forall|j: int| 0 <= j < pool_ids.len() ==> entry_of(#[trigger] texts(pool_ids@)[j], pool_weights@[j], texts(ids@), weights@),
            pair_ids(drawn) == texts(out@),
            drawn.to_multiset().add(zip_entries(texts(pool_ids@), pool_weights@).to_multiset())
                == zip_entries(texts(ids@), weights@).to_multiset(),
        ensures
            k < actual ==> weight_sum(pool_weights@) <= 0,
            pool_ids.len() == pool_weights.len(),
            pair_ids(drawn) == texts(out@),
            drawn.to_multiset().add(zip_entries(texts(pool_ids@), pool_weights@).to_multiset())
                == zip_entries(texts(ids@), weights@).to_multiset(),
            all_positive(weights@) ==> k == actual,
            k <= actual,
            out.len() == k,
            pool_ids.len() + k == ids.len(),
            texts(out@).to_multiset().add(texts(pool_ids@).to_multiset()) == texts(ids@).to_multiset(),
            none_positive(weights@) ==> k == 0,
            drawn_from(texts(out@), texts(ids@), weights@),
        decreases actual - k,
    {
        if pool_ids.len() == 0 {
            assert(pool_weights@ =~= Seq::<i64>::empty());
            break;
        }
        let total = total_weight(&pool_weights);
        if total <= 0 {
            proof {
                if all_positive(weights@) {
                    lemma_positive_sum(pool_weights@);
                }
            }
            break;
        }
        proof {
            if none_positive(weights@) {
                lemma_nonpositive_sum(pool_weights@);
            }
        }
        let roll = random_below(total);
        let ghost old_ids = pool_ids@;
        let ghost old_w = pool_weights@;
        let ghost idx = roulette(old_w, roll as int);
        let picked = take_pick(&mut pool_ids, &mut pool_weights, roll);
        let ghost before = texts(out@);
        out.push(picked);
        proof {
            let oz = zip_entries(texts(old_ids), old_w);
            let pair = oz[idx];
            assert(zip_entries(texts(pool_ids@), pool_weights@) =~= oz.remove(idx));
            assert(oz.to_multiset().count(pair) > 0) by {
                assert(oz.contains(pair));
            }
            let old_drawn = drawn;
            drawn = drawn.push(pair);
            assert(pair_ids(drawn) =~= pair_ids(old_drawn).push(picked@));
            assert(drawn.to_multiset().add(zip_entries(texts(pool_ids@), pool_weights@).to_multiset())
                =~= old_drawn.to_multiset().add(oz.to_multiset()));
            assert(texts(out@) =~= before.push(picked@));
            assert(texts(pool_ids@) =~= texts(old_ids).remove(idx));
            assert(texts(old_ids)[idx] == picked@);
            assert(texts(out@).to_multiset() =~= before.to_multiset().insert(picked@));
            assert(texts(pool_ids@).to_multiset() =~= texts(old_ids).to_multiset().remove(picked@));
            assert(texts(old_ids).to_multiset().count(picked@) > 0) by {
                assert(texts(old_ids).contains(picked@));
            }
            assert(texts(out@).to_multiset().add(texts(pool_ids@).to_multiset())
                =~= before.to_multiset().add(texts(old_ids).to_multiset()));
            assert(all_positive(weights@) ==> all_positive(pool_weights@)) by {
                if all_positive(weights@) {
                    assert forall|j: int| 0 <= j < pool_weights@.len() implies pool_weights@[j] > 0 by {
                        if j < idx {
                            assert(pool_weights@[j] == old_w[j]);
                        } else {
                            assert(pool_weights@[j] == old_w[j + 1]);
                        }
                    }
                }
            }
            assert(entry_of(texts(old_ids)[idx], old_w[idx], texts(ids@), weights@));
            assert(positive_entry(picked@, texts(ids@), weights@));
            assert forall|q: int| 0 <= q < texts(out@).len() implies positive_entry(#[trigger] texts(out@)[q], texts(ids@), weights@) by {
                if q < before.len() {
                    assert(texts(out@)[q] == before[q]);
                } else {
                    assert(texts(out@)[q] == picked@);
                }
            }
            assert forall|j: int| 0 <= j < pool_ids.len() implies entry_of(#[trigger] texts(pool_ids@)[j], pool_weights@[j], texts(ids@), weights@) by {
                if j < idx {
                    assert(texts(pool_ids@)[j] == texts(old_ids)[j]);
                    assert(entry_of(texts(old_ids)[j], old_w[j], texts(ids@), weights@));
                } else {
                    assert(texts(pool_ids@)[j] == texts(old_ids)[j + 1]);
                    assert(entry_of(texts(old_ids)[j + 1], old_w[j + 1], texts(ids@), weights@));
                }
            }
        }
        k += 1;
    }
    proof {
        let rest = zip_entries(texts(pool_ids@), pool_weights@);
        assert(pair_weights(rest) =~= pool_weights@);
        assert(drawn.to_multiset().add(rest.to_multiset()) == zip_entries(texts(ids@), weights@).to_multiset());
        if all_positive(weights@) && count >= ids.len() {
            assert(pool_ids.len() == 0);
            assert(texts(pool_ids@).to_multiset() =~= Multiset::<Seq<char>>::empty());
            assert(texts(out@).to_multiset() =~= texts(ids@).to_multiset());
        }
    }
    out
}

/// A copy of each identifier.
fn clone_all(v: &Vec<String>) -> (r: Vec<String>)
    ensures
        r@.len() == v@.len(),
        texts(r@) == texts(v@),
{
    let mut r: Vec<String> = Vec::new();
    let mut i: usize = 0;
    while i < v.len()
        invariant
            i <= v.len(),
            r@.len() == i,
            texts(r@) =~= texts(v@).take(i as int),
        decreases v.len() - i,
    {
        let ghost before = r@;
        r.push(v[i].clone());
        assert(texts(r@) =~= texts(before).push(texts(v@)[i as int]));
        i += 1;
    }
    assert(texts(v@).take(v.len() as int) =~= texts(v@));
    r
}

/// A copy of the weights.
fn clone_weights(v: &Vec<i64>) -> (r: Vec<i64>)
    ensures
        r@ == v@,
{
    let mut r: Vec<i64> = Vec::new();
    let mut i: usize = 0;
    while i < v.len()
        invariant
            i <= v.len(),
            r@ =~= v@.take(i as int),
        decreases v.len() - i,
    {
        r.push(v[i]);
        i += 1;
    }
    assert(v@.take(v.len() as int) =~= v@);
    r
}

} // verus!
