//! The three-way holdout split: shuffle, then cut at two rounded thresholds.

use vstd::prelude::*;
use vstd::arithmetic::div_mod::lemma_div_is_ordered;
use vstd::arithmetic::mul::lemma_mul_upper_bound;
use rand::seq::SliceRandom;
use crate::email::Entry;

verus! {

/// Holdout ratios as an exact rational triple over a common positive scale:
/// the adjust, validation and test shares are `adjust/scale`,
/// `validation/scale` and `test/scale`.
#[derive(Debug, Clone, Copy, PartialEq, Eq, Structural)]
pub struct Ratios {
    pub adjust: u64,
    pub validation: u64,
    pub test: u64,
    pub scale: u64,
}

/// An invalid ratio triple: the three parts do not sum exactly to the scale,
/// or the scale is zero.
#[derive(Debug, Clone, Copy, PartialEq, Eq, Structural)]
pub struct RatioError;

impl Ratios {
    /// A valid triple covers the whole scale, so the three shares sum to one.
    pub open spec fn wf(self) -> bool {
        self.scale > 0 && self.adjust + self.validation + self.test == self.scale
    }

    /// Builds a ratio triple, rejecting any whose parts do not cover the
    /// scale exactly.
    pub fn new(adjust: u64, validation: u64, test: u64, scale: u64) -> (r: Result<Ratios, RatioError>)
        ensures
            r is Ok <==> scale > 0 && adjust + validation + test == scale,
            r is Ok ==> r->Ok_0 == (Ratios { adjust, validation, test, scale }),
            r is Ok ==> r->Ok_0.wf(),
    {
        if scale == 0 {
            return Err(RatioError);
        }
        let sum: u128 = adjust as u128 + validation as u128 + test as u128;
        if sum == scale as u128 {
            Ok(Ratios { adjust, validation, test, scale })
        } else {
            Err(RatioError)
        }
    }
}

/// `round(n * num / den)` computed exactly, with halves rounded up
/// (round half away from zero, since nothing here is negative).
pub open spec fn rounded_share(n: int, num: int, den: int) -> int {
    (n * num + den / 2) / den
}

/// Exact rounded share of `n`, in 128-bit arithmetic so nothing overflows.
fn share_of(n: usize, num: u64, den: u64) -> (r: usize)
    requires
        den > 0,
        num <= den,
    ensures
        r == rounded_share(n as int, num as int, den as int),
        r <= n,
{
    proof {
        lemma_share_le(n as int, num as int, den as int);
        lemma_mul_upper_bound(n as int, u64::MAX as int, num as int, u64::MAX as int);
    }
    let q: u128 = ((n as u128) * (num as u128) + (den as u128) / 2) / (den as u128);
    q as usize
}

/// A rounded share of `n` never exceeds `n` itself.
proof fn lemma_share_le(n: int, num: int, den: int)
    requires
        den > 0,
        0 <= num <= den,
        0 <= n,
    ensures
        0 <= rounded_share(n, num, den) <= n,
{
    assert(n * num <= n * den) by (nonlinear_arith)
        requires num <= den, 0 <= n,
    ;
    assert((n * den + den / 2) / den == n) by (nonlinear_arith)
        requires den > 0, 0 <= n,
    ;
    lemma_div_is_ordered(n * num + den / 2, n * den + den / 2, den);
    assert(0 <= n * num) by (nonlinear_arith)
        requires 0 <= n, 0 <= num,
    ;
    assert((n * num + den / 2) / den >= 0) by (nonlinear_arith)
        requires den > 0, 0 <= n * num + den / 2,
    ;
}

/// A rounded share grows with its numerator.
proof fn lemma_share_monotone(n: int, num1: int, num2: int, den: int)
    requires
        den > 0,
        0 <= num1 <= num2,
        0 <= n,
    ensures
        rounded_share(n, num1, den) <= rounded_share(n, num2, den),
{
    assert(n * num1 <= n * num2) by (nonlinear_arith)
        requires num1 <= num2, 0 <= n,
    ;
    lemma_div_is_ordered(n * num1 + den / 2, n * num2 + den / 2, den);
}

/// Relies on rand's `SliceRandom::shuffle`: it permutes the slice in place
/// (a uniformly chosen permutation), so the entries themselves — as a
/// multiset — and the length are unchanged.
#[verifier::external_body]
pub(crate) fn shuffle_entries(data: &mut Vec<Entry>)
    ensures
        final(data)@.len() == old(data)@.len(),
        final(data)@.to_multiset() == old(data)@.to_multiset(),
{
    data.shuffle(&mut rand::rng());
}

/// Shuffles the records uniformly, then partitions them into
/// (adjust, validation, test) subsets.
///
/// The first cut keeps `round(n * (adjust + validation) / scale)` records,
/// the second keeps `round(n * adjust / scale)` of those; the test subset
/// absorbs everything after the first cut. The three lengths always sum to
/// the input length, and together the three outputs hold exactly the input
/// records (as a multiset — the order is the shuffle's).
pub fn holdout_split(data: Vec<Entry>, ratios: &Ratios) -> (r: (Vec<Entry>, Vec<Entry>, Vec<Entry>))
    requires
        ratios.wf(),
    ensures
        r.0@.len() == rounded_share(data@.len() as int, ratios.adjust as int, ratios.scale as int),
        r.0@.len() + r.1@.len() == rounded_share(
            data@.len() as int,
            ratios.adjust + ratios.validation,
            ratios.scale as int,
        ),
        r.0@.len() + r.1@.len() + r.2@.len() == data@.len(),
        (r.0@ + r.1@ + r.2@).to_multiset() == data@.to_multiset(),
{
    let ghost before = data@;
    let mut shuffled = data;
    shuffle_entries(&mut shuffled);
    let ghost mixed = shuffled@;
    let n = shuffled.len();

    let training_num = ratios.adjust + ratios.validation;
    let training_size = share_of(n, training_num, ratios.scale);
    let adjust_size = share_of(n, ratios.adjust, ratios.scale);
    proof {
        lemma_share_monotone(
            n as int,
            ratios.adjust as int,
            training_num as int,
            ratios.scale as int,
        );
    }

    let testing = shuffled.split_off(training_size);
    let mut adjust = shuffled;
    let validation = adjust.split_off(adjust_size);

    proof {
        assert(adjust@ + validation@ + testing@ =~= mixed);
        assert((adjust@ + validation@ + testing@).to_multiset() == before.to_multiset());
    }
    (adjust, validation, testing)
}

} // verus!
