//! Let's abstract an alloy

use crate::error::VegasLatticeError;
use rand::distr::Distribution;
use vstd::prelude::*;

verus! {

/// rand's weighted index distribution over `u32` weights, held whole behind
/// an opaque struct: Verus cannot declare the type's own generic bounds, so
/// the contracts speak of it only through `weights_of`.
#[verifier::external_body]
#[derive(Debug)]
pub struct WeightedDist {
    dist: rand::distr::weighted::WeightedIndex<u32>,
}

/// The weight list a weighted index distribution stands for.
pub uninterp spec fn weights_of(w: WeightedDist) -> Seq<u32>;

/// The sum of a list of weights.
pub open spec fn sum_weights(s: Seq<u32>) -> int
    decreases s.len(),
{
    if s.len() == 0 {
        0
    } else {
        sum_weights(s.drop_last()) + s.last()
    }
}

/// Relies on rand's `WeightedIndex::new`: it accepts exactly a non-empty
/// weight list with a positive sum that fits the weight type (its error
/// cases are an empty iterator, a zero total and overflow; a `u32` weight is
/// never negative), and the distribution stands for that list.
#[verifier::external_body]
fn weighted_index_new(weights: &Vec<u32>) -> (r: Option<WeightedDist>)
    ensures
        r is Some ==> weights@.len() >= 1 && 0 < sum_weights(weights@) <= u32::MAX as int,
        r is None ==> !(weights@.len() >= 1 && 0 < sum_weights(weights@) <= u32::MAX as int),
        r matches Some(w) ==> weights_of(w) == weights@,
{
    match rand::distr::weighted::WeightedIndex::new(weights) {
        Ok(dist) => Some(WeightedDist { dist }),
        Err(_) => None,
    }
}

/// Relies on rand's `WeightedIndex` sampling (`Distribution::sample`): the
/// result indexes the weight list and never names a zero weight. Which index
/// comes back depends on the generator's state.
#[verifier::external_body]
fn weighted_index_sample(w: &WeightedDist, rng: &mut rand::rngs::StdRng) -> (r: usize)
    ensures
        r < weights_of(*w).len(),
        weights_of(*w)[r as int] > 0,
{
    w.dist.sample(rng)
}

/// An alloy is a collection of kinds of atoms and their ratios
///
/// It is used to pick a kind of atom from the alloy: each pick draws a kind
/// with probability proportional to its weight, and a zero-weight kind is
/// never drawn.
#[derive(Debug)]
pub struct Alloy {
    kinds: Vec<String>,
    weights: Vec<u32>,
    dist: WeightedDist,
}

/// What an alloy is to the contracts: the kind labels and their weights, in
/// parallel order.
pub ghost struct AlloyView {
    pub kinds: Seq<Seq<char>>,
    pub weights: Seq<u32>,
}

impl View for Alloy {
    type V = AlloyView;

    closed spec fn view(&self) -> AlloyView {
        AlloyView { kinds: self.kinds.deep_view(), weights: self.weights@ }
    }
}

impl Alloy {
    /// The alloy invariant: as many kinds as weights, a positive weight sum,
    /// and a distribution that stands for exactly these weights.
    pub closed spec fn wf(&self) -> bool {
        &&& self.kinds@.len() == self.weights@.len()
        &&& self.weights@.len() >= 1
        &&& 0 < sum_weights(self.weights@) <= u32::MAX as int
        &&& weights_of(self.dist) == self.weights@
    }

    /// Create a new alloy with a given list of kinds and their ratios: the
    /// two lists must have the same length, and some ratio must be positive
    /// with the total in range; otherwise the alloy fails with
    /// `InvalidRatios`.
    pub fn try_new(kinds: Vec<&str>, ratios: Vec<u32>) -> (r: core::result::Result<
        Self,
        VegasLatticeError,
    >)
        ensures
            r is Ok <==> {
                &&& kinds@.len() == ratios@.len()
                &&& ratios@.len() >= 1
                &&& 0 < sum_weights(ratios@) <= u32::MAX as int
            },
            r matches Ok(al) ==> al@.kinds == kinds.deep_view() && al@.weights == ratios@
                && al.wf(),
            r matches Err(e) ==> e == VegasLatticeError::InvalidRatios,
    {
        if kinds.len() != ratios.len() {
            return Err(VegasLatticeError::InvalidRatios);
        }
        let dist = match weighted_index_new(&ratios) {
            Some(d) => d,
            None => {
                return Err(VegasLatticeError::InvalidRatios);
            },
        };
        let owned = crate::util::to_owned_all(kinds);
        proof {
            assert(owned@.len() == owned.deep_view().len());
            assert(kinds@.len() == kinds.deep_view().len());
        }
        Ok(Alloy { kinds: owned, weights: ratios, dist })
    }

    /// Create a new alloy from a list of kind-and-ratio pairs.
    pub fn try_from_targets(targets: Vec<(&str, u32)>) -> (r: core::result::Result<
        Self,
        VegasLatticeError,
    >)
        ensures
            r is Ok <==> {
                &&& targets@.len() >= 1
                &&& 0 < sum_weights(Seq::new(targets@.len(), |i: int| targets@[i].1))
                    <= u32::MAX as int
            },
            r matches Ok(al) ==> {
                &&& al@.kinds == Seq::new(targets@.len(), |i: int| targets@[i].0@)
                &&& al@.weights == Seq::new(targets@.len(), |i: int| targets@[i].1)
                &&& al.wf()
            },
            r matches Err(e) ==> e == VegasLatticeError::InvalidRatios,
    {
        let n = targets.len();
        let mut kinds: Vec<&str> = Vec::new();
        let mut ratios: Vec<u32> = Vec::new();
        let mut i: usize = 0;
        while i < n
            invariant
                n == targets@.len(),
                i <= n,
                kinds@.len() == i,
                ratios@.len() == i,
                forall|j: int| 0 <= j < i ==> kinds@[j] == targets@[j].0,
                forall|j: int| 0 <= j < i ==> ratios@[j] == targets@[j].1,
            decreases n - i,
        {
            let (kind, ratio) = targets[i];
            kinds.push(kind);
            ratios.push(ratio);
            i += 1;
        }
        proof {
            assert(ratios@ =~= Seq::new(targets@.len(), |j: int| targets@[j].1));
            assert forall|j: int| 0 <= j < n implies kinds.deep_view()[j] == targets@[j].0@ by {
                assert(kinds.deep_view()[j] == kinds@[j]@);
            }
            assert(kinds.deep_view() =~= Seq::new(targets@.len(), |j: int| targets@[j].0@));
        }
        Self::try_new(kinds, ratios)
    }

    /// Picks a kind of atom from the alloy: always one whose weight is
    /// positive, with probability proportional to the weights.
    pub fn pick<'a>(&'a self, rng: &mut rand::rngs::StdRng) -> (r: &'a str)
        requires
            self.wf(),
        ensures
            exists|i: int|
                {
                    &&& 0 <= i < self@.kinds.len()
                    &&& r@ == #[trigger] self@.kinds[i]
                    &&& self@.weights[i] > 0
                },
    {
        let i = weighted_index_sample(&self.dist, rng);
        let kind: &String = &self.kinds[i];
        proof {
            assert(self@.kinds[i as int] == self.kinds@[i as int]@);
        }
        kind.as_str()
    }
}

} // verus!
