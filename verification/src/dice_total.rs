use vstd::prelude::*;

use crate::rollable::Rollable;

verus! {

/// The sum of a sequence of naturals.
pub open spec fn seq_sum(s: Seq<nat>) -> nat
    decreases s.len(),
{
    if s.len() == 0 {
        0
    } else {
        s[0] + seq_sum(s.drop_first())
    }
}

/// `n` capped at `cap`: the value a saturating sum settles on.
pub open spec fn sat_cap(n: nat, cap: nat) -> nat {
    if n <= cap {
        n
    } else {
        cap
    }
}

/// Appending one element adds exactly that element to the sum.
pub proof fn lemma_seq_sum_push(s: Seq<nat>, x: nat)
    ensures
        seq_sum(s.push(x)) == seq_sum(s) + x,
    decreases s.len(),
{
    if s.len() == 0 {
        assert(s.push(x)[0] == x);
        assert(s.push(x).drop_first() =~= Seq::<nat>::empty());
        assert(seq_sum(Seq::<nat>::empty()) == 0);
        assert(seq_sum(s) == 0);
    } else {
        assert(s.push(x)[0] == s[0]);
        assert(s.push(x).drop_first() =~= s.drop_first().push(x));
        lemma_seq_sum_push(s.drop_first(), x);
    }
}

/// A sum of values each between `lo` and `hi` lies between
/// `len * lo` and `len * hi`.
pub proof fn lemma_seq_sum_bounds(s: Seq<nat>, lo: nat, hi: nat)
    requires
        forall|k: int| 0 <= k < s.len() ==> lo <= #[trigger] s[k] <= hi,
    ensures
        s.len() * lo <= seq_sum(s) <= s.len() * hi,
    decreases s.len(),
{
    if s.len() == 0 {
    } else {
        assert(forall|k: int|
            0 <= k < s.drop_first().len() ==> lo <= #[trigger] s.drop_first()[k] <= hi);
        lemma_seq_sum_bounds(s.drop_first(), lo, hi);
        assert((s.len() - 1) * lo + lo == s.len() * lo) by (nonlinear_arith);
        assert((s.len() - 1) * hi + hi == s.len() * hi) by (nonlinear_arith);
    }
}

/// Reduces an ordered collection of face values to one total of the
/// same type.
///
/// Totals saturate: values are added with saturating addition, so the
/// result is the mathematical sum of the magnitudes, capped at the
/// type's maximum value. Dice totals are typically far below that cap,
/// so the cap is only a guard against silent wraparound.
pub trait DiceTotal<T: Rollable> {
    /// The total of the given face values.
    fn dice_total(dice_faces: Vec<T>) -> (r: T)
        ensures
            r.as_nat() == sat_cap(
                seq_sum(dice_faces@.map_values(|x: T| x.as_nat())),
                T::max_nat(),
            ),
    ;
}

impl DiceTotal<u8> for u8 {
    fn dice_total(dice_faces: Vec<u8>) -> u8 {
        let ghost vals = dice_faces@.map_values(|x: u8| x.as_nat());
        let mut total: u8 = 0;
        let mut i: usize = 0;
        while i < dice_faces.len()
            invariant
                i <= dice_faces@.len(),
                vals == dice_faces@.map_values(|x: u8| x.as_nat()),
                total as nat == sat_cap(seq_sum(vals.subrange(0, i as int)), u8::MAX as nat),
            decreases dice_faces@.len() - i,
        {
            proof {
                assert(vals.subrange(0, i + 1) =~= vals.subrange(0, i as int).push(vals[i as int]));
                lemma_seq_sum_push(vals.subrange(0, i as int), vals[i as int]);
            }
            total = total.saturating_add(dice_faces[i]);
            i = i + 1;
        }
        proof {
            assert(vals.subrange(0, vals.len() as int) =~= vals);
        }
        total
    }
}

impl DiceTotal<u16> for u16 {
    fn dice_total(dice_faces: Vec<u16>) -> u16 {
        let ghost vals = dice_faces@.map_values(|x: u16| x.as_nat());
        let mut total: u16 = 0;
        let mut i: usize = 0;
        while i < dice_faces.len()
            invariant
                i <= dice_faces@.len(),
                vals == dice_faces@.map_values(|x: u16| x.as_nat()),
                total as nat == sat_cap(seq_sum(vals.subrange(0, i as int)), u16::MAX as nat),
            decreases dice_faces@.len() - i,
        {
            proof {
                assert(vals.subrange(0, i + 1) =~= vals.subrange(0, i as int).push(vals[i as int]));
                lemma_seq_sum_push(vals.subrange(0, i as int), vals[i as int]);
            }
            total = total.saturating_add(dice_faces[i]);
            i = i + 1;
        }
        proof {
            assert(vals.subrange(0, vals.len() as int) =~= vals);
        }
        total
    }
}

impl DiceTotal<u32> for u32 {
    fn dice_total(dice_faces: Vec<u32>) -> u32 {
        let ghost vals = dice_faces@.map_values(|x: u32| x.as_nat());
        let mut total: u32 = 0;
        let mut i: usize = 0;
        while i < dice_faces.len()
            invariant
                i <= dice_faces@.len(),
                vals == dice_faces@.map_values(|x: u32| x.as_nat()),
                total as nat == sat_cap(seq_sum(vals.subrange(0, i as int)), u32::MAX as nat),
            decreases dice_faces@.len() - i,
        {
            proof {
                assert(vals.subrange(0, i + 1) =~= vals.subrange(0, i as int).push(vals[i as int]));
                lemma_seq_sum_push(vals.subrange(0, i as int), vals[i as int]);
            }
            total = total.saturating_add(dice_faces[i]);
            i = i + 1;
        }
        proof {
            assert(vals.subrange(0, vals.len() as int) =~= vals);
        }
        total
    }
}

impl DiceTotal<u64> for u64 {
    fn dice_total(dice_faces: Vec<u64>) -> u64 {
        let ghost vals = dice_faces@.map_values(|x: u64| x.as_nat());
        let mut total: u64 = 0;
        let mut i: usize = 0;
        while i < dice_faces.len()
            invariant
                i <= dice_faces@.len(),
                vals == dice_faces@.map_values(|x: u64| x.as_nat()),
                total as nat == sat_cap(seq_sum(vals.subrange(0, i as int)), u64::MAX as nat),
            decreases dice_faces@.len() - i,
        {
            proof {
                assert(vals.subrange(0, i + 1) =~= vals.subrange(0, i as int).push(vals[i as int]));
                lemma_seq_sum_push(vals.subrange(0, i as int), vals[i as int]);
            }
            total = total.saturating_add(dice_faces[i]);
            i = i + 1;
        }
        proof {
            assert(vals.subrange(0, vals.len() as int) =~= vals);
        }
        total
    }
}

impl DiceTotal<u128> for u128 {
    fn dice_total(dice_faces: Vec<u128>) -> u128 {
        let ghost vals = dice_faces@.map_values(|x: u128| x.as_nat());
        let mut total: u128 = 0;
        let mut i: usize = 0;
        while i < dice_faces.len()
            invariant
                i <= dice_faces@.len(),
                vals == dice_faces@.map_values(|x: u128| x.as_nat()),
                total as nat == sat_cap(seq_sum(vals.subrange(0, i as int)), u128::MAX as nat),
            decreases dice_faces@.len() - i,
        {
            proof {
                assert(vals.subrange(0, i + 1) =~= vals.subrange(0, i as int).push(vals[i as int]));
                lemma_seq_sum_push(vals.subrange(0, i as int), vals[i as int]);
            }
            total = total.saturating_add(dice_faces[i]);
            i = i + 1;
        }
        proof {
            assert(vals.subrange(0, vals.len() as int) =~= vals);
        }
        total
    }
}

impl DiceTotal<usize> for usize {
    fn dice_total(dice_faces: Vec<usize>) -> usize {
        let ghost vals = dice_faces@.map_values(|x: usize| x.as_nat());
        let mut total: usize = 0;
        let mut i: usize = 0;
        while i < dice_faces.len()
            invariant
                i <= dice_faces@.len(),
                vals == dice_faces@.map_values(|x: usize| x.as_nat()),
                total as nat == sat_cap(seq_sum(vals.subrange(0, i as int)), usize::MAX as nat),
            decreases dice_faces@.len() - i,
        {
            proof {
                assert(vals.subrange(0, i + 1) =~= vals.subrange(0, i as int).push(vals[i as int]));
                lemma_seq_sum_push(vals.subrange(0, i as int), vals[i as int]);
            }
            total = total.saturating_add(dice_faces[i]);
            i = i + 1;
        }
        proof {
            assert(vals.subrange(0, vals.len() as int) =~= vals);
        }
        total
    }
}

} // verus!
