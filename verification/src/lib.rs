//! Utilities for rolling dice: single dice, ordered pools of dice sharing
//! one face type, and the compact `NdM` notation (such as `3d6`) for
//! describing them.
//!
//! A pool built from notation is already rolled: parsing `3d6` draws a
//! random face for each of the three dice, so the result can be read (or
//! totalled) at once. Face values are drawn uniformly from `1..=M` with a
//! bounded-range sampler, so no face is favoured by modulo bias. Totals
//! use saturating addition, capped at the face type's maximum value.
use vstd::prelude::*;

pub use dice::faces_str;
pub use dice::lemma_concat_associative;
pub use dice::lemma_pool_faces_in_range;
pub use dice::lemma_total_in_range;
pub use dice::lemma_total_is_sum;
pub use dice::notation_classification;
pub use dice::notation_count;
pub use dice::notation_faces;
pub use dice::valid_notation;
pub use dice::Dice;
pub use dice_total::sat_cap;
pub use dice_total::seq_sum;
pub use dice_total::DiceTotal;
pub use die::Die;
pub use die::DieView;
pub use notation::dec_str;
pub use notation::digits_val;
pub use notation::DiceError;
pub use rollable::Rollable;

mod dice;
mod dice_total;
mod die;
mod notation;
mod rollable;

verus! {

/// Attempts to roll dice based on a `1d6` style string: parses the
/// notation into a pool, which rolls every die, and returns the pool's
/// total. Fails exactly when the notation is malformed, with the error
/// naming what was wrong.
pub fn try_quickroll<T: Rollable + DiceTotal<T>>(dice_format: &str) -> (r: Result<T, DiceError>)
    ensures
        match r {
            Ok(v) => {
                &&& valid_notation::<T>(dice_format@)
                &&& sat_cap(digits_val(notation_count(dice_format@)), T::max_nat()) <= v.as_nat()
                &&& v.as_nat() <= sat_cap(
                    digits_val(notation_count(dice_format@)) * digits_val(
                        notation_faces(dice_format@),
                    ),
                    T::max_nat(),
                )
            },
            Err(e) => notation_classification::<T>(dice_format@) == Some(e),
        },
{
    let dice = match Dice::<T>::parse(dice_format) {
        Ok(d) => d,
        Err(e) => {
            return Err(e);
        },
    };
    let total = dice.total();
    proof {
        crate::notation::lemma_sep_index(dice_format@);
        let vals = dice.values();
        let n = digits_val(notation_count(dice_format@));
        let f = digits_val(notation_faces(dice_format@));
        assert(vals.len() == n);
        assert forall|k: int| 0 <= k < vals.len() implies 1 <= #[trigger] vals[k] <= f by {
            assert(vals[k] == dice@[k].value.as_nat());
        }
        crate::dice_total::lemma_seq_sum_bounds(vals, 1, f);
        assert(n * 1 == n) by (nonlinear_arith);
        assert(n <= seq_sum(vals) <= n * f);
    }
    Ok(total)
}

/// Rolls dice based on a `1d6` style string and returns the total.
/// The notation must be well formed: this is the crash-on-malformed
/// counterpart of `try_quickroll`, for callers that know their input.
pub fn quickroll<T: Rollable + DiceTotal<T>>(dice_format: &str) -> (r: T)
    requires
        valid_notation::<T>(dice_format@),
    ensures
        sat_cap(digits_val(notation_count(dice_format@)), T::max_nat()) <= r.as_nat(),
        r.as_nat() <= sat_cap(
            digits_val(notation_count(dice_format@)) * digits_val(notation_faces(dice_format@)),
            T::max_nat(),
        ),
{
    match try_quickroll::<T>(dice_format) {
        Ok(v) => v,
        Err(_) => vstd::pervasive::unreached(),
    }
}

} // verus!
