use vstd::prelude::*;
use vstd::string::StrSliceExecFns;
use vstd::string::StringExecFns;

use crate::dice_total::seq_sum;
use crate::dice_total::sat_cap;
use crate::dice_total::DiceTotal;
use crate::die::Die;
use crate::die::DieView;
use crate::notation::dec_str;
use crate::notation::digits_val;
use crate::notation::lemma_sep_index;
use crate::notation::parse_decimal;
use crate::notation::sep_index;
use crate::notation::u128_to_string;
use crate::notation::valid_number;
use crate::notation::DiceError;
use crate::rollable::Rollable;

verus! {

/// The die count of the notation string `s`: the digits before the
/// first `d`.
pub open spec fn notation_count(s: Seq<char>) -> Seq<char> {
    s.subrange(0, sep_index(s))
}

/// The face value of the notation string `s`: the digits after the
/// first `d`.
pub open spec fn notation_faces(s: Seq<char>) -> Seq<char> {
    s.subrange(sep_index(s) + 1, s.len() as int)
}

/// Whether `s` is well-formed `NdM` notation for face type `T`:
/// a `d` with a die count fitting `usize` before it and a positive
/// face value fitting `T` after it.
pub open spec fn valid_notation<T: Rollable>(s: Seq<char>) -> bool {
    &&& sep_index(s) < s.len()
    &&& valid_number(notation_count(s), usize::MAX as nat)
    &&& valid_number(notation_faces(s), T::max_nat())
    &&& digits_val(notation_faces(s)) >= 1
}

/// How `NdM` parsing classifies `s` for face type `T`: the reported
/// error, or nothing when `s` is valid notation.
pub open spec fn notation_classification<T: Rollable>(s: Seq<char>) -> Option<DiceError> {
    if sep_index(s) == s.len() {
        Some(DiceError::MissingSeparator)
    } else if !valid_number(notation_count(s), usize::MAX as nat) {
        Some(DiceError::InvalidCount)
    } else if !valid_number(notation_faces(s), T::max_nat()) {
        Some(DiceError::InvalidFaceValue)
    } else if digits_val(notation_faces(s)) == 0 {
        Some(DiceError::ZeroFaces)
    } else {
        None
    }
}

/// The rendering of face magnitudes in decimal, space-separated.
pub open spec fn faces_str(vals: Seq<nat>) -> Seq<char>
    decreases vals.len(),
{
    if vals.len() == 0 {
        Seq::empty()
    } else if vals.len() == 1 {
        dec_str(vals[0])
    } else {
        faces_str(vals.drop_last()) + seq![' '] + dec_str(vals.last())
    }
}

/// A handful of dice, all sharing one face type (though not necessarily
/// one face count: a d4 and a d6 may sit in one pool). The dice keep
/// their insertion order.
#[derive(Clone, Debug)]
pub struct Dice<T: Rollable = u32> {
    dice: Vec<Die<T>>,
}

impl<T: Rollable> View for Dice<T> {
    type V = Seq<DieView<T>>;

    closed spec fn view(&self) -> Seq<DieView<T>> {
        self.dice@.map_values(|d: Die<T>| d@)
    }
}

impl<T: Rollable> Dice<T> {
    /// A well-formed pool: every die shows a face between 1 and its
    /// own face count.
    pub open spec fn wf(self) -> bool {
        forall|k: int|
            0 <= k < self@.len() ==> 1 <= (#[trigger] self@[k]).value.as_nat() <= self@[k].faces.as_nat()
    }

    /// The magnitudes of the faces the dice currently show, pool order.
    pub open spec fn values(self) -> Seq<nat> {
        self@.map_values(|dv: DieView<T>| dv.value.as_nat())
    }

    /// Creates a new set of `dice` dice, each with `faces` faces and
    /// each already rolled once. Only allows dice of the same type:
    /// no mixture of d4 and d6.
    pub fn new(dice: usize, faces: T) -> (r: Dice<T>)
        requires
            1 <= faces.as_nat(),
        ensures
            r.wf(),
            r@.len() == dice,
            forall|k: int| 0 <= k < r@.len() ==> (#[trigger] r@[k]).faces == faces,
    {
        let mut v: Vec<Die<T>> = Vec::new();
        let mut i: usize = 0;
        while i < dice
            invariant
                i <= dice,
                v@.len() == i,
                1 <= faces.as_nat(),
                forall|k: int| 0 <= k < v@.len() ==> (#[trigger] v@[k])@.faces == faces,
                forall|k: int| 0 <= k < v@.len() ==> (#[trigger] v@[k]).wf(),
            decreases dice - i,
        {
            v.push(Die::new(faces));
            i = i + 1;
        }
        let r = Dice { dice: v };
        proof {
            assert(r@.len() == v@.len());
            assert(forall|k: int| 0 <= k < r@.len() ==> r@[k] == (#[trigger] v@[k])@);
        }
        r
    }

    /// Creates a set of dice from an already-built sequence of dice,
    /// taking ownership and performing no re-roll. The dice may mix
    /// face counts, as long as they share the face type.
    pub fn from(dice: Vec<Die<T>>) -> (r: Dice<T>)
        ensures
            r@.len() == dice@.len(),
            forall|k: int| 0 <= k < dice@.len() ==> r@[k] == (#[trigger] dice@[k])@,
            (forall|k: int| 0 <= k < dice@.len() ==> (#[trigger] dice@[k]).wf()) ==> r.wf(),
    {
        Dice { dice }
    }

    /// The dice in the set, pool order.
    pub fn dice(&self) -> (r: &Vec<Die<T>>)
        ensures
            r@.len() == self@.len(),
            forall|k: int| 0 <= k < self@.len() ==> (#[trigger] r@[k])@ == self@[k],
    {
        &self.dice
    }

    /// The current face of each die in the set, pool order.
    pub fn current_faces(&self) -> (r: Vec<T>)
        ensures
            r@.len() == self@.len(),
            forall|k: int| 0 <= k < self@.len() ==> r@[k] == (#[trigger] self@[k]).value,
    {
        let mut v: Vec<T> = Vec::new();
        let mut i: usize = 0;
        while i < self.dice.len()
            invariant
                i <= self.dice@.len(),
                self@.len() == self.dice@.len(),
                v@.len() == i,
                forall|k: int| 0 <= k < i ==> v@[k] == (#[trigger] self@[k]).value,
            decreases self.dice@.len() - i,
        {
            v.push(self.dice[i].current_face());
            i = i + 1;
        }
        v
    }

    /// Rolls every die in place, in pool order, and returns `self` for
    /// chaining. The pool keeps its length and every die its face
    /// count; only the shown faces change.
    pub fn roll_all(&mut self) -> (r: &Dice<T>)
        requires
            old(self).wf(),
        ensures
            final(self).wf(),
            final(self)@.len() == old(self)@.len(),
            forall|k: int|
                0 <= k < old(self)@.len() ==> (#[trigger] final(self)@[k]).faces == old(self)@[k].faces,
            r == *final(self),
    {
        let n = self.dice.len();
        let mut i: usize = 0;
        while i < n
            invariant
                i <= n,
                n == self.dice@.len(),
                self@.len() == old(self)@.len(),
                forall|k: int|
                    0 <= k < self@.len() ==> (#[trigger] self@[k]).faces == old(self)@[k].faces,
                forall|k: int|
                    0 <= k < self@.len() ==> 1 <= (#[trigger] self@[k]).value.as_nat() <= self@[k].faces.as_nat(),
            decreases n - i,
        {
            let ghost pre = self@;
            let mut d = self.dice[i];
            proof {
                assert(pre[i as int] == self.dice@[i as int]@);
            }
            d.roll();
            self.dice.set(i, d);
            proof {
                assert forall|k: int| 0 <= k < self@.len() implies #[trigger] self@[k] == (if k
                    == i as int {
                    d@
                } else {
                    pre[k]
                }) by {
                    assert(self@[k] == self.dice@[k]@);
                }
            }
            i = i + 1;
        }
        self
    }

    /// Parses `NdM` dice notation, such as `3d6`: a die count, the
    /// letter `d` and a face value, with nothing else around them.
    /// On success the returned pool behaves exactly as one built by
    /// `new`: every die is already rolled.
    pub fn parse(s: &str) -> (r: Result<Dice<T>, DiceError>)
        ensures
            match r {
                Ok(pool) => {
                    &&& notation_classification::<T>(s@) is None
                    &&& pool.wf()
                    &&& pool@.len() == digits_val(notation_count(s@))
                    &&& forall|k: int|
                        0 <= k < pool@.len() ==> (#[trigger] pool@[k]).faces.as_nat() == digits_val(
                            notation_faces(s@),
                        )
                },
                Err(e) => notation_classification::<T>(s@) == Some(e),
            },
    {
        let n = s.unicode_len();
        let mut i: usize = 0;
        while i < n && s.get_char(i) != 'd'
            invariant
                i <= n,
                n == s@.len(),
                forall|j: int| 0 <= j < i ==> s@[j] != 'd',
            decreases n - i,
        {
            i = i + 1;
        }
        proof {
            lemma_sep_index(s@);
            assert(i as int == sep_index(s@));
        }
        if i == n {
            return Err(DiceError::MissingSeparator);
        }
        let count = match parse_decimal(s, 0, i) {
            Some(v) => v,
            None => {
                return Err(DiceError::InvalidCount);
            },
        };
        if count > usize::MAX as u128 {
            return Err(DiceError::InvalidCount);
        }
        let count = count as usize;
        proof {
            T::lemma_max_nat_fits();
        }
        let faces_value = match parse_decimal(s, i + 1, n) {
            Some(v) => v,
            None => {
                return Err(DiceError::InvalidFaceValue);
            },
        };
        if faces_value == 0 {
            return Err(DiceError::ZeroFaces);
        }
        let faces = match T::from_u128_value(faces_value) {
            Some(f) => f,
            None => {
                return Err(DiceError::InvalidFaceValue);
            },
        };
        proof {
            faces.lemma_as_nat_bounded();
        }
        Ok(Dice::new(count, faces))
    }

    /// The total of the faces currently shown, by the face type's
    /// saturating summation.
    pub fn total(&self) -> (r: T) where T: DiceTotal<T>
        ensures
            r.as_nat() == sat_cap(seq_sum(self.values()), T::max_nat()),
    {
        let faces = self.current_faces();
        let r = T::dice_total(faces);
        proof {
            assert(faces@.map_values(|x: T| x.as_nat()) =~= self.values());
        }
        r
    }

    /// The compact rendering of the pool: its total in decimal.
    pub fn total_string(&self) -> (r: String) where T: DiceTotal<T>
        ensures
            r@ == dec_str(sat_cap(seq_sum(self.values()), T::max_nat())),
    {
        let total = self.total();
        u128_to_string(total.to_u128_value())
    }

    /// The verbose rendering of the pool: each die's current face in
    /// decimal, space-separated, pool order; empty for an empty pool.
    pub fn faces_string(&self) -> (r: String)
        ensures
            r@ == faces_str(self.values()),
    {
        let mut out = String::new();
        let mut i: usize = 0;
        proof {
            reveal_strlit(" ");
        }
        while i < self.dice.len()
            invariant
                i <= self.dice@.len(),
                self@.len() == self.dice@.len(),
                out@ == faces_str(self.values().subrange(0, i as int)),
                " "@ == seq![' '],
            decreases self.dice@.len() - i,
        {
            if i > 0 {
                out.append(" ");
            }
            let face = self.dice[i].current_face();
            let rendered = u128_to_string(face.to_u128_value());
            out.append(rendered.as_str());
            proof {
                let vals = self.values();
                assert(self@[i as int] == self.dice@[i as int]@);
                assert(vals[i as int] == self@[i as int].value.as_nat());
                assert(vals.subrange(0, i + 1).drop_last() =~= vals.subrange(0, i as int));
                assert(vals.subrange(0, i + 1).last() == vals[i as int]);
            }
            i = i + 1;
        }
        proof {
            assert(self.values().subrange(0, self.values().len() as int) =~= self.values());
        }
        out
    }
}

impl<T: Rollable> std::ops::Add for Dice<T> {
    type Output = Dice<T>;

    /// Combines two pools: the left pool's dice followed by the right
    /// pool's, each keeping the face it currently shows; no re-roll
    /// takes place.
    fn add(self, other: Dice<T>) -> (r: Dice<T>)
        ensures
            r@ == self@ + other@,
            self.wf() && other.wf() ==> r.wf(),
    {
        let mut dice = self.dice;
        let mut rest = other.dice;
        let ghost left = self@;
        let ghost right = other@;
        dice.append(&mut rest);
        let r = Dice { dice };
        proof {
            assert(r@ =~= left + right);
        }
        r
    }
}

// Pool concatenation has no algebraic `add_spec` here: a spec-level
// `Dice` value cannot be assembled out of two others. `obeys_add_spec`
// is therefore `false`, and callers rely on the `ensures` of the `Add`
// impl above instead.
impl<T: Rollable> vstd::std_specs::ops::AddSpecImpl for Dice<T> {
    open spec fn obeys_add_spec() -> bool {
        false
    }

    open spec fn add_req(self, rhs: Dice<T>) -> bool {
        true
    }

    open spec fn add_spec(self, rhs: Dice<T>) -> Dice<T> {
        self
    }
}

impl<T: Rollable> core::str::FromStr for Dice<T> {
    type Err = DiceError;

    /// Parses `NdM` dice notation; see `Dice::parse` for the contract.
    fn from_str(s: &str) -> Result<Dice<T>, DiceError> {
        Dice::parse(s)
    }
}

/// Every die in a well-formed pool shows a face between 1 and its own
/// face count; the snapshot of current face magnitudes has one entry
/// per die.
pub proof fn lemma_pool_faces_in_range<T: Rollable>(pool: Dice<T>)
    requires
        pool.wf(),
    ensures
        pool.values().len() == pool@.len(),
        forall|k: int|
            0 <= k < pool@.len() ==> 1 <= #[trigger] pool.values()[k] <= pool@[k].faces.as_nat(),
{
    assert forall|k: int| 0 <= k < pool@.len() implies (1 <= #[trigger] pool.values()[k]
        && pool.values()[k] <= pool@[k].faces.as_nat()) by {
        assert(pool.values()[k] == pool@[k].value.as_nat());
    }
}

/// For a well-formed pool of dice that all share the face count `f`,
/// with the pool's length times `f` within the face type's range, the
/// saturating total that `total` returns lies between the pool's
/// length and that length times `f`.
pub proof fn lemma_total_in_range<T: Rollable>(pool: Dice<T>, f: nat)
    requires
        pool.wf(),
        forall|k: int| 0 <= k < pool@.len() ==> (#[trigger] pool@[k]).faces.as_nat() == f,
        pool@.len() * f <= T::max_nat(),
    ensures
        pool@.len() <= sat_cap(seq_sum(pool.values()), T::max_nat()),
        sat_cap(seq_sum(pool.values()), T::max_nat()) <= pool@.len() * f,
{
    let vals = pool.values();
    assert forall|k: int| 0 <= k < vals.len() implies 1 <= #[trigger] vals[k] <= f by {
        assert(vals[k] == pool@[k].value.as_nat());
    }
    crate::dice_total::lemma_seq_sum_bounds(vals, 1, f);
    assert(vals.len() * 1 == vals.len()) by (nonlinear_arith);
}

/// As long as the mathematical sum of the shown faces fits the face
/// type, the saturating total that `total` returns is exactly that
/// sum: the cap only matters once the sum leaves the type's range.
pub proof fn lemma_total_is_sum<T: Rollable>(pool: Dice<T>)
    requires
        seq_sum(pool.values()) <= T::max_nat(),
    ensures
        sat_cap(seq_sum(pool.values()), T::max_nat()) == seq_sum(pool.values()),
{
}

/// Pool concatenation is associative: combining three pools in either
/// grouping yields the same dice sequence, in the same order, of the
/// combined length. Together with `add`'s contract
/// (`r@ == self@ + other@`), the pools `(a + b) + c` and `a + (b + c)`
/// show identical face sequences.
pub proof fn lemma_concat_associative<T: Rollable>(
    a: Seq<DieView<T>>,
    b: Seq<DieView<T>>,
    c: Seq<DieView<T>>,
)
    ensures
        (a + b) + c == a + (b + c),
        ((a + b) + c).len() == a.len() + b.len() + c.len(),
{
    assert((a + b) + c =~= a + (b + c));
}

} // verus!
