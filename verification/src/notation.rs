use vstd::prelude::*;
use vstd::string::StrSliceExecFns;
use vstd::string::StringExecFns;

verus! {

/// The ways a dice-notation string can be rejected.
#[derive(Clone, Copy, Debug, PartialEq, Eq, Structural)]
pub enum DiceError {
    /// The notation has no `d` separator.
    MissingSeparator,
    /// The count before the `d` is not a valid die count.
    InvalidCount,
    /// The text after the `d` is not a valid face value of the face type.
    InvalidFaceValue,
    /// The face value is zero, which would leave a die with no face to show.
    ZeroFaces,
}

impl DiceError {
    /// A short description of the error.
    pub fn message(&self) -> (r: &'static str)
        ensures
            match self {
                DiceError::MissingSeparator => r@ == "missing 'd' separator"@,
                DiceError::InvalidCount => r@ == "malformed count"@,
                DiceError::InvalidFaceValue => r@ == "malformed face value"@,
                DiceError::ZeroFaces => r@ == "face count must be at least 1"@,
            },
    {
        match self {
            DiceError::MissingSeparator => "missing 'd' separator",
            DiceError::InvalidCount => "malformed count",
            DiceError::InvalidFaceValue => "malformed face value",
            DiceError::ZeroFaces => "face count must be at least 1",
        }
    }
}

/// Whether `c` is a decimal digit.
pub open spec fn is_digit_char(c: char) -> bool {
    48 <= c as int <= 57
}

/// The value of the decimal digit `c`.
pub open spec fn digit_char_val(c: char) -> nat {
    (c as int - 48) as nat
}

/// Whether `s` consists of decimal digits only.
pub open spec fn all_digits(s: Seq<char>) -> bool {
    forall|k: int| 0 <= k < s.len() ==> is_digit_char(#[trigger] s[k])
}

/// The number denoted by the digit string `s`, most significant digit
/// first; 0 for the empty string.
pub open spec fn digits_val(s: Seq<char>) -> nat
    decreases s.len(),
{
    if s.len() == 0 {
        0
    } else {
        digits_val(s.drop_last()) * 10 + digit_char_val(s.last())
    }
}

/// A non-empty run of decimal digits denoting a number at most `bound`.
pub open spec fn valid_number(s: Seq<char>, bound: nat) -> bool {
    s.len() > 0 && all_digits(s) && digits_val(s) <= bound
}

/// The index of the first `d` in `s`, or `s.len()` when there is none.
pub open spec fn sep_index(s: Seq<char>) -> int
    decreases s.len(),
{
    if s.len() == 0 {
        0
    } else if s[0] == 'd' {
        0
    } else {
        1 + sep_index(s.drop_first())
    }
}

/// `sep_index` points at the first `d`: everything before it differs
/// from `d`, and it only reaches `s.len()` when `s` has no `d` at all.
pub proof fn lemma_sep_index(s: Seq<char>)
    ensures
        0 <= sep_index(s) <= s.len(),
        sep_index(s) < s.len() ==> s[sep_index(s)] == 'd',
        forall|j: int| 0 <= j < sep_index(s) ==> s[j] != 'd',
    decreases s.len(),
{
    if s.len() == 0 {
    } else if s[0] == 'd' {
    } else {
        lemma_sep_index(s.drop_first());
        assert forall|j: int| 0 <= j < sep_index(s) implies s[j] != 'd' by {
            if j > 0 {
                assert(s.drop_first()[j - 1] == s[j]);
                assert(s.drop_first()[j - 1] != 'd');
            }
        }
    }
}

/// A digit string denotes at least as much as any of its prefixes.
pub proof fn lemma_digits_val_prefix_le(s: Seq<char>, i: int)
    requires
        0 <= i <= s.len(),
    ensures
        digits_val(s.subrange(0, i)) <= digits_val(s),
    decreases s.len() - i,
{
    if i == s.len() {
        assert(s.subrange(0, i) =~= s);
    } else {
        assert(s.subrange(0, i + 1).drop_last() =~= s.subrange(0, i));
        assert(s.subrange(0, i + 1).last() == s[i]);
        lemma_digits_val_prefix_le(s, i + 1);
    }
}

/// Parses `s[from..to]` (in characters) as an unsigned decimal number.
/// Returns its value exactly when that range is a non-empty digit string
/// whose value fits in 128 bits.
pub fn parse_decimal(s: &str, from: usize, to: usize) -> (r: Option<u128>)
    requires
        from <= to <= s@.len(),
    ensures
        ({
            let part = s@.subrange(from as int, to as int);
            match r {
                Some(v) => valid_number(part, u128::MAX as nat) && v as nat == digits_val(part),
                None => !valid_number(part, u128::MAX as nat),
            }
        }),
{
    let ghost part = s@.subrange(from as int, to as int);
    if from == to {
        return None;
    }
    let mut acc: u128 = 0;
    let mut i: usize = from;
    while i < to
        invariant
            from <= i <= to <= s@.len(),
            part == s@.subrange(from as int, to as int),
            all_digits(part.subrange(0, i - from)),
            acc as nat == digits_val(part.subrange(0, i - from)),
        decreases to - i,
    {
        let c = s.get_char(i);
        proof {
            assert(part[i - from] == s@[i as int]);
        }
        let u = c as u32;
        if u < 48 || u > 57 {
            proof {
                assert(!is_digit_char(part[i - from]));
            }
            return None;
        }
        let d = (u - 48) as u128;
        let ghost prefix = part.subrange(0, i - from);
        proof {
            assert(part.subrange(0, i - from + 1).drop_last() =~= prefix);
            assert(part.subrange(0, i - from + 1).last() == part[i - from]);
        }
        let shifted = match acc.checked_mul(10) {
            Some(m) => m,
            None => {
                proof {
                    lemma_digits_val_prefix_le(part, i - from + 1);
                }
                return None;
            },
        };
        let next = match shifted.checked_add(d) {
            Some(n) => n,
            None => {
                proof {
                    lemma_digits_val_prefix_le(part, i - from + 1);
                }
                return None;
            },
        };
        acc = next;
        i = i + 1;
    }
    proof {
        assert(part.subrange(0, part.len() as int) =~= part);
    }
    Some(acc)
}

/// The character for the decimal digit `d`.
pub open spec fn digit_char(d: nat) -> char {
    if d == 0 {
        '0'
    } else if d == 1 {
        '1'
    } else if d == 2 {
        '2'
    } else if d == 3 {
        '3'
    } else if d == 4 {
        '4'
    } else if d == 5 {
        '5'
    } else if d == 6 {
        '6'
    } else if d == 7 {
        '7'
    } else if d == 8 {
        '8'
    } else {
        '9'
    }
}

/// The decimal rendering of `n`, most significant digit first, with no
/// leading zeros (a single `0` for zero itself).
pub open spec fn dec_str(n: nat) -> Seq<char>
    decreases n,
{
    if n < 10 {
        seq![digit_char(n)]
    } else {
        dec_str(n / 10).push(digit_char(n % 10))
    }
}

/// The one-character string for the decimal digit `d`.
fn digit_str(d: u128) -> (r: &'static str)
    requires
        d < 10,
    ensures
        r@ == seq![digit_char(d as nat)],
{
    proof {
        reveal_strlit("0");
        reveal_strlit("1");
        reveal_strlit("2");
        reveal_strlit("3");
        reveal_strlit("4");
        reveal_strlit("5");
        reveal_strlit("6");
        reveal_strlit("7");
        reveal_strlit("8");
        reveal_strlit("9");
    }
    let r = if d == 0 {
        "0"
    } else if d == 1 {
        "1"
    } else if d == 2 {
        "2"
    } else if d == 3 {
        "3"
    } else if d == 4 {
        "4"
    } else if d == 5 {
        "5"
    } else if d == 6 {
        "6"
    } else if d == 7 {
        "7"
    } else if d == 8 {
        "8"
    } else {
        "9"
    };
    proof {
        assert(r@ =~= seq![digit_char(d as nat)]);
    }
    r
}

/// Renders `n` in decimal.
pub fn u128_to_string(n: u128) -> (r: String)
    ensures
        r@ == dec_str(n as nat),
    decreases n,
{
    if n < 10 {
        String::from_str(digit_str(n))
    } else {
        let mut s = u128_to_string(n / 10);
        s.append(digit_str(n % 10));
        proof {
            assert(dec_str((n / 10) as nat) + seq![digit_char((n % 10) as nat)]
                =~= dec_str((n / 10) as nat).push(digit_char((n % 10) as nat)));
        }
        s
    }
}

} // verus!
