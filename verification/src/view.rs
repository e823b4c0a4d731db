use vstd::prelude::*;
use vstd::string::StringExecFns;

use crate::ieee32::add_32;
use crate::ieee32::add_bits32;
use crate::ieee32::div_32;
use crate::ieee32::div_bits32;
use crate::ieee32::fmax32;
use crate::ieee32::fmin32;
use crate::ieee32::max_32;
use crate::ieee32::min_32;
use crate::ieee32::of_count_32;
use crate::ieee32::of_count_bits32;
use crate::ieee32::to_usize_32;
use crate::ieee32::usize_of_bits32;

verus! {

/// Number of derived band values shown per electrode channel.
pub const N_EEG_DERIVED_VALUES: usize = 5;

/// The encoding of the step three fifths: raw values running from minus
/// three to three land on the ten display buckets.
pub const RANGE_STEP_BITS: u32 = 0x3f19_999a;

/// Where a raw derived value lands among the ten display buckets.
pub open spec fn range_bucket_bits(val: u32) -> usize {
    usize_of_bits32(
        fmin32(
            fmax32(
                div_bits32(add_bits32(val, of_count_bits32(3)), RANGE_STEP_BITS),
                of_count_bits32(0),
            ),
            of_count_bits32(9),
        ),
    )
}

/// Shift a raw value from the minus-three-to-three range into the zero-to
/// nine bucket range, clamped at both ends.
pub fn _range_raw_values_to_0_to_9(val: u32) -> (r: usize)
    ensures
        r == range_bucket_bits(val),
{
    let shifted = div_32(add_32(val, of_count_32(3)), RANGE_STEP_BITS);
    to_usize_32(min_32(max_32(shifted, of_count_32(0)), of_count_32(9)))
}

/// Advance a cyclic index over the derived band values.
pub fn wrap_eeg_derived_value_index(i: usize) -> (r: usize)
    requires
        i < usize::MAX,
    ensures
        r == (i + 1) % (N_EEG_DERIVED_VALUES as int),
{
    (i + 1) % N_EEG_DERIVED_VALUES
}

/// The decimal digit character for a value below ten.
pub open spec fn digit_char(d: nat) -> char {
    if d == 0 {
        '0'
    } else if d == 1 {
        '1'
    } else if d == 2 {
        '2'
    } else if d == 3 {
        '3'
    } else if d == 4 {
        '4'
    } else if d == 5 {
        '5'
    } else if d == 6 {
        '6'
    } else if d == 7 {
        '7'
    } else if d == 8 {
        '8'
    } else {
        '9'
    }
}

/// The decimal rendering of a number, most significant digit first.
pub open spec fn dec_digits(n: nat) -> Seq<char>
    decreases n,
{
    if n < 10 {
        seq![digit_char(n)]
    } else {
        dec_digits(n / 10) + seq![digit_char(n % 10)]
    }
}

fn digit_str(d: usize) -> (r: &'static str)
    requires
        d < 10,
    ensures
        r@ =~= seq![digit_char(d as nat)],
{
    let r: &'static str = if d == 0 {
        "0"
    } else if d == 1 {
        "1"
    } else if d == 2 {
        "2"
    } else if d == 3 {
        "3"
    } else if d == 4 {
        "4"
    } else if d == 5 {
        "5"
    } else if d == 6 {
        "6"
    } else if d == 7 {
        "7"
    } else if d == 8 {
        "8"
    } else {
        "9"
    };
    proof {
        reveal_strlit("0");
        reveal_strlit("1");
        reveal_strlit("2");
        reveal_strlit("3");
        reveal_strlit("4");
        reveal_strlit("5");
        reveal_strlit("6");
        reveal_strlit("7");
        reveal_strlit("8");
        reveal_strlit("9");
    }
    r
}

fn decimal_string(n: usize) -> (r: String)
    ensures
        r@ == dec_digits(n as nat),
    decreases n,
{
    if n < 10 {
        String::from_str(digit_str(n))
    } else {
        let mut s = decimal_string(n / 10);
        s.append(digit_str(n % 10));
        assert(s@ == dec_digits(n as nat / 10) + seq![digit_char(n as nat % 10)]);
        s
    }
}

/// Build the name of the numbered image file for one frame of an animation.
pub fn filename(filename_prefix: &str, i: usize) -> (r: String)
    ensures
        r@ == filename_prefix@ + dec_digits(i as nat) + ".png"@,
{
    let mut filename = String::from_str(filename_prefix);
    let digits = decimal_string(i);
    filename.append(digits.as_str());
    filename.append(".png");
    filename
}

} // verus!
