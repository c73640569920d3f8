//! From counts to a duration in seconds, and from seconds to a display string.
use vstd::prelude::*;
use vstd::string::StringExecFns;
use crate::speed::ReadSpeed;

verus! {

/// The quotient `n / d` rounded up to a whole number.
pub open spec fn ceil_div(n: nat, d: nat) -> nat
    recommends
        d > 0,
{
    ((n + d - 1) / (d as int)) as nat
}

/// The reading time in whole seconds, before any machine limit applies.
///
/// The exact time is `words / words_per_minute * 60` seconds for the text plus
/// a fixed number of seconds for each image and each code block. The result is
/// that time rounded up to the next whole second. Only the text term can have
/// a fraction, so rounding it up rounds the sum up.
pub open spec fn reading_seconds(
    words: nat,
    images: nat,
    code_blocks: nat,
    speed: ReadSpeed,
) -> nat
    recommends
        speed.is_usable(),
{
    ceil_div(words * 60, speed.words_per_minute as nat) + images * (speed.seconds_per_image as nat)
        + code_blocks * (speed.seconds_per_code_block as nat)
}

/// A number of seconds as it is stored: the largest `u64` stands for every
/// larger number.
pub open spec fn clamp_seconds(seconds: nat) -> u64 {
    if seconds > u64::MAX {
        u64::MAX
    } else {
        seconds as u64
    }
}

/// The decimal digit for a number below ten.
pub open spec fn digit_char(d: nat) -> char
    recommends
        d < 10,
{
    if d == 0 {
        '0'
    } else if d == 1 {
        '1'
    } else if d == 2 {
        '2'
    } else if d == 3 {
        '3'
    } else if d == 4 {
        '4'
    } else if d == 5 {
        '5'
    } else if d == 6 {
        '6'
    } else if d == 7 {
        '7'
    } else if d == 8 {
        '8'
    } else {
        '9'
    }
}

/// The decimal representation of a number, without leading zeros.
pub open spec fn decimal_digits(n: nat) -> Seq<char>
    decreases n,
{
    if n < 10 {
        seq![digit_char(n)]
    } else {
        decimal_digits(n / 10).push(digit_char(n % 10))
    }
}

/// The unit written after a number of seconds.
pub open spec fn seconds_unit() -> Seq<char> {
    seq!['秒']
}

/// The unit written after a whole number of minutes.
pub open spec fn minutes_unit() -> Seq<char> {
    seq!['分', '钟']
}

/// The unit written after the minutes when seconds follow.
pub open spec fn minutes_short_unit() -> Seq<char> {
    seq!['分']
}

/// A duration as it is displayed: seconds alone below one minute, minutes
/// alone for whole minutes, minutes and seconds otherwise.
pub open spec fn format_time_spec(seconds: nat) -> Seq<char> {
    let m = seconds / 60;
    let s = seconds % 60;
    if m == 0 {
        decimal_digits(s) + seconds_unit()
    } else if s == 0 {
        decimal_digits(m) + minutes_unit()
    } else {
        decimal_digits(m) + minutes_short_unit() + decimal_digits(s) + seconds_unit()
    }
}

/// The number of minutes that cover a number of seconds.
pub open spec fn minutes_spec(seconds: nat) -> nat {
    (seconds + 59) / 60
}

proof fn lemma_product_fits(a: u64, b: u64)
    ensures
        a * b <= u128::MAX,
{
    assert(a * b <= 0xFFFF_FFFF_FFFF_FFFF * 0xFFFF_FFFF_FFFF_FFFF) by (nonlinear_arith)
        requires
            0 <= a <= 0xFFFF_FFFF_FFFF_FFFF,
            0 <= b <= 0xFFFF_FFFF_FFFF_FFFF,
    ;
}

/// The reading time for the given counts, in seconds, rounded up.
///
/// A time beyond the largest `u64` is reported as the largest `u64`.
pub fn total_seconds(
    word_count: usize,
    image_count: usize,
    code_block_count: usize,
    speed: &ReadSpeed,
) -> (seconds: u64)
    requires
        speed.is_usable(),
    ensures
        seconds == clamp_seconds(
            reading_seconds(
                word_count as nat,
                image_count as nat,
                code_block_count as nat,
                *speed,
            ),
        ),
{
    let limit: u128 = u64::MAX as u128;
    let wpm: u128 = speed.words_per_minute as u128;
    let base: u128 = (word_count as u128 * 60 + wpm - 1) / wpm;
    proof {
        lemma_product_fits(image_count as u64, speed.seconds_per_image);
        lemma_product_fits(code_block_count as u64, speed.seconds_per_code_block);
    }
    let images: u128 = image_count as u128 * (speed.seconds_per_image as u128);
    let code_blocks: u128 = code_block_count as u128 * (speed.seconds_per_code_block as u128);
    let base: u128 = if base > limit { limit } else { base };
    let images: u128 = if images > limit { limit } else { images };
    let code_blocks: u128 = if code_blocks > limit { limit } else { code_blocks };
    let sum: u128 = base + images + code_blocks;
    if sum > limit {
        u64::MAX
    } else {
        sum as u64
    }
}

fn digit_str(d: u64) -> (s: &'static str)
    requires
        d < 10,
    ensures
        s@ == seq![digit_char(d as nat)],
{
    proof {
        reveal_strlit("0");
        reveal_strlit("1");
        reveal_strlit("2");
        reveal_strlit("3");
        reveal_strlit("4");
        reveal_strlit("5");
        reveal_strlit("6");
        reveal_strlit("7");
        reveal_strlit("8");
        reveal_strlit("9");
    }
    let s = if d == 0 {
        "0"
    } else if d == 1 {
        "1"
    } else if d == 2 {
        "2"
    } else if d == 3 {
        "3"
    } else if d == 4 {
        "4"
    } else if d == 5 {
        "5"
    } else if d == 6 {
        "6"
    } else if d == 7 {
        "7"
    } else if d == 8 {
        "8"
    } else {
        "9"
    };
    assert(s@ =~= seq![digit_char(d as nat)]);
    s
}

/// Appends the decimal representation of `n` to `out`.
pub fn push_decimal(out: &mut String, n: u64)
    ensures
        final(out)@ == old(out)@ + decimal_digits(n as nat),
    decreases n,
{
    if n >= 10 {
        push_decimal(out, n / 10);
    }
    out.append(digit_str(n % 10));
    proof {
        let before = old(out)@;
        if n >= 10 {
            assert(before + decimal_digits((n / 10) as nat) + seq![digit_char((n % 10) as nat)]
                =~= before + decimal_digits(n as nat));
        } else {
            assert(before + seq![digit_char((n % 10) as nat)] =~= before + decimal_digits(
                n as nat,
            ));
        }
    }
}

/// Renders a duration for display.
pub fn format_time(seconds: u64) -> (text: String)
    ensures
        text@ == format_time_spec(seconds as nat),
{
    let minutes = seconds / 60;
    let remaining_seconds = seconds % 60;
    proof {
        reveal_strlit("秒");
        reveal_strlit("分钟");
        reveal_strlit("分");
        assert("秒"@ =~= seconds_unit());
        assert("分钟"@ =~= minutes_unit());
        assert("分"@ =~= minutes_short_unit());
    }
    let mut text = String::new();
    if minutes == 0 {
        push_decimal(&mut text, seconds);
        text.append("秒");
    } else if remaining_seconds == 0 {
        push_decimal(&mut text, minutes);
        text.append("分钟");
    } else {
        push_decimal(&mut text, minutes);
        text.append("分");
        push_decimal(&mut text, remaining_seconds);
        text.append("秒");
    }
    assert(text@ =~= format_time_spec(seconds as nat));
    text
}

} // verus!
