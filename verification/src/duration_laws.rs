//! Laws of the time computation and of the display string.
use vstd::prelude::*;
use crate::duration::{
    ceil_div,
    decimal_digits,
    digit_char,
    format_time_spec,
    minutes_short_unit,
    minutes_unit,
    reading_seconds,
    seconds_unit,
};
use crate::speed::ReadSpeed;

verus! {

/// A quotient rounded up is the least whole number that is not below the
/// quotient.
pub proof fn lemma_ceil_div(n: nat, d: nat)
    requires
        d > 0,
    ensures
        ceil_div(n, d) * d >= n,
        (ceil_div(n, d) - 1) * d < n,
{
    let q = (n + d - 1) / (d as int);
    assert(q * d >= n && (q - 1) * d < n && q >= 0) by (nonlinear_arith)
        requires
            d > 0,
            n >= 0,
            q == (n + d - 1) / (d as int),
    ;
}

/// The reading time is the exact time rounded up to a whole second.
///
/// The exact time is `words * 60 / wpm + images * per_image + code_blocks *
/// per_code_block` seconds. Both claims are stated after multiplying by
/// `wpm`: the reading time is not below the exact time, and it exceeds the
/// exact time by less than one second.
pub proof fn lemma_reading_seconds_is_ceiling(
    words: nat,
    images: nat,
    code_blocks: nat,
    speed: ReadSpeed,
)
    requires
        speed.is_usable(),
    ensures
        reading_seconds(words, images, code_blocks, speed) * speed.words_per_minute >= words * 60
            + (images * speed.seconds_per_image + code_blocks * speed.seconds_per_code_block)
            * speed.words_per_minute,
        (reading_seconds(words, images, code_blocks, speed) - 1) * speed.words_per_minute < words
            * 60 + (images * speed.seconds_per_image + code_blocks * speed.seconds_per_code_block)
            * speed.words_per_minute,
{
    let wpm = speed.words_per_minute as nat;
    let base = ceil_div(words * 60, wpm);
    let per_image = speed.seconds_per_image as nat;
    let per_code_block = speed.seconds_per_code_block as nat;
    let fixed = images * per_image + code_blocks * per_code_block;
    lemma_ceil_div(words * 60, wpm);
    assert(reading_seconds(words, images, code_blocks, speed) == base + fixed);
    assert((base + fixed) * wpm == base * wpm + fixed * wpm) by (nonlinear_arith);
    assert((base + fixed - 1) * wpm == (base - 1) * wpm + fixed * wpm) by (nonlinear_arith);
}

/// Images and code blocks add a fixed time on top of the time for the words.
pub proof fn lemma_structure_adds_fixed_time(
    words: nat,
    images: nat,
    code_blocks: nat,
    speed: ReadSpeed,
)
    ensures
        reading_seconds(words, images, code_blocks, speed) == reading_seconds(words, 0, 0, speed)
            + images * speed.seconds_per_image + code_blocks * speed.seconds_per_code_block,
{
    assert(0 * (speed.seconds_per_image as nat) == 0);
    assert(0 * (speed.seconds_per_code_block as nat) == 0);
}

/// Whether a character is a decimal digit.
pub open spec fn is_digit(c: char) -> bool {
    '0' <= c <= '9'
}

/// Whether a sequence holds decimal digits only.
pub open spec fn all_digits(text: Seq<char>) -> bool {
    forall|i: int| 0 <= i < text.len() ==> is_digit(#[trigger] text[i])
}

/// The number of digits that a sequence begins with.
pub open spec fn leading_digits(text: Seq<char>) -> nat
    decreases text.len(),
{
    if text.len() == 0 || !is_digit(text.first()) {
        0
    } else {
        1 + leading_digits(text.drop_first())
    }
}

/// A decimal representation is not empty and holds digits only.
pub proof fn lemma_decimal_digits_are_digits(n: nat)
    ensures
        decimal_digits(n).len() >= 1,
        all_digits(decimal_digits(n)),
    decreases n,
{
    if n >= 10 {
        lemma_decimal_digits_are_digits(n / 10);
    }
}

/// Two numbers with the same decimal representation are equal.
pub proof fn lemma_decimal_digits_injective(a: nat, b: nat)
    requires
        decimal_digits(a) == decimal_digits(b),
    ensures
        a == b,
    decreases a,
{
    lemma_decimal_digits_are_digits(a / 10);
    lemma_decimal_digits_are_digits(b / 10);
    if a >= 10 && b >= 10 {
        let da = decimal_digits(a / 10);
        let db = decimal_digits(b / 10);
        assert(da.push(digit_char(a % 10)).drop_last() =~= da);
        assert(db.push(digit_char(b % 10)).drop_last() =~= db);
        assert(da.push(digit_char(a % 10)).last() == digit_char(a % 10));
        assert(db.push(digit_char(b % 10)).last() == digit_char(b % 10));
        lemma_decimal_digits_injective(a / 10, b / 10);
    } else if a < 10 && b < 10 {
        assert(decimal_digits(a)[0] == digit_char(a));
        assert(decimal_digits(b)[0] == digit_char(b));
    } else if a < 10 {
        assert(decimal_digits(a).len() == 1);
        assert(decimal_digits(b).len() == decimal_digits(b / 10).len() + 1);
    } else {
        assert(decimal_digits(b).len() == 1);
        assert(decimal_digits(a).len() == decimal_digits(a / 10).len() + 1);
    }
}

/// Digits followed by something that does not begin with a digit: the
/// leading digits of the whole are exactly those digits.
pub proof fn lemma_leading_digits(digits: Seq<char>, rest: Seq<char>)
    requires
        all_digits(digits),
        rest.len() == 0 || !is_digit(rest.first()),
    ensures
        leading_digits(digits + rest) == digits.len(),
    decreases digits.len(),
{
    if digits.len() == 0 {
        assert(digits + rest =~= rest);
    } else {
        let tail = digits.drop_first();
        assert forall|i: int| 0 <= i < tail.len() implies is_digit(#[trigger] tail[i]) by {
            assert(tail[i] == digits[i + 1]);
        }
        assert(is_digit(digits[0]));
        assert((digits + rest).first() == digits[0]);
        assert((digits + rest).drop_first() =~= tail + rest);
        lemma_leading_digits(tail, rest);
    }
}

/// The parts of a display string: the digits it begins with are the first
/// number, and what follows is the unit, or the short unit, the seconds and
/// their unit.
proof fn lemma_format_time_parts(seconds: nat)
    ensures
        ({
            let text = format_time_spec(seconds);
            let m = seconds / 60;
            let s = seconds % 60;
            let k = leading_digits(text) as int;
            &&& 0 < k < text.len()
            &&& text.take(k) == decimal_digits(if m == 0 { s } else { m })
            &&& m == 0 ==> text.skip(k) == seconds_unit()
            &&& m != 0 && s == 0 ==> text.skip(k) == minutes_unit()
            &&& m != 0 && s != 0 ==> text.skip(k) == minutes_short_unit() + decimal_digits(s)
                + seconds_unit()
        }),
{
    let m = seconds / 60;
    let s = seconds % 60;
    let first = decimal_digits(if m == 0 { s } else { m });
    let rest = if m == 0 {
        seconds_unit()
    } else if s == 0 {
        minutes_unit()
    } else {
        minutes_short_unit() + decimal_digits(s) + seconds_unit()
    };
    let text = format_time_spec(seconds);
    lemma_decimal_digits_are_digits(if m == 0 { s } else { m });
    lemma_decimal_digits_are_digits(s);
    assert(text =~= first + rest);
    assert(rest.len() > 0 && !is_digit(rest.first()));
    lemma_leading_digits(first, rest);
    assert((first + rest).take(first.len() as int) =~= first);
    assert((first + rest).skip(first.len() as int) =~= rest);
}

/// Two durations with the same display string are equal: the string gives
/// back the minutes and the seconds it was made from.
pub proof fn lemma_format_time_injective(a: nat, b: nat)
    requires
        format_time_spec(a) == format_time_spec(b),
    ensures
        a == b,
{
    lemma_format_time_parts(a);
    lemma_format_time_parts(b);
    let ma = a / 60;
    let sa = a % 60;
    let mb = b / 60;
    let sb = b % 60;
    let k = leading_digits(format_time_spec(a)) as int;
    let rest = format_time_spec(a).skip(k);
    lemma_decimal_digits_are_digits(sa);
    lemma_decimal_digits_are_digits(sb);
    lemma_decimal_digits_injective(
        if ma == 0 { sa } else { ma },
        if mb == 0 { sb } else { mb },
    );
    // The unit tells the three forms apart.
    let long_a = minutes_short_unit() + decimal_digits(sa) + seconds_unit();
    let long_b = minutes_short_unit() + decimal_digits(sb) + seconds_unit();
    assert(seconds_unit().len() == 1 && minutes_unit().len() == 2);
    assert(long_a.len() >= 3 && long_b.len() >= 3);
    if ma != 0 && sa != 0 {
        assert(rest == long_a);
        assert(rest == long_b);
        assert(long_a.subrange(1, long_a.len() - 1) =~= decimal_digits(sa));
        assert(long_b.subrange(1, long_b.len() - 1) =~= decimal_digits(sb));
        lemma_decimal_digits_injective(sa, sb);
    }
}

} // verus!
