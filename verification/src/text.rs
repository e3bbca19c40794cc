//! Texts: the decimal rendering of fixed-point quantities, and the search
//! for one text in another.
use crate::fixed::{magnitude, Fixed};
use crate::rounding::{div_round, div_round_i128, lemma_div_round_between};
use vstd::prelude::*;
use vstd::string::*;

verus! {

/// The character for a single decimal digit.
pub open spec fn digit_char(d: int) -> char {
    if d == 0 {
        '0'
    } else if d == 1 {
        '1'
    } else if d == 2 {
        '2'
    } else if d == 3 {
        '3'
    } else if d == 4 {
        '4'
    } else if d == 5 {
        '5'
    } else if d == 6 {
        '6'
    } else if d == 7 {
        '7'
    } else if d == 8 {
        '8'
    } else {
        '9'
    }
}

/// The decimal digits of `n`, without leading zeros.
pub open spec fn nat_digits(n: nat) -> Seq<char>
    decreases n,
{
    if n < 10 {
        seq![digit_char(n as int)]
    } else {
        nat_digits(n / 10).push(digit_char((n % 10) as int))
    }
}

/// The last `width` decimal digits of `n`, with leading zeros as needed.
pub open spec fn padded_digits(n: nat, width: nat) -> Seq<char>
    decreases width,
{
    if width == 0 {
        Seq::<char>::empty()
    } else {
        padded_digits(n / 10, (width - 1) as nat).push(digit_char((n % 10) as int))
    }
}

/// Ten to the power `k`.
pub open spec fn pow10(k: nat) -> int
    decreases k,
{
    if k == 0 {
        1
    } else {
        10 * pow10((k - 1) as nat)
    }
}

/// The text of the number `scaled / 10^places`, written with exactly
/// `places` digits after the decimal point and a minus sign only when
/// `scaled` is below zero.
pub open spec fn scaled_text(scaled: int, places: nat) -> Seq<char> {
    let whole = (magnitude(scaled) / pow10(places)) as nat;
    let fraction = (magnitude(scaled) % pow10(places)) as nat;
    let sign = if scaled < 0 {
        seq!['-']
    } else {
        Seq::<char>::empty()
    };
    if places == 0 {
        sign + nat_digits(whole)
    } else {
        sign + nat_digits(whole) + seq!['.'] + padded_digits(fraction, places)
    }
}

/// The text of a fixed-point value with `places` digits after the decimal
/// point, for `places` up to six. The value is rounded to the nearest
/// representable number, a tie going to the even last digit.
pub open spec fn decimal_text(raw: int, places: nat) -> Seq<char> {
    scaled_text(div_round(raw, pow10((6 - places) as nat)), places)
}

/// The text of a fixed-point share as a percentage (the value times one
/// hundred) with `places` digits after the decimal point, for `places` up to
/// four, rounded like `decimal_text`.
pub open spec fn percent_text(raw: int, places: nat) -> Seq<char> {
    scaled_text(div_round(raw, pow10((4 - places) as nat)), places)
}

/// `needle` stands in `hay` at position `at`.
pub open spec fn occurs_at(needle: Seq<char>, hay: Seq<char>, at: int) -> bool {
    0 <= at && at + needle.len() <= hay.len() && hay.subrange(at, at + needle.len()) == needle
}

/// `needle` occurs somewhere in `hay` as a run of consecutive characters.
pub open spec fn occurs_in(needle: Seq<char>, hay: Seq<char>) -> bool {
    exists|at: int| occurs_at(needle, hay, at)
}

/// What `str::to_lowercase` makes of a text: its lower-case form as Unicode
/// defines it.
pub uninterp spec fn lowercase_of(text: Seq<char>) -> Seq<char>;

/// Lower-cases a text with `str::to_lowercase` of the standard library. The
/// result is a function of the text alone; it is named, not spelled out,
/// because the Unicode case tables decide it.
#[verifier::external_body]
pub(crate) fn to_lowercase(text: &str) -> (lower: String)
    ensures
        lower@ == lowercase_of(text@),
{
    text.to_lowercase()
}

/// Whether two texts are the same.
pub fn same_text(a: &str, b: &str) -> (same: bool)
    ensures
        same == (a@ == b@),
{
    String::from_str(a) == String::from_str(b)
}

/// The characters of a text.
pub fn chars_of(text: &str) -> (chars: Vec<char>)
    ensures
        chars@ == text@,
{
    broadcast use vstd::string::axiom_spec_iter;

    let mut chars: Vec<char> = Vec::new();
    for c in it: text.chars()
        invariant
            chars@ == it.seq().take(it.index() as int),
            it.seq() == text@,
    {
        chars.push(c);
        assert(it.seq().take(it.index() + 1) =~= it.seq().take(it.index() as int).push(c));
    }
    assert(chars@ =~= text@);
    chars
}

/// Whether `needle` stands in `hay` at position `at`.
fn matches_at(needle: &Vec<char>, hay: &Vec<char>, at: usize) -> (found: bool)
    requires
        at + needle@.len() <= hay@.len(),
    ensures
        found == occurs_at(needle@, hay@, at as int),
{
    let size = hay.len();
    let mut k: usize = 0;
    while k < needle.len()
        invariant
            k <= needle@.len(),
            at + needle@.len() <= hay@.len() == size,
            forall|j: int| 0 <= j < k ==> hay@[at + j] == needle@[j],
        decreases needle@.len() - k,
    {
        if hay[at + k] != needle[k] {
            assert(hay@.subrange(at as int, at + needle@.len())[k as int] != needle@[k as int]);
            return false;
        }
        k = k + 1;
    }
    assert(hay@.subrange(at as int, at + needle@.len()) =~= needle@);
    true
}

/// Whether `needle` occurs somewhere in `hay`.
pub fn contains_text(hay: &str, needle: &str) -> (found: bool)
    ensures
        found == occurs_in(needle@, hay@),
{
    let hay_chars = chars_of(hay);
    let needle_chars = chars_of(needle);
    if needle_chars.len() > hay_chars.len() {
        assert(!occurs_in(needle@, hay@)) by {
            assert forall|at: int| !occurs_at(needle@, hay@, at) by {}
        }
        return false;
    }
    let last: usize = hay_chars.len() - needle_chars.len();
    let mut at: usize = 0;
    while at < last
        invariant
            at <= last,
            last == hay_chars@.len() - needle_chars@.len(),
            hay_chars@ == hay@,
            needle_chars@ == needle@,
            forall|earlier: int| 0 <= earlier < at ==> !occurs_at(needle@, hay@, earlier),
        decreases last - at,
    {
        if matches_at(&needle_chars, &hay_chars, at) {
            assert(occurs_at(needle@, hay@, at as int));
            return true;
        }
        at = at + 1;
    }
    let found = matches_at(&needle_chars, &hay_chars, last);
    if found {
        assert(occurs_at(needle@, hay@, last as int));
    } else {
        assert forall|any: int| !occurs_at(needle@, hay@, any) by {}
    }
    found
}

/// The text of a single decimal digit.
fn digit_str(d: u64) -> (s: &'static str)
    requires
        d < 10,
    ensures
        s@ == seq![digit_char(d as int)],
{
    proof {
        reveal_strlit("0");
        reveal_strlit("1");
        reveal_strlit("2");
        reveal_strlit("3");
        reveal_strlit("4");
        reveal_strlit("5");
        reveal_strlit("6");
        reveal_strlit("7");
        reveal_strlit("8");
        reveal_strlit("9");
    }
    let s = if d == 0 {
        "0"
    } else if d == 1 {
        "1"
    } else if d == 2 {
        "2"
    } else if d == 3 {
        "3"
    } else if d == 4 {
        "4"
    } else if d == 5 {
        "5"
    } else if d == 6 {
        "6"
    } else if d == 7 {
        "7"
    } else if d == 8 {
        "8"
    } else {
        "9"
    };
    assert(s@ =~= seq![digit_char(d as int)]);
    s
}

/// Appends the decimal digits of `n` to `out`.
fn push_nat(out: &mut String, n: u64)
    ensures
        final(out)@ == old(out)@ + nat_digits(n as nat),
    decreases n,
{
    if n >= 10 {
        push_nat(out, n / 10);
    }
    out.append(digit_str(n % 10));
    proof {
        if n >= 10 {
            assert(out@ =~= old(out)@ + nat_digits((n / 10) as nat).push(
                digit_char((n % 10) as int),
            ));
        } else {
            assert(out@ =~= old(out)@ + seq![digit_char(n as int)]);
        }
    }
}

/// Appends the last `width` decimal digits of `n` to `out`.
fn push_padded(out: &mut String, n: u64, width: u8)
    ensures
        final(out)@ == old(out)@ + padded_digits(n as nat, width as nat),
    decreases width,
{
    if width > 0 {
        push_padded(out, n / 10, width - 1);
        out.append(digit_str(n % 10));
        proof {
            assert(out@ =~= old(out)@ + padded_digits((n / 10) as nat, (width - 1) as nat).push(
                digit_char((n % 10) as int),
            ));
        }
    } else {
        assert(out@ =~= old(out)@ + Seq::<char>::empty());
    }
}

/// Ten to the power `k`.
fn pow10_u64(k: u8) -> (p: u64)
    requires
        k <= 6,
    ensures
        p == pow10(k as nat),
        1 <= p <= 1_000_000,
{
    reveal_with_fuel(pow10, 7);
    if k == 0 {
        1
    } else if k == 1 {
        10
    } else if k == 2 {
        100
    } else if k == 3 {
        1_000
    } else if k == 4 {
        10_000
    } else if k == 5 {
        100_000
    } else {
        1_000_000
    }
}

/// Appends the text of `raw / unit`, rounded and then read as a number with
/// `places` decimal places, to `out`.
fn push_rounded(out: &mut String, raw: i64, unit: u64, places: u8)
    requires
        places <= 6,
        1 <= unit <= 1_000_000,
    ensures
        final(out)@ == old(out)@ + scaled_text(div_round(raw as int, unit as int), places as nat),
{
    let split = pow10_u64(places);
    proof {
        assert(i64::MIN * unit <= raw <= i64::MAX * unit) by (nonlinear_arith)
            requires
                unit >= 1,
                i64::MIN <= raw <= i64::MAX,
        ;
        lemma_div_round_between(raw as int, unit as int, i64::MIN as int, i64::MAX as int);
    }
    let scaled: i128 = div_round_i128(raw as i128, unit as i128);
    let mag: u64 = if scaled < 0 {
        (-scaled) as u64
    } else {
        scaled as u64
    };
    let ghost start = out@;
    if scaled < 0 {
        out.append("-");
    }
    let ghost signed = out@;
    proof {
        reveal_strlit("-");
        reveal_strlit(".");
        assert(signed =~= start + if scaled < 0 {
            seq!['-']
        } else {
            Seq::<char>::empty()
        });
    }
    push_nat(out, mag / split);
    if places > 0 {
        out.append(".");
        push_padded(out, mag % split, places);
    }
    proof {
        let whole = (mag / split) as nat;
        let fraction = (mag % split) as nat;
        if places == 0 {
            assert(out@ =~= start + scaled_text(scaled as int, places as nat));
        } else {
            assert(out@ =~= signed + nat_digits(whole) + seq!['.'] + padded_digits(
                fraction,
                places as nat,
            ));
            assert(out@ =~= start + scaled_text(scaled as int, places as nat));
        }
    }
}

/// Appends the text of `value` with `places` decimal places to `out`.
pub fn push_decimal(out: &mut String, value: Fixed, places: u8)
    requires
        places <= 6,
    ensures
        final(out)@ == old(out)@ + decimal_text(value.raw as int, places as nat),
{
    let unit = pow10_u64(6 - places);
    push_rounded(out, value.raw, unit, places);
}

/// Appends the text of `value` as a percentage with `places` decimal places
/// to `out`.
pub fn push_percent(out: &mut String, value: Fixed, places: u8)
    requires
        places <= 4,
    ensures
        final(out)@ == old(out)@ + percent_text(value.raw as int, places as nat),
{
    let unit = pow10_u64(4 - places);
    push_rounded(out, value.raw, unit, places);
}

/// The text of `value` with `places` decimal places.
pub fn format_decimal(value: Fixed, places: u8) -> (text: String)
    requires
        places <= 6,
    ensures
        text@ == decimal_text(value.raw as int, places as nat),
{
    let mut text = String::new();
    push_decimal(&mut text, value, places);
    assert(text@ =~= decimal_text(value.raw as int, places as nat));
    text
}

} // verus!
