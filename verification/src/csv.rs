//! Game projections in comma-separated text.
//!
//! The first line is a header and is passed over. Every other line that is
//! not blank and has at least ten comma-separated fields is one game: week,
//! date, time, away team, home team, projected away score, projected home
//! score, model confidence, quoted spread, quoted total. Lines with fewer
//! fields are passed over; a field that cannot be read ends the parse.
//!
//! A decimal field is an optional sign, digits, and optionally a point and
//! more digits, with at least one digit in all: no exponent, no spaces.
//! Its whole part may not exceed `MAX_WHOLE_PART`, and digits after the
//! sixth decimal place are dropped.
use crate::fixed::{Fixed, QUOTE_LIMIT, SAMPLE_LIMIT, SCALE};
use crate::matchup::{
    create_mock_game_data, is_mock_game, GameWithPredictionAndLines, MockGameInputs, LADDER_REACH,
};
use crate::team::{get_team_name, team_name_of};
use crate::text::{chars_of, pow10};
use vstd::prelude::*;
use vstd::string::*;

verus! {

/// The largest whole part of a decimal field.
pub const MAX_WHOLE_PART: u64 = 999_999_999;

/// The least number of fields of a line that describes a game.
pub const FIELDS_PER_GAME: usize = 10;

/// The pieces of `s` between the occurrences of `sep`. There is always one
/// piece more than there are separators.
pub open spec fn split_on(s: Seq<char>, sep: char) -> Seq<Seq<char>>
    decreases s.len(),
{
    if s.len() == 0 {
        seq![Seq::<char>::empty()]
    } else {
        let before = split_on(s.drop_last(), sep);
        if s.last() == sep {
            before.push(Seq::<char>::empty())
        } else {
            before.update(before.len() - 1, before.last().push(s.last()))
        }
    }
}

/// A line without the carriage return that may end it.
pub open spec fn strip_carriage_return(line: Seq<char>) -> Seq<char> {
    if line.len() > 0 && line.last() == '\r' {
        line.drop_last()
    } else {
        line
    }
}

/// The lines of a text. A line ends with a line feed, or with a carriage
/// return and a line feed; neither belongs to the line. What follows the
/// last line feed is a line of its own unless it is empty.
pub open spec fn lines_of(text: Seq<char>) -> Seq<Seq<char>> {
    let parts = split_on(text, '\n');
    let ended = Seq::new(
        (parts.len() - 1) as nat,
        |k: int| strip_carriage_return(parts[k]),
    );
    if parts.last().len() == 0 {
        ended
    } else {
        ended.push(parts.last())
    }
}

/// White space as Unicode defines it.
pub open spec fn is_space(c: char) -> bool {
    let code = c as u32;
    ||| 0x09 <= code <= 0x0D
    ||| code == 0x20
    ||| code == 0x85
    ||| code == 0xA0
    ||| code == 0x1680
    ||| 0x2000 <= code <= 0x200A
    ||| code == 0x2028
    ||| code == 0x2029
    ||| code == 0x202F
    ||| code == 0x205F
    ||| code == 0x3000
}

/// A line that holds nothing but white space.
pub open spec fn is_blank(line: Seq<char>) -> bool {
    forall|i: int| 0 <= i < line.len() ==> is_space(#[trigger] line[i])
}

/// A decimal digit.
pub open spec fn is_digit(c: char) -> bool {
    '0' <= c <= '9'
}

/// A text that holds nothing but decimal digits.
pub open spec fn all_digits(s: Seq<char>) -> bool {
    forall|i: int| 0 <= i < s.len() ==> is_digit(#[trigger] s[i])
}

/// The number that a run of decimal digits writes; zero for the empty run.
pub open spec fn digits_value(s: Seq<char>) -> nat
    decreases s.len(),
{
    if s.len() == 0 {
        0
    } else {
        (digits_value(s.drop_last()) * 10 + (s.last() as u32 - '0' as u32)) as nat
    }
}

/// The week that a field writes: digits, after a plus sign or not, that
/// make a number up to 255.
pub open spec fn week_of(field: Seq<char>) -> Option<u8> {
    let digits = if field.len() > 0 && field[0] == '+' {
        field.skip(1)
    } else {
        field
    };
    if digits.len() > 0 && all_digits(digits) && digits_value(digits) <= u8::MAX {
        Some(digits_value(digits) as u8)
    } else {
        None
    }
}

/// The position of the first decimal point in `s`, or the length of `s` if
/// it has none.
pub open spec fn point_position(s: Seq<char>) -> int
    decreases s.len(),
{
    if s.len() == 0 {
        0
    } else if s[0] == '.' {
        0
    } else {
        1 + point_position(s.drop_first())
    }
}

/// The millionths that the digits after a decimal point stand for: the
/// first six count, each further one is dropped.
pub open spec fn fraction_micros(digits: Seq<char>) -> int {
    if digits.len() >= 6 {
        digits_value(digits.take(6)) as int
    } else {
        digits_value(digits) * pow10((6 - digits.len()) as nat)
    }
}

/// The fixed-point number, in raw units, that a field writes, if it writes
/// one.
pub open spec fn decimal_of(field: Seq<char>) -> Option<int> {
    let signed = field.len() > 0 && (field[0] == '-' || field[0] == '+');
    let negative = field.len() > 0 && field[0] == '-';
    let number = if signed {
        field.skip(1)
    } else {
        field
    };
    let point = point_position(number);
    let whole = number.take(point);
    let fraction = if point < number.len() {
        number.skip(point + 1)
    } else {
        Seq::<char>::empty()
    };
    if all_digits(whole) && all_digits(fraction) && whole.len() + fraction.len() > 0
        && digits_value(whole) <= MAX_WHOLE_PART {
        let micros = digits_value(whole) * SCALE + fraction_micros(fraction);
        Some(
            if negative {
                -micros
            } else {
                micros
            },
        )
    } else {
        None
    }
}

/// `ranges` cuts `s` into the pieces `pieces`.
pub open spec fn cuts_into(ranges: Seq<(usize, usize)>, s: Seq<char>, pieces: Seq<Seq<char>>) -> bool {
    &&& ranges.len() == pieces.len()
    &&& forall|k: int|
        0 <= k < ranges.len() ==> {
            let r = #[trigger] ranges[k];
            r.0 <= r.1 <= s.len() && s.subrange(r.0 as int, r.1 as int) == pieces[k]
        }
}

/// Cuts `s[lo..hi]` at every occurrence of `sep`.
fn split_ranges(s: &Vec<char>, lo: usize, hi: usize, sep: char) -> (ranges: Vec<(usize, usize)>)
    requires
        lo <= hi <= s@.len(),
    ensures
        cuts_into(ranges@, s@, split_on(s@.subrange(lo as int, hi as int), sep)),
        ranges@.len() >= 1,
{
    let mut ranges: Vec<(usize, usize)> = Vec::new();
    let mut start: usize = lo;
    let mut i: usize = lo;
    assert(s@.subrange(lo as int, lo as int) =~= Seq::<char>::empty());
    while i < hi
        invariant
            lo <= start <= i <= hi <= s@.len(),
            ranges@.len() + 1 == split_on(s@.subrange(lo as int, i as int), sep).len(),
            forall|k: int|
                0 <= k < ranges@.len() ==> {
                    let r = #[trigger] ranges@[k];
                    r.0 <= r.1 <= s@.len() && s@.subrange(r.0 as int, r.1 as int) == split_on(
                        s@.subrange(lo as int, i as int),
                        sep,
                    )[k]
                },
            s@.subrange(start as int, i as int) == split_on(
                s@.subrange(lo as int, i as int),
                sep,
            ).last(),
        decreases hi - i,
    {
        let ghost before = split_on(s@.subrange(lo as int, i as int), sep);
        let ghost grown = s@.subrange(lo as int, i + 1);
        assert(grown.drop_last() =~= s@.subrange(lo as int, i as int));
        assert(grown.last() == s@[i as int]);
        if s[i] == sep {
            ranges.push((start, i));
            start = i + 1;
            assert(s@.subrange(start as int, start as int) =~= Seq::<char>::empty());
        } else {
            assert(s@.subrange(start as int, i + 1) =~= s@.subrange(start as int, i as int).push(
                s@[i as int],
            ));
        }
        i = i + 1;
    }
    ranges.push((start, hi));
    ranges
}

/// Cuts a text into its lines.
fn line_ranges(s: &Vec<char>) -> (lines: Vec<(usize, usize)>)
    ensures
        cuts_into(lines@, s@, lines_of(s@)),
{
    let parts = split_ranges(s, 0, s.len(), '\n');
    assert(s@.subrange(0, s@.len() as int) =~= s@);
    let ghost pieces = split_on(s@, '\n');
    let mut lines: Vec<(usize, usize)> = Vec::new();
    let mut k: usize = 0;
    let ended: usize = parts.len() - 1;
    while k < ended
        invariant
            k <= ended == parts@.len() - 1,
            cuts_into(parts@, s@, pieces),
            lines@.len() == k,
            forall|j: int|
                0 <= j < k ==> {
                    let r = #[trigger] lines@[j];
                    r.0 <= r.1 <= s@.len() && s@.subrange(r.0 as int, r.1 as int)
                        == strip_carriage_return(pieces[j])
                },
        decreases ended - k,
    {
        let (from, to) = parts[k];
        assert(parts@[k as int] == (from, to));
        if from < to && s[to - 1] == '\r' {
            assert(s@.subrange(from as int, to as int).last() == '\r');
            assert(s@.subrange(from as int, to - 1) =~= s@.subrange(from as int, to as int).drop_last());
            lines.push((from, to - 1));
        } else {
            if from < to {
                assert(s@.subrange(from as int, to as int).last() != '\r');
            }
            lines.push((from, to));
        }
        k = k + 1;
    }
    let (from, to) = parts[ended];
    assert(parts@[ended as int] == (from, to));
    let ghost terminated = Seq::new(
        (pieces.len() - 1) as nat,
        |j: int| strip_carriage_return(pieces[j]),
    );
    if from < to {
        lines.push((from, to));
        assert(lines_of(s@) =~= terminated.push(pieces.last()));
    } else {
        assert(lines_of(s@) =~= terminated);
    }
    lines
}

/// Whether a character is white space.
fn space(c: char) -> (yes: bool)
    ensures
        yes == is_space(c),
{
    let code = c as u32;
    (0x09 <= code && code <= 0x0D) || code == 0x20 || code == 0x85 || code == 0xA0 || code
        == 0x1680 || (0x2000 <= code && code <= 0x200A) || code == 0x2028 || code == 0x2029
        || code == 0x202F || code == 0x205F || code == 0x3000
}

/// Whether `s[lo..hi]` holds nothing but white space.
fn blank(s: &Vec<char>, lo: usize, hi: usize) -> (yes: bool)
    requires
        lo <= hi <= s@.len(),
    ensures
        yes == is_blank(s@.subrange(lo as int, hi as int)),
{
    let mut i: usize = lo;
    while i < hi
        invariant
            lo <= i <= hi <= s@.len(),
            forall|j: int| lo <= j < i ==> is_space(#[trigger] s@[j]),
        decreases hi - i,
    {
        if !space(s[i]) {
            assert(!is_space(s@.subrange(lo as int, hi as int)[i - lo]));
            return false;
        }
        i = i + 1;
    }
    assert forall|j: int| 0 <= j < hi - lo implies is_space(
        #[trigger] s@.subrange(lo as int, hi as int)[j],
    ) by {
        assert(is_space(s@[lo + j]));
    }
    true
}

/// The beginning of a run of digits never writes a larger number than the
/// whole run.
proof fn lemma_digits_prefix(s: Seq<char>, i: int)
    requires
        all_digits(s),
        0 <= i <= s.len(),
    ensures
        digits_value(s.take(i)) <= digits_value(s),
    decreases s.len() - i,
{
    if i < s.len() {
        lemma_digits_prefix(s, i + 1);
        assert(s.take(i + 1).drop_last() =~= s.take(i));
        assert(is_digit(s[i]));
        assert(s.take(i + 1).last() == s[i]);
    } else {
        assert(s.take(i) =~= s);
    }
}

/// Whether a character is a decimal digit.
fn digit(c: char) -> (yes: bool)
    ensures
        yes == is_digit(c),
{
    '0' <= c && c <= '9'
}

/// The number that the digits `s[lo..hi]` write, if they are digits and the
/// number is at most `cap`.
fn read_digits(s: &Vec<char>, lo: usize, hi: usize, cap: u64) -> (value: Option<u64>)
    requires
        lo <= hi <= s@.len(),
        cap <= 1_000_000_000_000,
    ensures
        value == if all_digits(s@.subrange(lo as int, hi as int)) && digits_value(
            s@.subrange(lo as int, hi as int),
        ) <= cap {
            Some(digits_value(s@.subrange(lo as int, hi as int)) as u64)
        } else {
            None
        },
{
    let ghost run = s@.subrange(lo as int, hi as int);
    let mut acc: u64 = 0;
    let mut i: usize = lo;
    assert(run.take(0) =~= Seq::<char>::empty());
    while i < hi
        invariant
            lo <= i <= hi <= s@.len(),
            run == s@.subrange(lo as int, hi as int),
            cap <= 1_000_000_000_000,
            all_digits(run.take(i - lo)),
            acc == digits_value(run.take(i - lo)),
            acc <= cap,
        decreases hi - i,
    {
        let c = s[i];
        assert(run[i - lo] == c);
        if !digit(c) {
            return None;
        }
        proof {
            assert(run.take(i - lo + 1).drop_last() =~= run.take(i - lo));
            assert(run.take(i - lo + 1).last() == c);
            assert forall|j: int| 0 <= j < i - lo + 1 implies is_digit(
                #[trigger] run.take(i - lo + 1)[j],
            ) by {
                if j < i - lo {
                    assert(run.take(i - lo)[j] == run[j]);
                }
            }
        }
        acc = acc * 10 + (c as u32 - '0' as u32) as u64;
        if acc > cap {
            proof {
                if all_digits(run) {
                    lemma_digits_prefix(run, i - lo + 1);
                }
            }
            return None;
        }
        i = i + 1;
    }
    assert(run.take(hi - lo) =~= run);
    Some(acc)
}

/// The week that the field `s[lo..hi]` writes.
fn read_week(s: &Vec<char>, lo: usize, hi: usize) -> (week: Option<u8>)
    requires
        lo <= hi <= s@.len(),
    ensures
        week == week_of(s@.subrange(lo as int, hi as int)),
{
    let ghost field = s@.subrange(lo as int, hi as int);
    let from: usize = if lo < hi && s[lo] == '+' {
        lo + 1
    } else {
        lo
    };
    proof {
        if lo < hi {
            assert(field[0] == s@[lo as int]);
        }
        if from > lo {
            assert(field.skip(1) =~= s@.subrange(from as int, hi as int));
        }
    }
    if from == hi {
        return None;
    }
    match read_digits(s, from, hi, 255) {
        Some(n) => Some(n as u8),
        None => None,
    }
}

/// The position of the first decimal point in `s[lo..hi]`, or `hi`.
fn find_point(s: &Vec<char>, lo: usize, hi: usize) -> (at: usize)
    requires
        lo <= hi <= s@.len(),
    ensures
        lo <= at <= hi,
        at - lo == point_position(s@.subrange(lo as int, hi as int)),
{
    let ghost number = s@.subrange(lo as int, hi as int);
    let mut i: usize = lo;
    assert(number.skip(0) =~= number);
    while i < hi && s[i] != '.'
        invariant
            lo <= i <= hi <= s@.len(),
            number == s@.subrange(lo as int, hi as int),
            point_position(number) == (i - lo) + point_position(number.skip(i - lo)),
        decreases hi - i,
    {
        assert(number.skip(i - lo)[0] == s@[i as int]);
        assert(number.skip(i - lo).drop_first() =~= number.skip(i - lo + 1));
        i = i + 1;
    }
    proof {
        if i < hi {
            assert(number.skip(i - lo)[0] == s@[i as int]);
        }
    }
    i
}

/// A run of digits writes a number below ten to the power of its length.
proof fn lemma_digits_bound(s: Seq<char>)
    requires
        all_digits(s),
    ensures
        digits_value(s) < pow10(s.len()),
    decreases s.len(),
{
    if s.len() > 0 {
        assert(is_digit(s.last()));
        assert forall|j: int| 0 <= j < s.len() - 1 implies is_digit(
            #[trigger] s.drop_last()[j],
        ) by {
            assert(s.drop_last()[j] == s[j]);
        }
        lemma_digits_bound(s.drop_last());
    }
}

/// The millionths that the digits `s[lo..hi]` stand for after a decimal
/// point, if they are digits.
fn read_fraction(s: &Vec<char>, lo: usize, hi: usize) -> (micros: Option<u64>)
    requires
        lo <= hi <= s@.len(),
    ensures
        match micros {
            Some(m) => all_digits(s@.subrange(lo as int, hi as int)) && m == fraction_micros(
                s@.subrange(lo as int, hi as int),
            ) && m <= 999_999,
            None => !all_digits(s@.subrange(lo as int, hi as int)),
        },
{
    let ghost run = s@.subrange(lo as int, hi as int);
    let counted: usize = if hi - lo < 6 {
        hi
    } else {
        lo + 6
    };
    proof {
        assert(run.take(counted - lo) =~= s@.subrange(lo as int, counted as int));
        assert(run.skip(counted - lo) =~= s@.subrange(counted as int, hi as int));
    }
    let head = match read_digits(s, lo, counted, 1_000_000_000_000) {
        Some(h) => h,
        None => {
            proof {
                if all_digits(run) {
                    assert forall|j: int| 0 <= j < counted - lo implies is_digit(
                        #[trigger] run.take(counted - lo)[j],
                    ) by {
                        assert(run.take(counted - lo)[j] == run[j]);
                    }
                    lemma_digits_bound(run.take(counted - lo));
                    reveal_with_fuel(pow10, 7);
                }
            }
            return None;
        },
    };
    let mut i: usize = counted;
    while i < hi
        invariant
            lo <= counted <= i <= hi <= s@.len(),
            run == s@.subrange(lo as int, hi as int),
            forall|j: int| counted <= j < i ==> is_digit(#[trigger] s@[j]),
        decreases hi - i,
    {
        if !digit(s[i]) {
            assert(!is_digit(run[i - lo]));
            return None;
        }
        i = i + 1;
    }
    proof {
        assert forall|j: int| 0 <= j < run.len() implies is_digit(#[trigger] run[j]) by {
            if j < counted - lo {
                assert(run.take(counted - lo)[j] == run[j]);
            } else {
                assert(is_digit(s@[lo + j]));
            }
        }
        lemma_digits_bound(run.take(counted - lo));
        reveal_with_fuel(pow10, 7);
        if hi - lo < 6 {
            assert(run.take(counted - lo) =~= run);
        }
    }
    let missing: usize = 6 - (counted - lo);
    let unit: u64 = if missing == 0 {
        1
    } else if missing == 1 {
        10
    } else if missing == 2 {
        100
    } else if missing == 3 {
        1_000
    } else if missing == 4 {
        10_000
    } else if missing == 5 {
        100_000
    } else {
        1_000_000
    };
    assert(unit == pow10(missing as nat));
    assert(head * unit <= 999_999) by (nonlinear_arith)
        requires
            (missing == 0 && head < 1_000_000 && unit == 1) || (missing == 1 && head < 100_000
                && unit == 10) || (missing == 2 && head < 10_000 && unit == 100) || (missing == 3
                && head < 1_000 && unit == 1_000) || (missing == 4 && head < 100 && unit
                == 10_000) || (missing == 5 && head < 10 && unit == 100_000) || (missing == 6
                && head < 1 && unit == 1_000_000),
    ;
    Some(head * unit)
}

/// The fixed-point number that the field `s[lo..hi]` writes.
fn read_decimal(s: &Vec<char>, lo: usize, hi: usize) -> (value: Option<Fixed>)
    requires
        lo <= hi <= s@.len(),
    ensures
        match (value, decimal_of(s@.subrange(lo as int, hi as int))) {
            (Some(v), Some(wanted)) => v.raw == wanted,
            (None, None) => true,
            _ => false,
        },
{
    let ghost field = s@.subrange(lo as int, hi as int);
    let signed = lo < hi && (s[lo] == '-' || s[lo] == '+');
    let negative = lo < hi && s[lo] == '-';
    let from: usize = if signed {
        lo + 1
    } else {
        lo
    };
    proof {
        if lo < hi {
            assert(field[0] == s@[lo as int]);
        }
        if signed {
            assert(field.skip(1) =~= s@.subrange(from as int, hi as int));
        }
    }
    let ghost number = s@.subrange(from as int, hi as int);
    let point = find_point(s, from, hi);
    let after: usize = if point < hi {
        point + 1
    } else {
        hi
    };
    proof {
        assert(number.take(point - from) =~= s@.subrange(from as int, point as int));
        if point < hi {
            assert(number.skip(point - from + 1) =~= s@.subrange(after as int, hi as int));
        } else {
            assert(s@.subrange(after as int, hi as int) =~= Seq::<char>::empty());
        }
    }
    if (point - from) + (hi - after) == 0 {
        return None;
    }
    let whole = match read_digits(s, from, point, MAX_WHOLE_PART) {
        Some(w) => w,
        None => {
            return None;
        },
    };
    let fraction = match read_fraction(s, after, hi) {
        Some(f) => f,
        None => {
            return None;
        },
    };
    let micros: i64 = (whole * 1_000_000 + fraction) as i64;
    assert(whole * SCALE == whole * 1_000_000) by (nonlinear_arith)
        requires
            SCALE == 1_000_000,
    ;
    if negative {
        Some(Fixed { raw: -micros })
    } else {
        Some(Fixed { raw: micros })
    }
}

/// The fixed-point number that a text writes, if it writes one.
pub fn parse_decimal(text: &str) -> (value: Option<Fixed>)
    ensures
        match (value, decimal_of(text@)) {
            (Some(v), Some(wanted)) => v.raw == wanted,
            (None, None) => true,
            _ => false,
        },
{
    let chars = chars_of(text);
    assert(chars@.subrange(0, chars@.len() as int) =~= chars@);
    read_decimal(&chars, 0, chars.len())
}

/// The week that a text writes, if it writes one.
pub fn parse_week(text: &str) -> (week: Option<u8>)
    ensures
        week == week_of(text@),
{
    let chars = chars_of(text);
    assert(chars@.subrange(0, chars@.len() as int) =~= chars@);
    read_week(&chars, 0, chars.len())
}

/// The field of a game line that cannot be read.
#[derive(Clone, Copy, Debug, PartialEq, Eq, Structural)]
pub enum CsvError {
    InvalidSpread,
    InvalidWeek,
    InvalidAwayScore,
    InvalidHomeScore,
    InvalidConfidence,
    InvalidTotal,
}

impl CsvError {
    /// The error in words.
    pub open spec fn spec_message(self) -> Seq<char> {
        match self {
            CsvError::InvalidSpread => "Invalid spread"@,
            CsvError::InvalidWeek => "Invalid week"@,
            CsvError::InvalidAwayScore => "Invalid away score"@,
            CsvError::InvalidHomeScore => "Invalid home score"@,
            CsvError::InvalidConfidence => "Invalid confidence"@,
            CsvError::InvalidTotal => "Invalid total"@,
        }
    }

    /// The error in words.
    pub fn message(&self) -> (words: String)
        ensures
            words@ == self.spec_message(),
    {
        match self {
            CsvError::InvalidSpread => String::from_str("Invalid spread"),
            CsvError::InvalidWeek => String::from_str("Invalid week"),
            CsvError::InvalidAwayScore => String::from_str("Invalid away score"),
            CsvError::InvalidHomeScore => String::from_str("Invalid home score"),
            CsvError::InvalidConfidence => String::from_str("Invalid confidence"),
            CsvError::InvalidTotal => String::from_str("Invalid total"),
        }
    }
}

/// One game as a line of text describes it.
#[derive(Clone, Debug, PartialEq)]
pub struct CsvGameData {
    pub week: u8,
    pub date: String,
    pub time: String,
    pub away_team: String,
    pub home_team: String,
    pub predicted_away_score: Fixed,
    pub predicted_home_score: Fixed,
    pub confidence: Fixed,
    pub market_spread: Fixed,
    pub total: Fixed,
}

/// What a `CsvGameData` holds, with its texts as sequences of characters.
pub struct CsvRecord {
    pub week: u8,
    pub date: Seq<char>,
    pub time: Seq<char>,
    pub away_team: Seq<char>,
    pub home_team: Seq<char>,
    pub predicted_away_score: int,
    pub predicted_home_score: int,
    pub confidence: int,
    pub market_spread: int,
    pub total: int,
}

impl View for CsvGameData {
    type V = CsvRecord;

    open spec fn view(&self) -> CsvRecord {
        CsvRecord {
            week: self.week,
            date: self.date@,
            time: self.time@,
            away_team: self.away_team@,
            home_team: self.home_team@,
            predicted_away_score: self.predicted_away_score.raw as int,
            predicted_home_score: self.predicted_home_score.raw as int,
            confidence: self.confidence.raw as int,
            market_spread: self.market_spread.raw as int,
            total: self.total.raw as int,
        }
    }
}

/// What one line contributes: nothing if it is blank or has fewer than ten
/// fields, else the game it describes or the first of its fields, in the
/// order spread, week, away score, home score, confidence, total, that
/// cannot be read.
pub open spec fn row_of(line: Seq<char>) -> Option<Result<CsvRecord, CsvError>> {
    let fields = split_on(line, ',');
    if is_blank(line) || fields.len() < FIELDS_PER_GAME {
        None
    } else if decimal_of(fields[8]) is None {
        Some(Err(CsvError::InvalidSpread))
    } else if week_of(fields[0]) is None {
        Some(Err(CsvError::InvalidWeek))
    } else if decimal_of(fields[5]) is None {
        Some(Err(CsvError::InvalidAwayScore))
    } else if decimal_of(fields[6]) is None {
        Some(Err(CsvError::InvalidHomeScore))
    } else if decimal_of(fields[7]) is None {
        Some(Err(CsvError::InvalidConfidence))
    } else if decimal_of(fields[9]) is None {
        Some(Err(CsvError::InvalidTotal))
    } else {
        Some(
            Ok(
                CsvRecord {
                    week: week_of(fields[0])->0,
                    date: fields[1],
                    time: fields[2],
                    away_team: fields[3],
                    home_team: fields[4],
                    predicted_away_score: decimal_of(fields[5])->0,
                    predicted_home_score: decimal_of(fields[6])->0,
                    confidence: decimal_of(fields[7])->0,
                    market_spread: decimal_of(fields[8])->0,
                    total: decimal_of(fields[9])->0,
                },
            ),
        )
    }
}

/// The games that a run of lines describes, in their order, or the error of
/// the first line that has one.
pub open spec fn rows_of(lines: Seq<Seq<char>>) -> Result<Seq<CsvRecord>, CsvError>
    decreases lines.len(),
{
    if lines.len() == 0 {
        Ok(Seq::<CsvRecord>::empty())
    } else {
        match rows_of(lines.drop_last()) {
            Err(e) => Err(e),
            Ok(rows) => match row_of(lines.last()) {
                None => Ok(rows),
                Some(Ok(row)) => Ok(rows.push(row)),
                Some(Err(e)) => Err(e),
            },
        }
    }
}

/// The games that a text describes: those of its lines after the first.
pub open spec fn games_in(text: Seq<char>) -> Result<Seq<CsvRecord>, CsvError> {
    let lines = lines_of(text);
    if lines.len() == 0 {
        Ok(Seq::<CsvRecord>::empty())
    } else {
        rows_of(lines.skip(1))
    }
}

/// The records of a run of games.
pub open spec fn records(games: Seq<CsvGameData>) -> Seq<CsvRecord> {
    games.map_values(|g: CsvGameData| g@)
}

/// The characters `chars[lo..hi]` of `text` as a text of their own.
fn piece(text: &str, chars: &Vec<char>, range: (usize, usize)) -> (out: String)
    requires
        text@ == chars@,
        range.0 <= range.1 <= chars@.len(),
    ensures
        out@ == chars@.subrange(range.0 as int, range.1 as int),
{
    String::from_str(text.substring_char(range.0, range.1))
}

/// Reads the line `chars[lo..hi]`.
fn parse_line(text: &str, chars: &Vec<char>, lo: usize, hi: usize) -> (row: Option<
    Result<CsvGameData, CsvError>,
>)
    requires
        text@ == chars@,
        lo <= hi <= chars@.len(),
    ensures
        match (row, row_of(chars@.subrange(lo as int, hi as int))) {
            (None, None) => true,
            (Some(Ok(game)), Some(Ok(wanted))) => game@ == wanted,
            (Some(Err(e)), Some(Err(wanted))) => e == wanted,
            _ => false,
        },
{
    let ghost line = chars@.subrange(lo as int, hi as int);
    if blank(chars, lo, hi) {
        return None;
    }
    let fields = split_ranges(chars, lo, hi, ',');
    if fields.len() < FIELDS_PER_GAME {
        return None;
    }
    let ghost parts = split_on(line, ',');
    assert(cuts_into(fields@, chars@, parts));
    let market_spread = match read_decimal(chars, fields[8].0, fields[8].1) {
        Some(v) => v,
        None => {
            return Some(Err(CsvError::InvalidSpread));
        },
    };
    let week = match read_week(chars, fields[0].0, fields[0].1) {
        Some(v) => v,
        None => {
            return Some(Err(CsvError::InvalidWeek));
        },
    };
    let predicted_away_score = match read_decimal(chars, fields[5].0, fields[5].1) {
        Some(v) => v,
        None => {
            return Some(Err(CsvError::InvalidAwayScore));
        },
    };
    let predicted_home_score = match read_decimal(chars, fields[6].0, fields[6].1) {
        Some(v) => v,
        None => {
            return Some(Err(CsvError::InvalidHomeScore));
        },
    };
    let confidence = match read_decimal(chars, fields[7].0, fields[7].1) {
        Some(v) => v,
        None => {
            return Some(Err(CsvError::InvalidConfidence));
        },
    };
    let total = match read_decimal(chars, fields[9].0, fields[9].1) {
        Some(v) => v,
        None => {
            return Some(Err(CsvError::InvalidTotal));
        },
    };
    Some(
        Ok(
            CsvGameData {
                week,
                date: piece(text, chars, fields[1]),
                time: piece(text, chars, fields[2]),
                away_team: piece(text, chars, fields[3]),
                home_team: piece(text, chars, fields[4]),
                predicted_away_score,
                predicted_home_score,
                confidence,
                market_spread,
                total,
            },
        ),
    )
}

/// Reads the games that a comma-separated text describes.
pub fn parse_csv_data(csv_content: &str) -> (games: Result<Vec<CsvGameData>, CsvError>)
    ensures
        match (games, games_in(csv_content@)) {
            (Ok(rows), Ok(wanted)) => records(rows@) == wanted,
            (Err(e), Err(wanted)) => e == wanted,
            _ => false,
        },
{
    let chars = chars_of(csv_content);
    let lines = line_ranges(&chars);
    let mut games: Vec<CsvGameData> = Vec::new();
    if lines.len() == 0 {
        assert(records(games@) =~= Seq::<CsvRecord>::empty());
        return Ok(games);
    }
    let ghost body = lines_of(chars@).skip(1);
    let mut k: usize = 1;
    assert(body.take(0) =~= Seq::<Seq<char>>::empty());
    assert(records(games@) =~= Seq::<CsvRecord>::empty());
    while k < lines.len()
        invariant
            1 <= k <= lines@.len(),
            csv_content@ == chars@,
            cuts_into(lines@, chars@, lines_of(chars@)),
            body == lines_of(chars@).skip(1),
            rows_of(body.take(k - 1)) == Ok::<Seq<CsvRecord>, CsvError>(records(games@)),
        decreases lines@.len() - k,
    {
        let (lo, hi) = lines[k];
        assert(lines@[k as int] == (lo, hi));
        let ghost before = records(games@);
        proof {
            assert(body.take(k as int).drop_last() =~= body.take(k - 1));
            assert(body.take(k as int).last() == lines_of(chars@)[k as int]);
        }
        match parse_line(csv_content, &chars, lo, hi) {
            None => {},
            Some(Ok(game)) => {
                games.push(game);
                assert(records(games@) =~= before.push(game@));
            },
            Some(Err(e)) => {
                proof {
                    lemma_rows_error_stays(body, k as int);
                }
                return Err(e);
            },
        }
        k = k + 1;
    }
    assert(body.take(k - 1) =~= body);
    Ok(games)
}

/// Once a run of lines has an error, every longer run has the same one.
proof fn lemma_rows_error_stays(lines: Seq<Seq<char>>, k: int)
    requires
        0 <= k <= lines.len(),
        rows_of(lines.take(k)) is Err,
    ensures
        rows_of(lines) == rows_of(lines.take(k)),
    decreases lines.len() - k,
{
    if k < lines.len() {
        assert(lines.take(k + 1).drop_last() =~= lines.take(k));
        lemma_rows_error_stays(lines, k + 1);
    } else {
        assert(lines.take(k) =~= lines);
    }
}

/// The season that imported games belong to.
pub const IMPORT_SEASON: u16 = 2025;

/// The provider that the lines of imported games are credited to.
pub open spec fn import_provider() -> Seq<char> {
    "CSV Data"@
}

/// What an imported game is built from: the two teams by their full names,
/// a record of eight wins and three losses at home and seven and four away,
/// and the numbers of the line of text.
pub open spec fn import_inputs(game: CsvRecord) -> MockGameInputs {
    MockGameInputs {
        home_team_name: team_name_of(game.home_team),
        home_team_abbr: game.home_team,
        away_team_name: team_name_of(game.away_team),
        away_team_abbr: game.away_team,
        home_wins: 8,
        home_losses: 3,
        away_wins: 7,
        away_losses: 4,
        game_week: game.week,
        game_season: IMPORT_SEASON,
        predicted_home_score: Fixed { raw: game.predicted_home_score as i64 },
        predicted_away_score: Fixed { raw: game.predicted_away_score as i64 },
        prediction_confidence: Fixed { raw: game.confidence as i64 },
        betting_spread: Fixed { raw: game.market_spread as i64 },
        betting_total: Fixed { raw: game.total as i64 },
        betting_provider: import_provider(),
    }
}

/// Builds the game that a line of text describes. The date and the time of
/// the line are not used: the game is scheduled a week from now.
pub fn csv_to_game_data(csv_game: CsvGameData) -> (data: GameWithPredictionAndLines)
    requires
        csv_game.predicted_home_score.within(SAMPLE_LIMIT - LADDER_REACH),
        csv_game.predicted_away_score.within(SAMPLE_LIMIT - LADDER_REACH),
        csv_game.market_spread.within(QUOTE_LIMIT as int),
        csv_game.total.within(QUOTE_LIMIT as int),
    ensures
        is_mock_game(data, import_inputs(csv_game@)),
{
    let home_team_name = get_team_name(csv_game.home_team.as_str());
    let away_team_name = get_team_name(csv_game.away_team.as_str());
    create_mock_game_data(
        home_team_name,
        csv_game.home_team,
        away_team_name,
        csv_game.away_team,
        8,
        3,
        7,
        4,
        csv_game.week,
        IMPORT_SEASON,
        csv_game.predicted_home_score,
        csv_game.predicted_away_score,
        csv_game.confidence,
        csv_game.market_spread,
        csv_game.total,
        String::from_str("CSV Data"),
    )
}

} // verus!
