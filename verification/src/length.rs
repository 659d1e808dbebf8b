//! Texts of lengths of time, such as `1h 30m`, and what their numbers come to.
use vstd::prelude::*;

use crate::decimal::{all_digits, digit_of, digits_value, is_digit};
use crate::time::{Length, Span, NANOS};

verus! {

/// The letters that a unit of time is spelt with.
pub open spec fn is_unit_letter(c: char) -> bool {
    'a' <= c <= 'z' || 'A' <= c <= 'Z' || c == '\u{b5}'
}

/// The characters that Unicode counts as white space.
pub open spec fn is_space(c: char) -> bool {
    ||| '\u{9}' <= c <= '\u{d}'
    ||| c == ' '
    ||| c == '\u{85}'
    ||| c == '\u{a0}'
    ||| c == '\u{1680}'
    ||| '\u{2000}' <= c <= '\u{200a}'
    ||| c == '\u{2028}'
    ||| c == '\u{2029}'
    ||| c == '\u{202f}'
    ||| c == '\u{205f}'
    ||| c == '\u{3000}'
}

/// What one of a unit is worth.
pub enum Worth {
    Seconds(u64),
    Nanos(u64),
}

/// What one of the unit with this name is worth, if it is a unit.
pub open spec fn unit_worth(name: Seq<char>) -> Option<Worth> {
    if name == "nanos"@ || name == "nsec"@ || name == "ns"@ {
        Some(Worth::Nanos(1))
    } else if name == "usec"@ || name == "us"@ || name == "\u{b5}s"@ {
        Some(Worth::Nanos(1_000))
    } else if name == "millis"@ || name == "msec"@ || name == "ms"@ {
        Some(Worth::Nanos(1_000_000))
    } else if name == "seconds"@ || name == "second"@ || name == "secs"@ || name == "sec"@ || name
        == "s"@ {
        Some(Worth::Seconds(1))
    } else if name == "minutes"@ || name == "minute"@ || name == "min"@ || name == "mins"@ || name
        == "m"@ {
        Some(Worth::Seconds(60))
    } else if name == "hours"@ || name == "hour"@ || name == "hr"@ || name == "hrs"@ || name
        == "h"@ {
        Some(Worth::Seconds(3_600))
    } else if name == "days"@ || name == "day"@ || name == "d"@ {
        Some(Worth::Seconds(86_400))
    } else if name == "weeks"@ || name == "week"@ || name == "wk"@ || name == "wks"@ || name
        == "w"@ {
        Some(Worth::Seconds(604_800))
    } else if name == "months"@ || name == "month"@ || name == "M"@ {
        Some(Worth::Seconds(2_630_016))
    } else if name == "years"@ || name == "year"@ || name == "yr"@ || name == "yrs"@ || name
        == "y"@ {
        Some(Worth::Seconds(31_557_600))
    } else {
        None
    }
}

/// What the decimals of a unit count in: nanoseconds up to the minute, seconds beyond it.
/// Nanoseconds have none.
pub open spec fn decimals_worth(worth: Worth) -> Option<Worth> {
    match worth {
        Worth::Nanos(1) => None,
        Worth::Nanos(n) => Some(Worth::Nanos(n)),
        Worth::Seconds(1) => Some(Worth::Nanos(1_000_000_000)),
        Worth::Seconds(60) => Some(Worth::Nanos(60_000_000_000)),
        Worth::Seconds(n) => Some(Worth::Seconds(n)),
    }
}

/// Why a text is read no further.
#[derive(Clone, Copy, Debug)]
pub enum Stop {
    /// It is no length, or one that is too long or too fine.
    Refused,
    /// Its nanoseconds fill the second after the last that a `Duration` holds.
    Overflow,
}

/// `total` and so many seconds and nanoseconds more.
pub open spec fn sum_of(total: Length, secs: nat, nanos: nat) -> Result<Length, Stop> {
    let s = total.secs + secs;
    let n = total.nanos + nanos;
    if s == u64::MAX && n == NANOS {
        Err(Stop::Overflow)
    } else if n > u64::MAX || s + n / (NANOS as nat) > u64::MAX {
        Err(Stop::Refused)
    } else {
        Ok(Length { secs: s + n / (NANOS as nat), nanos: n % (NANOS as nat) })
    }
}

/// `total` and `number` over `scale` of what is worth `worth`, which must come out even.
pub open spec fn with_part(total: Length, number: nat, scale: nat, worth: Worth) -> Result<
    Length,
    Stop,
> {
    let product: nat = number * (match worth {
        Worth::Seconds(n) => n as nat,
        Worth::Nanos(n) => n as nat,
    });
    if product > u64::MAX || product % scale != 0 {
        Err(Stop::Refused)
    } else {
        match worth {
            Worth::Seconds(_) => sum_of(total, product / scale, 0),
            Worth::Nanos(_) => sum_of(total, 0, product / scale),
        }
    }
}

/// A number before its unit: its whole part, its decimals as a number, and what these are over.
pub struct Number {
    pub whole: nat,
    pub decimals: nat,
    pub scale: nat,
}

/// `total` and a number of the unit with this name.
pub open spec fn with_number(total: Length, number: Number, name: Seq<char>) -> Result<
    Length,
    Stop,
> {
    match unit_worth(name) {
        None => Err(Stop::Refused),
        Some(worth) => match with_part(total, number.whole, 1, worth) {
            Err(stop) => Err(stop),
            Ok(sum) => if number.scale == 1 {
                Ok(sum)
            } else {
                match decimals_worth(worth) {
                    None => Err(Stop::Refused),
                    Some(worth) => with_part(sum, number.decimals, number.scale, worth),
                }
            },
        },
    }
}

/// How far a text has been read, and what it has come to so far.
pub enum Reached {
    /// Before a number.
    Gap(Length),
    /// In the whole part of a number.
    Whole(Length, nat),
    /// In the decimals of a number.
    Decimals(Length, Number),
    /// In the name of a number's unit.
    Unit(Length, Number, Seq<char>),
    /// No further.
    Stopped(Stop),
}

/// How far a text has been read after one more character.
pub open spec fn after_char(reached: Reached, c: char) -> Reached {
    match reached {
        Reached::Gap(total) => if is_digit(c) {
            Reached::Whole(total, digit_of(c))
        } else if is_space(c) {
            reached
        } else {
            Reached::Stopped(Stop::Refused)
        },
        Reached::Whole(total, n) => if is_digit(c) {
            if n * 10 + digit_of(c) <= u64::MAX {
                Reached::Whole(total, n * 10 + digit_of(c))
            } else {
                Reached::Stopped(Stop::Refused)
            }
        } else if is_space(c) {
            reached
        } else if is_unit_letter(c) {
            Reached::Unit(total, Number { whole: n, decimals: 0, scale: 1 }, seq![c])
        } else if c == '.' {
            Reached::Decimals(total, Number { whole: n, decimals: 0, scale: 1 })
        } else {
            Reached::Stopped(Stop::Refused)
        },
        Reached::Decimals(total, number) => if is_digit(c) {
            let decimals = number.decimals * 10 + digit_of(c);
            let scale = number.scale * 10;
            if decimals <= u64::MAX && scale <= u64::MAX {
                Reached::Decimals(total, Number { whole: number.whole, decimals, scale })
            } else {
                Reached::Stopped(Stop::Refused)
            }
        } else if is_space(c) {
            reached
        } else if is_unit_letter(c) && number.scale != 1 {
            Reached::Unit(total, number, seq![c])
        } else {
            Reached::Stopped(Stop::Refused)
        },
        Reached::Unit(total, number, name) => if is_digit(c) {
            match with_number(total, number, name) {
                Ok(sum) => Reached::Whole(sum, digit_of(c)),
                Err(stop) => Reached::Stopped(stop),
            }
        } else if is_space(c) {
            match with_number(total, number, name) {
                Ok(sum) => Reached::Gap(sum),
                Err(stop) => Reached::Stopped(stop),
            }
        } else if is_unit_letter(c) {
            Reached::Unit(total, number, name.push(c))
        } else {
            Reached::Stopped(Stop::Refused)
        },
        Reached::Stopped(_) => reached,
    }
}

/// How far a text has been read after its last character.
pub open spec fn after_text(text: Seq<char>) -> Reached
    decreases text.len(),
{
    if text.len() == 0 {
        Reached::Gap(Length { secs: 0, nanos: 0 })
    } else {
        after_char(after_text(text.drop_last()), text.last())
    }
}

/// Whether a text that has been read so far has overflowed, or does as it ends.
pub open spec fn overflows(reached: Reached) -> bool {
    match reached {
        Reached::Stopped(stop) => stop is Overflow,
        Reached::Unit(total, number, name) => with_number(total, number, name) == Err::<Length, _>(
            Stop::Overflow,
        ),
        _ => false,
    }
}

/// Whether `text` can be added up: at none of its numbers does it come to the last second that
/// a `Duration` holds and exactly a second of nanoseconds beside it.
///
/// Its numbers are added one by one, each with its unit, up to the first character, unit or
/// number that is refused.
pub open spec fn adds_up(text: Seq<char>) -> bool {
    !overflows(after_text(text))
}

/// A total in seconds and nanoseconds.
#[derive(Clone, Copy)]
struct Total {
    secs: u64,
    nanos: u64,
}

impl Total {
    spec fn length(self) -> Length {
        Length { secs: self.secs as nat, nanos: self.nanos as nat }
    }

    spec fn of(res: Result<Total, Stop>) -> Result<Length, Stop> {
        match res {
            Ok(total) => Ok(total.length()),
            Err(stop) => Err(stop),
        }
    }

    fn add_amount(self, secs: u64, nanos: u64) -> (res: Result<Total, Stop>)
        ensures
            Total::of(res) == sum_of(self.length(), secs as nat, nanos as nat),
    {
        let s: u128 = self.secs as u128 + secs as u128;
        let n: u128 = self.nanos as u128 + nanos as u128;
        if s == u64::MAX as u128 && n == NANOS as u128 {
            return Err(Stop::Overflow);
        }
        let carried: u128 = s + n / (NANOS as u128);
        if n > u64::MAX as u128 || carried > u64::MAX as u128 {
            return Err(Stop::Refused);
        }
        Ok(Total { secs: carried as u64, nanos: (n % (NANOS as u128)) as u64 })
    }

    fn add_part(self, number: u64, scale: u64, worth: &Worth) -> (res: Result<Total, Stop>)
        requires
            scale > 0,
        ensures
            Total::of(res) == with_part(self.length(), number as nat, scale as nat, *worth),
    {
        let factor: u64 = match worth {
            Worth::Seconds(n) => *n,
            Worth::Nanos(n) => *n,
        };
        assert(0 <= number * factor <= u64::MAX * u64::MAX) by (nonlinear_arith)
            requires
                0 <= number <= u64::MAX,
                0 <= factor <= u64::MAX,
        ;
        let product: u128 = number as u128 * factor as u128;
        if product > u64::MAX as u128 || product % (scale as u128) != 0 {
            return Err(Stop::Refused);
        }
        assert(0 <= product / (scale as u128) <= product) by (nonlinear_arith)
            requires
                scale > 0,
        ;
        let part: u64 = (product / (scale as u128)) as u64;
        match worth {
            Worth::Seconds(_) => self.add_amount(part, 0),
            Worth::Nanos(_) => self.add_amount(0, part),
        }
    }
}

fn spells(name: &Vec<char>, text: &str) -> (res: bool)
    ensures
        res == (name@ == text@),
{
    let mut i: usize = 0;
    for c in it: text.chars()
        invariant
            it.seq() == text@,
            i == it.index(),
            i <= name@.len(),
            name@.take(i as int) == text@.take(i as int),
    {
        if i >= name.len() || name[i] != c {
            assert(name@ != text@) by {
                assert(text@[i as int] == c);
            }
            return false;
        }
        i += 1;
        assert(name@.take(i as int) =~= name@.take(i - 1).push(c));
        assert(text@.take(i as int) =~= text@.take(i - 1).push(c));
    }
    assert(text@.take(i as int) =~= text@);
    if i == name.len() {
        assert(name@.take(i as int) =~= name@);
        true
    } else {
        false
    }
}

fn worth_of(name: &Vec<char>) -> (res: Option<Worth>)
    ensures
        res == unit_worth(name@),
{
    if spells(name, "nanos") || spells(name, "nsec") || spells(name, "ns") {
        Some(Worth::Nanos(1))
    } else if spells(name, "usec") || spells(name, "us") || spells(name, "\u{b5}s") {
        Some(Worth::Nanos(1_000))
    } else if spells(name, "millis") || spells(name, "msec") || spells(name, "ms") {
        Some(Worth::Nanos(1_000_000))
    } else if spells(name, "seconds") || spells(name, "second") || spells(name, "secs") || spells(
        name,
        "sec",
    ) || spells(name, "s") {
        Some(Worth::Seconds(1))
    } else if spells(name, "minutes") || spells(name, "minute") || spells(name, "min") || spells(
        name,
        "mins",
    ) || spells(name, "m") {
        Some(Worth::Seconds(60))
    } else if spells(name, "hours") || spells(name, "hour") || spells(name, "hr") || spells(
        name,
        "hrs",
    ) || spells(name, "h") {
        Some(Worth::Seconds(3_600))
    } else if spells(name, "days") || spells(name, "day") || spells(name, "d") {
        Some(Worth::Seconds(86_400))
    } else if spells(name, "weeks") || spells(name, "week") || spells(name, "wk") || spells(
        name,
        "wks",
    ) || spells(name, "w") {
        Some(Worth::Seconds(604_800))
    } else if spells(name, "months") || spells(name, "month") || spells(name, "M") {
        Some(Worth::Seconds(2_630_016))
    } else if spells(name, "years") || spells(name, "year") || spells(name, "yr") || spells(
        name,
        "yrs",
    ) || spells(name, "y") {
        Some(Worth::Seconds(31_557_600))
    } else {
        None
    }
}

fn worth_of_decimals(worth: &Worth) -> (res: Option<Worth>)
    ensures
        res == decimals_worth(*worth),
{
    match worth {
        Worth::Nanos(n) => if *n == 1 {
            None
        } else {
            Some(Worth::Nanos(*n))
        },
        Worth::Seconds(n) => if *n == 1 {
            Some(Worth::Nanos(1_000_000_000))
        } else if *n == 60 {
            Some(Worth::Nanos(60_000_000_000))
        } else {
            Some(Worth::Seconds(*n))
        },
    }
}

/// A number as it is read.
#[derive(Clone, Copy)]
struct Digits {
    whole: u64,
    decimals: u64,
    scale: u64,
}

impl Digits {
    spec fn number(self) -> Number {
        Number {
            whole: self.whole as nat,
            decimals: self.decimals as nat,
            scale: self.scale as nat,
        }
    }

    fn new(whole: u64) -> (res: Digits)
        ensures
            res.number() == (Number { whole: whole as nat, decimals: 0, scale: 1 }),
    {
        Digits { whole, decimals: 0, scale: 1 }
    }

    /// `total` and this number of the unit with this name.
    fn added_to(self, total: Total, name: &Vec<char>) -> (res: Result<Total, Stop>)
        requires
            self.scale > 0,
        ensures
            Total::of(res) == with_number(total.length(), self.number(), name@),
    {
        let worth = match worth_of(name) {
            Some(worth) => worth,
            None => return Err(Stop::Refused),
        };
        let sum = match total.add_part(self.whole, 1, &worth) {
            Ok(sum) => sum,
            Err(stop) => return Err(stop),
        };
        if self.scale == 1 {
            return Ok(sum);
        }
        match worth_of_decimals(&worth) {
            Some(worth) => sum.add_part(self.decimals, self.scale, &worth),
            None => Err(Stop::Refused),
        }
    }
}

/// Reads a text character by character.
enum Reader {
    Gap(Total),
    Whole(Total, u64),
    Decimals(Total, Digits),
    Unit(Total, Digits, Vec<char>),
    Stopped(Stop),
}

impl Reader {
    spec fn reached(self) -> Reached {
        match self {
            Reader::Gap(total) => Reached::Gap(total.length()),
            Reader::Whole(total, n) => Reached::Whole(total.length(), n as nat),
            Reader::Decimals(total, digits) => Reached::Decimals(total.length(), digits.number()),
            Reader::Unit(total, digits, name) => Reached::Unit(
                total.length(),
                digits.number(),
                name@,
            ),
            Reader::Stopped(stop) => Reached::Stopped(stop),
        }
    }

    spec fn inv(self) -> bool {
        match self {
            Reader::Decimals(_, digits) => digits.scale > 0,
            Reader::Unit(_, digits, _) => digits.scale > 0,
            _ => true,
        }
    }

    /// Reads one more character.
    fn read(self, c: char) -> (res: Reader)
        requires
            self.inv(),
        ensures
            res.inv(),
            res.reached() == after_char(self.reached(), c),
    {
        let digit: Option<u64> = if c >= '0' && c <= '9' {
            Some(c as u64 - 48)
        } else {
            None
        };
        let space = char_is_space(c);
        let letter = (c >= 'a' && c <= 'z') || (c >= 'A' && c <= 'Z') || c == '\u{b5}';
        match self {
            Reader::Gap(total) => match digit {
                Some(d) => Reader::Whole(total, d),
                None => if space {
                    Reader::Gap(total)
                } else {
                    Reader::Stopped(Stop::Refused)
                },
            },
            Reader::Whole(total, n) => match digit {
                Some(d) => match appended(n, d) {
                    Some(n) => Reader::Whole(total, n),
                    None => Reader::Stopped(Stop::Refused),
                },
                None => if space {
                    Reader::Whole(total, n)
                } else if letter {
                    Reader::Unit(total, Digits::new(n), name_of(c))
                } else if c == '.' {
                    Reader::Decimals(total, Digits::new(n))
                } else {
                    Reader::Stopped(Stop::Refused)
                },
            },
            Reader::Decimals(total, digits) => match digit {
                Some(d) => match (appended(digits.decimals, d), appended(digits.scale, 0)) {
                    (Some(decimals), Some(scale)) => Reader::Decimals(
                        total,
                        Digits { whole: digits.whole, decimals, scale },
                    ),
                    _ => Reader::Stopped(Stop::Refused),
                },
                None => if space {
                    Reader::Decimals(total, digits)
                } else if letter && digits.scale != 1 {
                    Reader::Unit(total, digits, name_of(c))
                } else {
                    Reader::Stopped(Stop::Refused)
                },
            },
            Reader::Unit(total, digits, name) => match digit {
                Some(d) => match digits.added_to(total, &name) {
                    Ok(sum) => Reader::Whole(sum, d),
                    Err(stop) => Reader::Stopped(stop),
                },
                None => if space {
                    match digits.added_to(total, &name) {
                        Ok(sum) => Reader::Gap(sum),
                        Err(stop) => Reader::Stopped(stop),
                    }
                } else if letter {
                    let mut name = name;
                    name.push(c);
                    Reader::Unit(total, digits, name)
                } else {
                    Reader::Stopped(Stop::Refused)
                },
            },
            Reader::Stopped(stop) => Reader::Stopped(stop),
        }
    }

    /// Tells whether the text has overflowed, or does as it ends.
    fn overflows(self) -> (res: bool)
        requires
            self.inv(),
        ensures
            res == overflows(self.reached()),
    {
        match self {
            Reader::Stopped(stop) => matches!(stop, Stop::Overflow),
            Reader::Unit(total, digits, name) => {
                matches!(digits.added_to(total, &name), Err(Stop::Overflow))
            },
            _ => false,
        }
    }
}

fn char_is_space(c: char) -> (res: bool)
    ensures
        res == is_space(c),
{
    (c >= '\u{9}' && c <= '\u{d}') || c == ' ' || c == '\u{85}' || c == '\u{a0}' || c == '\u{1680}'
        || (c >= '\u{2000}' && c <= '\u{200a}') || c == '\u{2028}' || c == '\u{2029}' || c
        == '\u{202f}' || c == '\u{205f}' || c == '\u{3000}'
}

fn appended(n: u64, digit: u64) -> (res: Option<u64>)
    requires
        digit < 10,
    ensures
        res is Some <==> n * 10 + digit <= u64::MAX,
        res matches Some(m) ==> m == n * 10 + digit,
{
    let wide: u128 = n as u128 * 10 + digit as u128;
    if wide <= u64::MAX as u128 {
        Some(wide as u64)
    } else {
        None
    }
}

fn name_of(c: char) -> (res: Vec<char>)
    ensures
        res@ == seq![c],
{
    let mut name: Vec<char> = Vec::new();
    name.push(c);
    name
}

/// Tests `adds_up`, so that a text on which `parse_duration` would panic is not handed to it.
pub fn text_adds_up(text: &str) -> (res: bool)
    ensures
        res == adds_up(text@),
{
    let mut reader = Reader::Gap(Total { secs: 0, nanos: 0 });
    assert(text@.take(0) =~= Seq::<char>::empty());
    for c in it: text.chars()
        invariant
            it.seq() == text@,
            reader.inv(),
            reader.reached() == after_text(text@.take(it.index())),
    {
        let ghost k = it.index();
        assert(text@.take(k + 1).drop_last() =~= text@.take(k));
        assert(text@.take(k + 1).last() == c);
        reader = reader.read(c);
    }
    assert(text@.take(text@.len() as int) =~= text@);
    !reader.overflows()
}

/// Whether `text` is empty or white space alone.
pub open spec fn is_all_space(text: Seq<char>) -> bool {
    forall|i: int| 0 <= i < text.len() ==> is_space(#[trigger] text[i])
}

/// The length that `text` stands for, if any: what its numbers come to, where the text ends
/// behind a unit. White space alone is no length, and `0` needs no unit.
pub open spec fn length_of(text: Seq<char>) -> Option<Length> {
    if text == seq!['0'] {
        Some(Length { secs: 0, nanos: 0 })
    } else {
        match after_text(text) {
            Reached::Gap(total) => if is_all_space(text) {
                None
            } else {
                Some(total)
            },
            Reached::Unit(total, number, name) => match with_number(total, number, name) {
                Ok(sum) => Some(sum),
                Err(_) => None,
            },
            _ => None,
        }
    }
}

/// The seconds that a unit of one letter stands for; none for a letter not listed here.
pub open spec fn letter_seconds(c: char) -> nat {
    match c {
        's' => 1,
        'm' => 60,
        'h' => 3600,
        'd' => 86400,
        'w' => 604800,
        'M' => 2630016,
        'y' => 31557600,
        _ => 0,
    }
}

/// Whether `text` is a whole number and a unit of one letter, such as `90m`.
pub open spec fn is_plain(text: Seq<char>) -> bool {
    &&& text.len() >= 2
    &&& all_digits(text.drop_last())
    &&& letter_seconds(text.last()) > 0
}

/// The length of a plain text, if its seconds fit in 64 bits.
pub open spec fn plain_length(text: Seq<char>) -> Option<Length> {
    let secs = digits_value(text.drop_last()) * letter_seconds(text.last());
    if secs <= u64::MAX {
        Some(Length { secs, nanos: 0 })
    } else {
        None
    }
}

proof fn lemma_after_digits(digits: Seq<char>)
    requires
        all_digits(digits),
    ensures
        after_text(digits) == (if digits.len() == 0 {
            Reached::Gap(Length { secs: 0, nanos: 0 })
        } else if digits_value(digits) <= u64::MAX {
            Reached::Whole(Length { secs: 0, nanos: 0 }, digits_value(digits))
        } else {
            Reached::Stopped(Stop::Refused)
        }),
    decreases digits.len(),
{
    if digits.len() > 0 {
        assert(is_digit(digits[digits.len() - 1]));
        assert forall|i: int| 0 <= i < digits.len() - 1 implies is_digit(
            #[trigger] digits.drop_last()[i],
        ) by {
            assert(is_digit(digits[i]));
        }
        lemma_after_digits(digits.drop_last());
    }
}

proof fn lemma_short_units(name: Seq<char>)
    requires
        name.len() == 1 && letter_seconds(name[0]) > 0 || name == seq!['n', 's'] || name == seq![
            'u',
            's',
        ] || name == seq!['m', 's'],
    ensures
        name.len() == 1 ==> unit_worth(name) == Some(Worth::Seconds(letter_seconds(name[0]) as u64)),
        name == seq!['n', 's'] ==> unit_worth(name) == Some(Worth::Nanos(1)),
        name == seq!['u', 's'] ==> unit_worth(name) == Some(Worth::Nanos(1_000)),
        name == seq!['m', 's'] ==> unit_worth(name) == Some(Worth::Nanos(1_000_000)),
{
    reveal_strlit("nanos");
    reveal_strlit("nsec");
    reveal_strlit("ns");
    reveal_strlit("usec");
    reveal_strlit("us");
    reveal_strlit("\u{b5}s");
    reveal_strlit("millis");
    reveal_strlit("msec");
    reveal_strlit("ms");
    reveal_strlit("seconds");
    reveal_strlit("second");
    reveal_strlit("secs");
    reveal_strlit("sec");
    reveal_strlit("s");
    reveal_strlit("minutes");
    reveal_strlit("minute");
    reveal_strlit("min");
    reveal_strlit("mins");
    reveal_strlit("m");
    reveal_strlit("hours");
    reveal_strlit("hour");
    reveal_strlit("hr");
    reveal_strlit("hrs");
    reveal_strlit("h");
    reveal_strlit("days");
    reveal_strlit("day");
    reveal_strlit("d");
    reveal_strlit("weeks");
    reveal_strlit("week");
    reveal_strlit("wk");
    reveal_strlit("wks");
    reveal_strlit("w");
    reveal_strlit("months");
    reveal_strlit("month");
    reveal_strlit("M");
    reveal_strlit("years");
    reveal_strlit("year");
    reveal_strlit("yr");
    reveal_strlit("yrs");
    reveal_strlit("y");
    if name.len() == 2 {
        if name[0] == 'n' {
            assert(name =~= "ns"@);
        } else if name[0] == 'u' {
            assert(name =~= "us"@);
            assert("ns"@[0] == 'n');
        } else {
            assert(name =~= "ms"@);
            assert("ns"@[0] == 'n' && "us"@[0] == 'u' && "\u{b5}s"@[0] == '\u{b5}');
        }
    } else {
        match name[0] {
            's' => assert(name =~= "s"@),
            'm' => assert(name =~= "m"@),
            'h' => assert(name =~= "h"@),
            'd' => assert(name =~= "d"@),
            'w' => assert(name =~= "w"@),
            'M' => assert(name =~= "M"@),
            _ => assert(name =~= "y"@),
        }
    }
}

proof fn lemma_letter_units(c: char)
    requires
        letter_seconds(c) > 0,
    ensures
        unit_worth(seq![c]) == Some(Worth::Seconds(letter_seconds(c) as u64)),
{
    lemma_short_units(seq![c]);
}

/// A whole number and a unit of one letter stand for the number times the unit, if that many
/// seconds fit in 64 bits, and for no length if not.
pub proof fn plain_text_is_number_times_unit(text: Seq<char>)
    requires
        is_plain(text),
    ensures
        adds_up(text),
        length_of(text) == plain_length(text),
{
    let digits = text.drop_last();
    let n = digits_value(digits);
    let unit = letter_seconds(text.last());
    lemma_after_digits(digits);
    lemma_letter_units(text.last());
    assert(n <= n * unit) by (nonlinear_arith)
        requires
            unit >= 1,
    ;
    assert((n * unit) % 1 == 0 && (n * unit) / 1 == n * unit);
}

/// `humantime::parse_duration`.
///
/// Claimed: it reads `length_of` the text. It panics on the texts that `adds_up` leaves out: there
/// it makes a `Duration` of the most seconds and one second of nanoseconds.
#[verifier::external_body]
pub(crate) fn parse_duration(text: &str) -> (res: Option<Span>)
    requires
        adds_up(text@),
    ensures
        length_of(text@) == (match res {
            Some(d) => Some(d@),
            None => None,
        }),
{
    match humantime::parse_duration(text) {
        Ok(d) => Some(Span { secs: d.as_secs(), nanos: d.subsec_nanos() }),
        Err(_) => None,
    }
}

/// Ten to the power of `digits`.
spec fn capacity(digits: nat) -> nat
    decreases digits,
{
    if digits == 0 {
        1
    } else {
        10 * capacity((digits - 1) as nat)
    }
}

proof fn lemma_capacity(digits: nat, more: nat)
    requires
        digits <= more,
    ensures
        1 <= capacity(digits) <= capacity(more),
    decreases more,
{
    if digits < more {
        lemma_capacity(digits, (more - 1) as nat);
    } else if digits > 0 {
        lemma_capacity((digits - 1) as nat, (digits - 1) as nat);
    }
}

proof fn lemma_sum_stays_small(total: Length, secs: nat, nanos: nat)
    requires
        total.nanos < 1_000_000_000,
        total.secs + secs < u64::MAX,
    ensures
        match sum_of(total, secs, nanos) {
            Ok(sum) => sum.nanos < 1_000_000_000 && sum.secs <= total.secs + secs + nanos
                / 1_000_000_000 + 1,
            Err(stop) => stop is Refused,
        },
{
}

/// A number before a unit brings no more than the next number would, and a second.
proof fn lemma_number_stays_small(total: Length, number: Number, name: Seq<char>)
    requires
        total.nanos < 1_000_000_000,
        number.scale >= 1,
        number.decimals <= number.scale,
        total.secs + 31_557_601 * (number.whole + 1) + 2 < u64::MAX,
    ensures
        match with_number(total, number, name) {
            Ok(sum) => sum.nanos < 1_000_000_000 && sum.secs <= total.secs + 31_557_601 * (
            number.whole + 1) + 2,
            Err(stop) => stop is Refused,
        },
{
    if let Some(worth) = unit_worth(name) {
        let whole = number.whole;
        let n: nat = match worth {
            Worth::Seconds(n) => n as nat,
            Worth::Nanos(n) => n as nat,
        };
        assert((whole * n) % 1 == 0 && (whole * n) / 1 == whole * n);
        match worth {
            Worth::Seconds(_) => {
                assert(whole * n <= whole * 31_557_600) by (nonlinear_arith)
                    requires
                        n <= 31_557_600,
                ;
                lemma_sum_stays_small(total, whole * n, 0);
            },
            Worth::Nanos(_) => {
                assert(whole * n <= whole * 1_000_000) by (nonlinear_arith)
                    requires
                        n <= 1_000_000,
                ;
                lemma_sum_stays_small(total, 0, whole * n);
            },
        }
        if let Ok(sum) = with_part(total, whole, 1, worth) {
            if number.scale != 1 {
                if let Some(part) = decimals_worth(worth) {
                    let m: nat = match part {
                        Worth::Seconds(m) => m as nat,
                        Worth::Nanos(m) => m as nat,
                    };
                    let share = number.decimals * m / number.scale;
                    assert(share <= m) by (nonlinear_arith)
                        requires
                            number.decimals <= number.scale,
                            number.scale >= 1,
                            share == number.decimals * m / number.scale,
                    ;
                    match part {
                        Worth::Seconds(_) => lemma_sum_stays_small(sum, share, 0),
                        Worth::Nanos(_) => lemma_sum_stays_small(sum, 0, share),
                    }
                }
            }
        }
    }
}

/// The decimal digits of a text.
pub open spec fn digits_in(text: Seq<char>) -> Seq<char> {
    text.filter(|c: char| '0' <= c <= '9')
}

/// Whether what has been reached is in keeping with so many digits.
spec fn is_small(reached: Reached, digits: nat) -> bool {
    match reached {
        Reached::Gap(total) => {
            &&& total.nanos < 1_000_000_000
            &&& total.secs <= 31_557_603 * capacity(digits)
            &&& digits == 0 ==> total.secs == 0
        },
        Reached::Whole(total, n) => {
            &&& digits > 0
            &&& total.nanos < 1_000_000_000
            &&& total.secs + 31_557_603 * (n + 1) <= 31_557_603 * capacity(digits)
        },
        Reached::Decimals(total, number) => {
            &&& digits > 0
            &&& total.nanos < 1_000_000_000
            &&& total.secs + 31_557_603 * (number.whole + 1) <= 31_557_603 * capacity(digits)
            &&& number.scale >= 1
            &&& number.decimals <= number.scale - 1
        },
        Reached::Unit(total, number, _) => {
            &&& digits > 0
            &&& total.nanos < 1_000_000_000
            &&& total.secs + 31_557_603 * (number.whole + 1) <= 31_557_603 * capacity(digits)
            &&& number.scale >= 1
            &&& number.decimals <= number.scale - 1
        },
        Reached::Stopped(stop) => stop is Refused,
    }
}

proof fn lemma_step_stays_small(reached: Reached, digits: nat, c: char)
    requires
        is_small(reached, digits),
        digits <= 11,
    ensures
        !overflows(reached),
        !is_digit(c) ==> is_small(after_char(reached, c), digits),
        is_digit(c) ==> is_small(after_char(reached, c), digits + 1),
{
    reveal_with_fuel(capacity, 2);
    lemma_capacity(digits, 11);
    lemma_capacity(digits, digits + 1);
    assert(capacity(11) == 100_000_000_000) by {
        reveal_with_fuel(capacity, 12);
    }
    assert(digits > 0 ==> capacity(digits) >= 10) by {
        if digits > 0 {
            lemma_capacity(1, digits);
        }
    }
    if let Reached::Unit(total, number, name) = reached {
        lemma_number_stays_small(total, number, name);
    }
}

proof fn lemma_text_stays_small(text: Seq<char>)
    requires
        digits_in(text).len() <= 11,
    ensures
        is_small(after_text(text), digits_in(text).len()),
    decreases text.len(),
{
    reveal(Seq::filter);
    if text.len() > 0 {
        let before = text.drop_last();
        let c = text.last();
        assert(digits_in(text) == (if is_digit(c) {
            digits_in(before).push(c)
        } else {
            digits_in(before)
        }));
        lemma_text_stays_small(before);
        lemma_step_stays_small(after_text(before), digits_in(before).len(), c);
    } else {
        assert(digits_in(text).len() == 0);
        assert(capacity(0) == 1);
    }
}

/// A text with no more than eleven digits adds up, whatever else it holds.
pub proof fn text_with_few_digits_adds_up(text: &str, res: bool)
    requires
        digits_in(text@).len() <= 11,
        call_ensures(text_adds_up, (text,), res),
    ensures
        res,
        adds_up(text@),
{
    lemma_text_stays_small(text@);
    lemma_step_stays_small(after_text(text@), digits_in(text@).len(), ' ');
}

/// The seconds that a total and the whole part of a number come to, with those that its
/// nanoseconds make up.
pub open spec fn seconds_with(total: Length, whole: nat, worth: Worth) -> nat {
    match worth {
        Worth::Seconds(n) => total.secs + whole * n as nat,
        Worth::Nanos(n) => total.secs + (total.nanos + whole * n as nat) / 1_000_000_000,
    }
}

proof fn lemma_overflow_at_a_number(total: Length, number: Number, name: Seq<char>)
    requires
        total.nanos < 1_000_000_000,
    ensures
        with_number(total, number, name) matches Ok(sum) ==> sum.nanos < 1_000_000_000,
        with_number(total, number, name) == Err::<Length, _>(Stop::Overflow) ==> {
            &&& unit_worth(name) is Some
            &&& seconds_with(total, number.whole, unit_worth(name)->0) >= u64::MAX
        },
{
    if let Some(worth) = unit_worth(name) {
        let n: nat = match worth {
            Worth::Seconds(n) => n as nat,
            Worth::Nanos(n) => n as nat,
        };
        assert((number.whole * n) % 1 == 0 && (number.whole * n) / 1 == number.whole * n);
    }
}

spec fn holds_less_than_a_second(reached: Reached) -> bool {
    match reached {
        Reached::Gap(total) => total.nanos < 1_000_000_000,
        Reached::Whole(total, _) => total.nanos < 1_000_000_000,
        Reached::Decimals(total, _) => total.nanos < 1_000_000_000,
        Reached::Unit(total, _, _) => total.nanos < 1_000_000_000,
        Reached::Stopped(_) => true,
    }
}

/// Whether `text` has, after so many characters, a number that comes to the last second that 64
/// bits hold.
pub open spec fn fills_64_bits(text: Seq<char>, n: int) -> bool {
    match after_text(text.take(n)) {
        Reached::Unit(total, number, name) => unit_worth(name) is Some && seconds_with(
            total,
            number.whole,
            unit_worth(name)->0,
        ) >= u64::MAX,
        _ => false,
    }
}

proof fn lemma_overflow_fills_64_bits(text: Seq<char>)
    ensures
        holds_less_than_a_second(after_text(text)),
        overflows(after_text(text)) ==> exists|n: int|
            0 <= n <= text.len() && #[trigger] fills_64_bits(text, n),
    decreases text.len(),
{
    assert(text.take(text.len() as int) =~= text);
    if text.len() > 0 {
        let before = text.drop_last();
        lemma_overflow_fills_64_bits(before);
        if let Reached::Unit(total, number, name) = after_text(before) {
            lemma_overflow_at_a_number(total, number, name);
        }
        assert(text.take(text.len() - 1) =~= before);
        if overflows(after_text(before)) {
            let n = choose|n: int| 0 <= n <= before.len() && #[trigger] fills_64_bits(before, n);
            assert(before.take(n) =~= text.take(n));
            assert(fills_64_bits(text, n));
        }
        if let Reached::Unit(total, number, name) = after_text(text) {
            lemma_overflow_at_a_number(total, number, name);
            if overflows(after_text(text)) {
                assert(fills_64_bits(text, text.len() as int));
            }
        } else if overflows(after_text(text)) {
            assert(overflows(after_text(before)));
        }
    }
}

/// A text overflows only where one of its numbers comes to the last second that 64 bits hold, or
/// beyond it.
pub proof fn only_full_seconds_overflow(text: &str, res: bool)
    requires
        call_ensures(text_adds_up, (text,), res),
        forall|n: int| 0 <= n <= text@.len() ==> !#[trigger] fills_64_bits(text@, n),
    ensures
        res,
        adds_up(text@),
{
    lemma_overflow_fills_64_bits(text@);
}

/// What one of a unit is worth in nanoseconds.
pub open spec fn nanos_of(name: Seq<char>) -> Option<int> {
    match unit_worth(name) {
        None => None,
        Some(Worth::Nanos(n)) => Some(n as int),
        Some(Worth::Seconds(n)) => Some(n * 1_000_000_000),
    }
}

/// Each unit is a multiple of the one before: a thousand nanoseconds, microseconds and
/// milliseconds, sixty seconds and minutes, twenty-four hours, seven days; a month is 30.44 days
/// and a year 365.25.
pub proof fn units_are_multiples_of_each_other()
    ensures
        nanos_of(seq!['n', 's']) == Some(1int),
        nanos_of(seq!['u', 's']) == Some(1000 * nanos_of(seq!['n', 's'])->0),
        nanos_of(seq!['m', 's']) == Some(1000 * nanos_of(seq!['u', 's'])->0),
        nanos_of(seq!['s']) == Some(1000 * nanos_of(seq!['m', 's'])->0),
        nanos_of(seq!['m']) == Some(60 * nanos_of(seq!['s'])->0),
        nanos_of(seq!['h']) == Some(60 * nanos_of(seq!['m'])->0),
        nanos_of(seq!['d']) == Some(24 * nanos_of(seq!['h'])->0),
        nanos_of(seq!['w']) == Some(7 * nanos_of(seq!['d'])->0),
        nanos_of(seq!['M']) is Some && 100 * nanos_of(seq!['M'])->0 == 3044 * nanos_of(
            seq!['d'],
        )->0,
        nanos_of(seq!['y']) is Some && 100 * nanos_of(seq!['y'])->0 == 36525 * nanos_of(
            seq!['d'],
        )->0,
{
    lemma_short_units(seq!['n', 's']);
    lemma_short_units(seq!['u', 's']);
    lemma_short_units(seq!['m', 's']);
    lemma_letter_units('s');
    lemma_letter_units('m');
    lemma_letter_units('h');
    lemma_letter_units('d');
    lemma_letter_units('w');
    lemma_letter_units('M');
    lemma_letter_units('y');
}

/// A text that has come to the last second that 64 bits hold, and then fills the second after it
/// with nanoseconds to the last, overflows.
pub proof fn full_second_beside_the_last_overflows(
    text: &str,
    total: Length,
    whole: nat,
    name: Seq<char>,
    nanos: u64,
    res: bool,
)
    requires
        call_ensures(text_adds_up, (text,), res),
        after_text(text@) == Reached::Unit(total, Number { whole, decimals: 0, scale: 1 }, name),
        unit_worth(name) == Some(Worth::Nanos(nanos)),
        total.secs == u64::MAX,
        total.nanos + whole * nanos == 1_000_000_000,
    ensures
        !res,
        !adds_up(text@),
{
    let product: nat = whole * nanos as nat;
    assert(product % 1 == 0 && product / 1 == product);
}

} // verus!
