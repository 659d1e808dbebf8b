//! Decimal text of integers, and integers read from decimal text.
use vstd::arithmetic::power::pow;
use vstd::prelude::*;

verus! {

/// The character of a decimal digit.
pub open spec fn digit_char(d: nat) -> char {
    (48 + d) as char
}

/// The value of a decimal digit's character.
pub open spec fn digit_of(c: char) -> nat {
    (c as int - 48) as nat
}

pub open spec fn is_digit(c: char) -> bool {
    '0' <= c <= '9'
}

/// The decimal text of `n`, without leading zeros.
pub open spec fn decimal(n: nat) -> Seq<char>
    decreases n,
{
    if n < 10 {
        seq![digit_char(n)]
    } else {
        decimal(n / 10).push(digit_char(n % 10))
    }
}

/// The decimal text of `n`, with a minus sign where it is negative.
pub open spec fn signed_decimal(n: int) -> Seq<char> {
    if n < 0 {
        seq!['-'] + decimal((-n) as nat)
    } else {
        decimal(n as nat)
    }
}

pub open spec fn all_digits(s: Seq<char>) -> bool {
    forall|i: int| 0 <= i < s.len() ==> is_digit(#[trigger] s[i])
}

/// The number that a run of decimal digits stands for.
pub open spec fn digits_value(s: Seq<char>) -> nat
    decreases s.len(),
{
    if s.len() == 0 {
        0
    } else {
        digits_value(s.drop_last()) * 10 + digit_of(s.last())
    }
}

/// What follows an optional leading plus sign.
pub open spec fn unsigned_part(s: Seq<char>) -> Seq<char> {
    if s.len() > 0 && s[0] == '+' {
        s.skip(1)
    } else {
        s
    }
}

/// The 32-bit number that `s` writes: an optional plus sign, then one or more digits and
/// nothing else, for a number that fits.
pub open spec fn u32_of_text(s: Seq<char>) -> Option<u32> {
    let body = unsigned_part(s);
    if body.len() > 0 && all_digits(body) && digits_value(body) <= u32::MAX {
        Some(digits_value(body) as u32)
    } else {
        None
    }
}

fn digit_text(d: u64) -> (res: &'static str)
    requires
        d < 10,
    ensures
        res@ == seq![digit_char(d as nat)],
{
    proof {
        reveal_strlit("0");
        reveal_strlit("1");
        reveal_strlit("2");
        reveal_strlit("3");
        reveal_strlit("4");
        reveal_strlit("5");
        reveal_strlit("6");
        reveal_strlit("7");
        reveal_strlit("8");
        reveal_strlit("9");
    }
    match d {
        0 => "0",
        1 => "1",
        2 => "2",
        3 => "3",
        4 => "4",
        5 => "5",
        6 => "6",
        7 => "7",
        8 => "8",
        _ => "9",
    }
}

/// Writes `n` in decimal.
pub fn u64_to_string(n: u64) -> (res: String)
    ensures
        res@ == decimal(n as nat),
    decreases n,
{
    if n < 10 {
        digit_text(n).to_string()
    } else {
        let mut text = u64_to_string(n / 10);
        text.append(digit_text(n % 10));
        text
    }
}

/// Writes `n` in decimal, with a minus sign where it is negative.
pub fn i64_to_string(n: i64) -> (res: String)
    ensures
        res@ == signed_decimal(n as int),
{
    if n < 0 {
        let magnitude: u64 = if n == i64::MIN {
            0x8000_0000_0000_0000
        } else {
            (-n) as u64
        };
        let mut text = "-".to_string();
        proof {
            reveal_strlit("-");
        }
        text.append(u64_to_string(magnitude).as_str());
        text
    } else {
        u64_to_string(n as u64)
    }
}

proof fn lemma_digits_value_prefix(s: Seq<char>, n: int)
    requires
        0 <= n <= s.len(),
    ensures
        digits_value(s.take(n)) <= digits_value(s),
    decreases s.len(),
{
    if n == s.len() {
        assert(s.take(n) =~= s);
    } else {
        assert(s.take(n) =~= s.drop_last().take(n));
        lemma_digits_value_prefix(s.drop_last(), n);
    }
}

/// Reads a 32-bit number in decimal.
pub fn parse_u32(s: &str) -> (res: Option<u32>)
    ensures
        res == u32_of_text(s@),
{
    let ghost body = unsigned_part(s@);
    let ghost off: int = s@.len() - body.len();
    let mut value: u32 = 0;
    let mut at_start = true;
    let mut seen = false;
    for c in it: s.chars()
        invariant
            it.seq() == s@,
            body == unsigned_part(s@),
            off == s@.len() - body.len(),
            at_start == (it.index() == 0),
            at_start ==> !seen && value == 0,
            !at_start ==> {
                &&& seen == (it.index() > off)
                &&& all_digits(body.take(it.index() - off))
                &&& value == digits_value(body.take(it.index() - off))
            },
    {
        let ghost k = it.index();
        if at_start && c == '+' {
            at_start = false;
            assert(body.take(0) =~= Seq::<char>::empty());
            assert(off == 1);
            assert(body.take(k + 1 - off) =~= Seq::<char>::empty());
        } else {
            at_start = false;
            proof {
                assert(body[k - off] == c);
                if k == 0 {
                    assert(body.take(0) =~= Seq::<char>::empty());
                }
                assert(body.take(k + 1 - off).drop_last() =~= body.take(k - off));
                lemma_digits_value_prefix(body, k + 1 - off);
            }
            if !(c >= '0' && c <= '9') {
                return None;
            }
            let wide: u64 = (value as u64) * 10 + (c as u64 - 48);
            if wide > 0xffff_ffff {
                return None;
            }
            value = wide as u32;
            seen = true;
            assert forall|i: int| 0 <= i < k + 1 - off implies is_digit(
                #[trigger] body.take(k + 1 - off)[i],
            ) by {
                if i < k - off {
                    assert(body.take(k - off)[i] == body.take(k + 1 - off)[i]);
                }
            }
            assert(value == digits_value(body.take(k + 1 - off)));
        }
    }
    proof {
        assert(body.take(body.len() as int) =~= body);
    }
    if seen {
        Some(value)
    } else {
        None
    }
}

proof fn lemma_decimal_reads_back(n: nat)
    ensures
        decimal(n).len() > 0,
        all_digits(decimal(n)),
        digits_value(decimal(n)) == n,
    decreases n,
{
    reveal_with_fuel(digits_value, 2);
    if n < 10 {
        assert(decimal(n).drop_last() =~= Seq::<char>::empty());
    } else {
        lemma_decimal_reads_back(n / 10);
        let d = decimal(n / 10);
        assert(decimal(n).drop_last() =~= d);
        assert forall|i: int| 0 <= i < decimal(n).len() implies is_digit(
            #[trigger] decimal(n)[i],
        ) by {
            if i < d.len() {
                assert(decimal(n)[i] == d[i]);
            }
        }
    }
}

/// The decimal text of a 32-bit number reads back as that number.
pub proof fn decimal_reads_back(n: u32)
    ensures
        u32_of_text(decimal(n as nat)) == Some(n),
{
    lemma_decimal_reads_back(n as nat);
    assert(is_digit(decimal(n as nat)[0]));
}

/// Different integers have different decimal texts.
pub proof fn signed_decimal_is_injective(m: int, n: int)
    requires
        signed_decimal(m) == signed_decimal(n),
    ensures
        m == n,
{
    let p: nat = if m < 0 { (-m) as nat } else { m as nat };
    let q: nat = if n < 0 { (-n) as nat } else { n as nat };
    lemma_decimal_reads_back(p);
    lemma_decimal_reads_back(q);
    assert(is_digit(decimal(p)[0]));
    assert(is_digit(decimal(q)[0]));
    assert(signed_decimal(m)[0] == signed_decimal(n)[0]);
    if m < 0 {
        assert(signed_decimal(m).skip(1) =~= decimal(p));
        assert(signed_decimal(n).skip(1) =~= decimal(q));
    }
}

proof fn lemma_decimal_is_positional(n: nat)
    ensures
        decimal(n).len() > 0,
        n > 0 ==> decimal(n)[0] != '0',
        n < pow(10, decimal(n).len()),
        forall|i: int|
            0 <= i < decimal(n).len() ==> #[trigger] decimal(n)[i] as int == 48 + (n as int / pow(
                10,
                (decimal(n).len() - 1 - i) as nat,
            )) % 10,
    decreases n,
{
    reveal(pow);
    let text = decimal(n);
    if n < 10 {
        assert(pow(10, 0) == 1);
        assert(pow(10, 1) == 10 * pow(10, 0));
    } else {
        let head = decimal(n / 10);
        let len = text.len();
        lemma_decimal_is_positional(n / 10);
        assert(text == head.push(digit_char(n % 10)));
        assert(text[0] == head[0]);
        assert(pow(10, len) == 10 * pow(10, (len - 1) as nat));
        assert forall|i: int| 0 <= i < len implies #[trigger] text[i] as int == 48 + (n as int / pow(
            10,
            (len - 1 - i) as nat,
        )) % 10 by {
            if i < len - 1 {
                let e = (len - 2 - i) as nat;
                assert(text[i] == head[i]);
                vstd::arithmetic::power::lemma_pow_positive(10, e);
                assert(pow(10, e + 1) == 10 * pow(10, e));
                vstd::arithmetic::div_mod::lemma_div_denominator(n as int, 10, pow(10, e));
            } else {
                assert(pow(10, 0) == 1);
            }
        }
    }
}

/// A number is written with its decimal digits, each by its place, and with no zero in front.
pub proof fn number_is_written_by_places(n: u64, text: String)
    requires
        call_ensures(u64_to_string, (n,), text),
    ensures
        text@.len() > 0,
        text@.len() > 1 ==> text@[0] != '0',
        n < pow(10, text@.len()),
        forall|i: int|
            0 <= i < text@.len() ==> #[trigger] text@[i] as int == 48 + (n as int / pow(
                10,
                (text@.len() - 1 - i) as nat,
            )) % 10,
{
    lemma_decimal_is_positional(n as nat);
    if n == 0 {
        assert(text@.len() == 1);
    }
}

/// A negative number is written as a minus sign and the number without its sign; any other, as
/// an unsigned number is.
pub proof fn negative_number_is_written_with_a_sign(n: i64, size: u64, text: String, unsigned: String)
    requires
        call_ensures(i64_to_string, (n,), text),
        call_ensures(u64_to_string, (size,), unsigned),
        size == (if n < 0 {
            -n
        } else {
            n as int
        }),
    ensures
        n < 0 ==> text@ == seq!['-'] + unsigned@,
        n >= 0 ==> text@ == unsigned@,
{
}

/// A 32-bit number that was written is read as itself.
pub proof fn written_number_is_read(n: u32, written: String, text: &str, read: Option<u32>)
    requires
        call_ensures(u64_to_string, (n as u64,), written),
        text@ == written@,
        call_ensures(parse_u32, (text,), read),
    ensures
        read == Some(n),
{
    decimal_reads_back(n);
}

/// A text of one character, or of a plus sign and one character, is read as the digit that this
/// character is, and as no number if it is none.
pub proof fn one_digit_is_read(text: &str, read: Option<u32>)
    requires
        text@.len() == 1 || text@.len() == 2 && text@[0] == '+',
        call_ensures(parse_u32, (text,), read),
    ensures
        ({
            let c = text@.last();
            read == (if '0' <= c <= '9' {
                Some((c as int - 48) as u32)
            } else {
                None::<u32>
            })
        }),
{
    reveal_with_fuel(digits_value, 2);
    let body = unsigned_part(text@);
    let c = text@.last();
    if text@.len() == 1 && c == '+' {
        assert(body.len() == 0);
    } else {
        assert(body =~= seq![c]);
        assert(body[0] == c);
        assert(body.drop_last() =~= Seq::<char>::empty());
    }
}

/// One more digit behind a number makes it ten times the number and the digit, if that fits in
/// 32 bits; nothing that is no number becomes one, and nothing but a digit keeps it one.
pub proof fn one_more_digit_is_read(
    text: &str,
    longer: &str,
    c: char,
    read: Option<u32>,
    longer_read: Option<u32>,
)
    requires
        text@.len() > 0,
        text@ != seq!['+'],
        longer@ == text@.push(c),
        call_ensures(parse_u32, (text,), read),
        call_ensures(parse_u32, (longer,), longer_read),
    ensures
        longer_read == (if '0' <= c <= '9' && read is Some && read->0 * 10 + (c as int - 48)
            <= u32::MAX {
            Some((read->0 * 10 + (c as int - 48)) as u32)
        } else {
            None::<u32>
        }),
{
    let body = unsigned_part(text@);
    let more = unsigned_part(longer@);
    assert(longer@[0] == text@[0]);
    assert(more =~= body.push(c));
    if text@[0] == '+' && text@.len() == 1 {
        assert(text@ =~= seq!['+']);
    }
    assert(body.len() > 0);
    assert(more.drop_last() =~= body);
    assert(all_digits(more) <==> all_digits(body) && is_digit(c)) by {
        if all_digits(more) {
            assert(is_digit(more[body.len() as int]));
            assert forall|i: int| 0 <= i < body.len() implies is_digit(#[trigger] body[i]) by {
                assert(is_digit(more[i]));
            }
        }
    }
}

/// The empty text is no number.
pub proof fn no_digit_is_no_number(text: &str, read: Option<u32>)
    requires
        text@.len() == 0,
        call_ensures(parse_u32, (text,), read),
    ensures
        read is None,
{
}

} // verus!
