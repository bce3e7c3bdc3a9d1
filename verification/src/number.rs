//! Numbers: decimals in text, and capped sums.

use crate::text::chars_of;
use vstd::prelude::*;
use vstd::string::*;

verus! {

/// `a + b`, or the largest `u64` where that is less.
pub open spec fn capped_sum(a: u64, b: u64) -> u64 {
    if a + b > u64::MAX {
        u64::MAX
    } else {
        (a + b) as u64
    }
}

/// Whether `c` is one of the ten ASCII digits.
pub open spec fn is_digit(c: char) -> bool {
    '0' <= c <= '9'
}

/// The value of an ASCII digit.
pub open spec fn digit_value(c: char) -> nat {
    (c as u32 - '0' as u32) as nat
}

/// Whether `s` is one digit or more, and nothing else.
pub open spec fn is_number(s: Seq<char>) -> bool {
    s.len() > 0 && forall|i: int| 0 <= i < s.len() ==> is_digit(#[trigger] s[i])
}

/// The number that the digits of `s` write, the first digit weighing most.
pub open spec fn number_value(s: Seq<char>) -> nat
    decreases s.len(),
{
    if s.len() == 0 {
        0
    } else {
        number_value(s.drop_last()) * 10 + digit_value(s.last())
    }
}

/// `s` without one leading `sign`.
pub open spec fn without_sign(s: Seq<char>, sign: char) -> Seq<char> {
    if s.len() > 0 && s[0] == sign {
        s.skip(1)
    } else {
        s
    }
}

/// What `s` says as an unsigned number of at most `max`: an optional `+`, then digits only.
pub open spec fn unsigned_of(s: Seq<char>, max: nat) -> Option<nat> {
    let digits = without_sign(s, '+');
    if is_number(digits) && number_value(digits) <= max {
        Some(number_value(digits))
    } else {
        None
    }
}

/// What `s` says as a signed number from `min` to `max`: an optional `+` or `-`, then digits only.
pub open spec fn signed_of(s: Seq<char>, min: int, max: int) -> Option<int> {
    if s.len() > 0 && s[0] == '-' {
        let digits = s.skip(1);
        if is_number(digits) && min <= -(number_value(digits) as int) {
            Some(-(number_value(digits) as int))
        } else {
            None
        }
    } else {
        let digits = without_sign(s, '+');
        if is_number(digits) && number_value(digits) <= max {
            Some(number_value(digits) as int)
        } else {
            None
        }
    }
}

/// More digits never make a number smaller.
proof fn lemma_number_value_grows(s: Seq<char>, n: int)
    requires
        0 <= n <= s.len(),
    ensures
        number_value(s.take(n)) <= number_value(s),
    decreases s.len() - n,
{
    if n < s.len() {
        lemma_number_value_grows(s, n + 1);
        assert(s.take(n + 1).drop_last() =~= s.take(n));
    } else {
        assert(s.take(n) =~= s);
    }
}

/// The number that the characters from `from` on write, where they are digits only and it is at
/// most `max`.
fn digits_from(chars: &Vec<char>, from: usize, max: u64) -> (r: Option<u64>)
    requires
        from <= chars@.len(),
    ensures
        ({
            let digits = chars@.skip(from as int);
            match r {
                Some(v) => is_number(digits) && number_value(digits) == v && v <= max,
                None => !(is_number(digits) && number_value(digits) <= max),
            }
        }),
{
    let ghost digits = chars@.skip(from as int);
    if from == chars.len() {
        return None;
    }
    let mut i: usize = from;
    let mut value: u64 = 0;
    proof {
        assert(digits.take(0) =~= Seq::<char>::empty());
    }
    while i < chars.len()
        invariant
            from <= i <= chars@.len(),
            digits == chars@.skip(from as int),
            value == number_value(digits.take(i - from)),
            value <= max,
            forall|k: int| 0 <= k < i - from ==> is_digit(#[trigger] digits[k]),
        decreases chars@.len() - i,
    {
        let c = chars[i];
        proof {
            assert(digits[i - from] == c);
            assert(digits.take(i + 1 - from).drop_last() =~= digits.take(i - from));
            assert(digits.take(i + 1 - from).last() == c);
        }
        if c < '0' || c > '9' {
            return None;
        }
        let d: u64 = (c as u64) - ('0' as u64);
        proof {
            lemma_number_value_grows(digits, i + 1 - from);
        }
        if value > (u64::MAX - d) / 10 {
            return None;
        }
        value = value * 10 + d;
        if value > max {
            return None;
        }
        i += 1;
    }
    proof {
        assert(digits.take(i - from) =~= digits);
    }
    Some(value)
}

/// `str::parse` of an unsigned type whose largest value is `max`.
pub fn parse_unsigned(s: &str, max: u64) -> (r: Option<u64>)
    ensures
        match r {
            Some(v) => unsigned_of(s@, max as nat) == Some(v as nat),
            None => unsigned_of(s@, max as nat) is None,
        },
{
    let chars = chars_of(s);
    proof {
        assert(s@.skip(0) =~= s@);
    }
    if chars.len() > 0 && chars[0] == '+' {
        digits_from(&chars, 1, max)
    } else {
        digits_from(&chars, 0, max)
    }
}

/// `str::parse` of a signed type with the bounds `min` and `max`.
pub fn parse_signed(s: &str, min: i64, max: i64) -> (r: Option<i64>)
    requires
        min <= 0 <= max,
    ensures
        match r {
            Some(v) => signed_of(s@, min as int, max as int) == Some(v as int),
            None => signed_of(s@, min as int, max as int) is None,
        },
{
    let chars = chars_of(s);
    proof {
        assert(s@.skip(0) =~= s@);
    }
    if chars.len() > 0 && chars[0] == '-' {
        let room: u64 = if min == 0 {
            0
        } else {
            ((-(min + 1)) as u64) + 1
        };
        match digits_from(&chars, 1, room) {
            Some(v) => if v == 0 {
                Some(0)
            } else {
                Some(-((v - 1) as i64) - 1)
            },
            None => None,
        }
    } else {
        let from: usize = if chars.len() > 0 && chars[0] == '+' {
            1
        } else {
            0
        };
        match digits_from(&chars, from, max as u64) {
            Some(v) => Some(v as i64),
            None => None,
        }
    }
}

/// The ASCII digit with value `d`.
pub open spec fn digit_char(d: nat) -> char {
    (d + '0' as u32) as char
}

/// `n` in decimal digits, without leading zeros.
pub open spec fn decimal(n: nat) -> Seq<char>
    decreases n,
{
    if n < 10 {
        seq![digit_char(n)]
    } else {
        decimal(n / 10).push(digit_char(n % 10))
    }
}

/// `n` written in decimal digits.
pub fn decimal_text(n: u64) -> (r: String)
    ensures
        r@ == decimal(n as nat),
    decreases n,
{
    let mut out = if n < 10 {
        String::new()
    } else {
        decimal_text(n / 10)
    };
    let d: u8 = (n % 10) as u8;
    out.push((d + 48) as char);
    proof {
        assert(out@ =~= decimal(n as nat));
    }
    out
}

/// Writes `n` in decimal digits behind a text.
pub fn append_number(out: &mut String, n: u64)
    ensures
        final(out)@ == old(out)@ + decimal(n as nat),
{
    out.append(decimal_text(n).as_str());
}

/// What is written as a number is read back as that number.
pub proof fn law_decimal_reads_back(n: nat)
    ensures
        is_number(decimal(n)),
        number_value(decimal(n)) == n,
        unsigned_of(decimal(n), n) == Some(n),
    decreases n,
{
    if n >= 10 {
        law_decimal_reads_back(n / 10);
        assert(decimal(n).drop_last() =~= decimal(n / 10));
    } else {
        assert(decimal(n).drop_last() =~= Seq::<char>::empty());
        reveal_with_fuel(number_value, 2);
    }
}

/// A digit more makes a number ten times as large and adds the digit; there are ten digits.
pub proof fn law_digits_weigh_ten_times(s: Seq<char>, c: char)
    ensures
        number_value(Seq::<char>::empty()) == 0,
        number_value(s.push(c)) == 10 * number_value(s) + digit_value(c),
        is_digit(c) <==> 48 <= c as u32 <= 57,
        is_digit(c) ==> digit_value(c) == c as u32 - 48,
{
    assert(s.push(c).drop_last() =~= s);
}

/// A text is a number exactly where it is digits alone, after one sign at most, and the number
/// lies in its range.
pub proof fn law_what_is_a_number(digits: Seq<char>, min: int, max: nat)
    requires
        is_number(digits),
    ensures
        number_value(digits) <= max ==> unsigned_of(digits, max) == Some(number_value(digits))
            && unsigned_of(seq!['+'] + digits, max) == Some(number_value(digits)) && signed_of(
            digits,
            min,
            max as int,
        ) == Some(number_value(digits) as int) && signed_of(seq!['+'] + digits, min, max as int)
            == Some(number_value(digits) as int),
        number_value(digits) > max ==> unsigned_of(digits, max) is None && unsigned_of(
            seq!['+'] + digits,
            max,
        ) is None && signed_of(digits, min, max as int) is None,
        unsigned_of(seq!['-'] + digits, max) is None,
        -(number_value(digits) as int) >= min ==> signed_of(seq!['-'] + digits, min, max as int)
            == Some(-(number_value(digits) as int)),
        -(number_value(digits) as int) < min ==> signed_of(seq!['-'] + digits, min, max as int)
            is None,
{
    assert(is_digit(digits[0]));
    assert((seq!['+'] + digits).skip(1) =~= digits);
    assert((seq!['-'] + digits).skip(1) =~= digits);
    assert((seq!['-'] + digits)[0] == '-');
    assert((seq!['+'] + digits)[0] == '+');
}

/// What is read as a number was written with digits: a text that holds anything else behind its
/// first character, or is empty, is none.
pub proof fn law_what_is_no_number(s: Seq<char>, min: int, max: nat, i: int)
    requires
        s.len() == 0 || (0 < i < s.len() && !is_digit(s[i])),
    ensures
        unsigned_of(s, max) is None,
        signed_of(s, min, max as int) is None,
{
    if s.len() > 0 {
        assert(s.skip(1)[i - 1] == s[i]);
    }
}

/// A capped sum is the sum as long as that fits.
pub proof fn law_capped_sum(a: u64, b: u64)
    ensures
        a + b <= u64::MAX ==> capped_sum(a, b) == a + b,
        a + b > u64::MAX ==> capped_sum(a, b) == u64::MAX,
{
}

} // verus!
