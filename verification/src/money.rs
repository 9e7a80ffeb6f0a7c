//! Writing an amount of minor units the way people read money: units, a
//! point, and two places of hundredths.

use vstd::prelude::*;
use vstd::string::is_ascii_spec_bytes;

verus! {

/// The character for one decimal digit.
pub open spec fn digit(d: int) -> char {
    if d == 0 {
        '0'
    } else if d == 1 {
        '1'
    } else if d == 2 {
        '2'
    } else if d == 3 {
        '3'
    } else if d == 4 {
        '4'
    } else if d == 5 {
        '5'
    } else if d == 6 {
        '6'
    } else if d == 7 {
        '7'
    } else if d == 8 {
        '8'
    } else {
        '9'
    }
}

/// A natural number in decimal, without leading zeros.
pub open spec fn decimal(n: nat) -> Seq<char>
    decreases n,
{
    if n < 10 {
        seq![digit(n as int)]
    } else {
        decimal(n / 10).push(digit((n % 10) as int))
    }
}

/// The size of a number without its sign.
pub open spec fn magnitude(v: int) -> nat {
    if v < 0 {
        (-v) as nat
    } else {
        v as nat
    }
}

/// An amount of minor units as text: a minus sign if it is negative, the
/// whole units in decimal, a point, and the hundredths in two digits.
pub open spec fn money_text(v: int) -> Seq<char> {
    let sign = if v < 0 {
        seq!['-']
    } else {
        Seq::<char>::empty()
    };
    let m = magnitude(v);
    sign + decimal(m / 100) + seq!['.', digit(((m % 100) / 10) as int), digit((m % 10) as int)]
}

/// The text of one digit.
fn digit_str(d: u8) -> (text: &'static str)
    requires
        d < 10,
    ensures
        text@ == seq![digit(d as int)],
{
    proof {
        reveal_strlit("0");
        reveal_strlit("1");
        reveal_strlit("2");
        reveal_strlit("3");
        reveal_strlit("4");
        reveal_strlit("5");
        reveal_strlit("6");
        reveal_strlit("7");
        reveal_strlit("8");
        reveal_strlit("9");
    }
    let text = match d {
        0 => "0",
        1 => "1",
        2 => "2",
        3 => "3",
        4 => "4",
        5 => "5",
        6 => "6",
        7 => "7",
        8 => "8",
        _ => "9",
    };
    assert(text@ =~= seq![digit(d as int)]);
    text
}

/// Appends `n` in decimal to `out`.
fn append_decimal(out: &mut String, n: u128)
    ensures
        final(out)@ == old(out)@ + decimal(n as nat),
    decreases n,
{
    if n >= 10 {
        append_decimal(out, n / 10);
    }
    out.append(digit_str((n % 10) as u8));
    assert(out@ =~= old(out)@ + decimal(n as nat));
}

/// Writes an amount of minor units as money: `12345` is `123.45`, `-5` is
/// `-0.05`.
pub fn format_money(v: i128) -> (text: String)
    ensures
        text@ == money_text(v as int),
{
    let mut text = String::new();
    let m: u128 = if v < 0 {
        text.append("-");
        (-(v + 1)) as u128 + 1
    } else {
        v as u128
    };
    proof {
        reveal_strlit("-");
        reveal_strlit(".");
    }
    assert(m == magnitude(v as int));
    append_decimal(&mut text, m / 100);
    text.append(".");
    text.append(digit_str(((m % 100) / 10) as u8));
    text.append(digit_str((m % 10) as u8));
    assert(text@ =~= money_text(v as int));
    text
}

/// Whether `c` is a decimal digit.
pub open spec fn is_digit(c: char) -> bool {
    '0' <= c <= '9'
}

/// Whether `s` holds decimal digits only.
pub open spec fn all_digits(s: Seq<char>) -> bool {
    forall|i: int| 0 <= i < s.len() ==> is_digit(#[trigger] s[i])
}

/// The number that the digits `s` write in decimal; 0 for no digits.
pub open spec fn digits_value(s: Seq<char>) -> int
    decreases s.len(),
{
    if s.len() == 0 {
        0
    } else {
        digits_value(s.drop_last()) * 10 + (s.last() as int - '0' as int)
    }
}

/// How many digits follow the point: two or one where a point stands third
/// or second from the end, none otherwise.
pub open spec fn fraction_len(s: Seq<char>) -> int {
    if s.len() >= 3 && s[s.len() - 3] == '.' {
        2
    } else if s.len() >= 2 && s[s.len() - 2] == '.' {
        1
    } else {
        0
    }
}

/// The digits before the point.
pub open spec fn units_part(s: Seq<char>) -> Seq<char> {
    if fraction_len(s) == 0 {
        s
    } else {
        s.take(s.len() - fraction_len(s) - 1)
    }
}

/// The digits after the point.
pub open spec fn fraction_part(s: Seq<char>) -> Seq<char> {
    s.skip(s.len() - fraction_len(s))
}

/// The minor units that an unsigned amount writes: at least one digit of
/// whole units, then nothing more, or a point and one or two digits, the
/// first of them tenths. `None` for any other text.
pub open spec fn unsigned_value(s: Seq<char>) -> Option<int> {
    let units = units_part(s);
    let fraction = fraction_part(s);
    if units.len() >= 1 && all_digits(units) && all_digits(fraction) {
        Some(
            digits_value(units) * 100 + if fraction.len() == 1 {
                digits_value(fraction) * 10
            } else {
                digits_value(fraction)
            },
        )
    } else {
        None
    }
}

/// The minor units that an amount writes: an unsigned amount, or a minus
/// sign and an unsigned amount. `None` for any other text.
pub open spec fn money_value(s: Seq<char>) -> Option<int> {
    if s.len() > 0 && s[0] == '-' {
        match unsigned_value(s.skip(1)) {
            Some(v) => Some(-v),
            None => None,
        }
    } else {
        unsigned_value(s)
    }
}

/// What reading `s` as an amount gives: its value where it writes one that
/// an `i64` holds, `None` otherwise.
pub open spec fn parsed(s: Seq<char>) -> Option<i64> {
    match money_value(s) {
        Some(v) => if i64::MIN <= v <= i64::MAX {
            Some(v as i64)
        } else {
            None
        },
        None => None,
    }
}

/// Every character of an unsigned amount is a digit or the point.
proof fn lemma_unsigned_chars(s: Seq<char>, i: int)
    requires
        unsigned_value(s) is Some,
        0 <= i < s.len(),
    ensures
        is_digit(s[i]) || s[i] == '.',
{
    let f = fraction_len(s);
    let units = units_part(s);
    let fraction = fraction_part(s);
    if i < units.len() {
        assert(units[i] == s[i]);
    } else if i >= s.len() - f {
        assert(fraction[i - (s.len() - f)] == s[i]);
    }
}

/// Every character of an amount is a digit, the point or the minus sign.
proof fn lemma_money_chars(s: Seq<char>, i: int)
    requires
        money_value(s) is Some,
        0 <= i < s.len(),
    ensures
        is_digit(s[i]) || s[i] == '.' || s[i] == '-',
{
    if s[0] == '-' {
        if i > 0 {
            lemma_unsigned_chars(s.skip(1), i - 1);
        }
    } else {
        lemma_unsigned_chars(s, i);
    }
}

/// The digits read so far never write more than all the digits do.
proof fn lemma_digits_prefix(s: Seq<char>, k: int)
    requires
        all_digits(s),
        0 <= k <= s.len(),
    ensures
        0 <= digits_value(s.take(k)) <= digits_value(s),
    decreases s.len() - k,
{
    if k == s.len() {
        assert(s.take(k) =~= s);
        lemma_digits_nonnegative(s);
    } else {
        lemma_digits_prefix(s, k + 1);
        assert(s.take(k + 1).drop_last() =~= s.take(k));
        assert(is_digit(s[k]));
        lemma_digits_nonnegative(s.take(k));
    }
}

/// Digits write no negative number.
proof fn lemma_digits_nonnegative(s: Seq<char>)
    requires
        all_digits(s),
    ensures
        0 <= digits_value(s),
    decreases s.len(),
{
    if s.len() > 0 {
        lemma_digits_nonnegative(s.drop_last());
        assert(is_digit(s.last()));
    }
}

/// One or two digits write at most 99, one digit at most 9.
proof fn lemma_short_digits(s: Seq<char>)
    requires
        all_digits(s),
        s.len() <= 2,
    ensures
        0 <= digits_value(s) <= 99,
        s.len() <= 1 ==> digits_value(s) <= 9,
{
    if s.len() == 2 {
        assert(s.drop_last().drop_last() =~= Seq::<char>::empty());
        assert(is_digit(s[0]) && is_digit(s[1]));
        assert(s.drop_last().last() == s[0]);
        assert(digits_value(s.drop_last().drop_last()) == 0);
        assert(digits_value(s.drop_last()) == s[0] as int - '0' as int);
    } else if s.len() == 1 {
        assert(s.drop_last() =~= Seq::<char>::empty());
        assert(is_digit(s[0]));
        assert(digits_value(s.drop_last()) == 0);
    }
}

/// `bytes` holds the characters of `s`, all of them ASCII, one byte each.
spec fn mirrors(bytes: Seq<u8>, s: Seq<char>) -> bool {
    &&& bytes.len() == s.len()
    &&& forall|k: int|
        0 <= k < s.len() ==> '\0' <= (#[trigger] s[k]) <= '\u{7f}' && bytes[k] == s[k] as u8
}

/// Reads the digits `bytes[from..to]`. `None` where one of them is no digit
/// or where they write more than `limit`.
fn read_digits(bytes: &[u8], Ghost(s): Ghost<Seq<char>>, from: usize, to: usize, limit: u64) -> (r:
    Option<u64>)
    requires
        from <= to <= bytes@.len(),
        mirrors(bytes@, s),
        limit <= 1_000_000_000_000_000_000,
    ensures
        match r {
            Some(v) => all_digits(s.subrange(from as int, to as int)) && v == digits_value(
                s.subrange(from as int, to as int),
            ) && v <= limit,
            None => !all_digits(s.subrange(from as int, to as int)) || digits_value(
                s.subrange(from as int, to as int),
            ) > limit,
        },
{
    let ghost part = s.subrange(from as int, to as int);
    let mut value: u64 = 0;
    let mut i: usize = from;
    while i < to
        invariant
            from <= i <= to <= bytes@.len(),
            mirrors(bytes@, s),
            part == s.subrange(from as int, to as int),
            all_digits(part.take(i - from)),
            value == digits_value(part.take(i - from)),
            value <= limit <= 1_000_000_000_000_000_000,
        decreases to - i,
    {
        let b = bytes[i];
        let ghost c = s[i as int];
        assert(part[i - from] == c);
        assert('\0' <= c <= '\u{7f}' && b == c as u8);
        if b < 48 || b > 57 {
            return None;
        }
        assert(part.take(i - from + 1).drop_last() =~= part.take(i - from));
        let next: u64 = value * 10 + (b - 48) as u64;
        assert forall|k: int| 0 <= k < i - from + 1 implies is_digit(
            #[trigger] part.take(i - from + 1)[k],
        ) by {
            if k < i - from {
                assert(part.take(i - from)[k] == part[k]);
            }
        }
        if next > limit {
            proof {
                if all_digits(part) {
                    lemma_digits_prefix(part, i - from + 1);
                }
            }
            return None;
        }
        value = next;
        i = i + 1;
    }
    assert(part.take(to - from) =~= part);
    Some(value)
}

/// How an amount is laid out in its text: whether it has a sign, and how
/// many digits follow the point.
proof fn lemma_layout(s: Seq<char>, negative: bool, f: int)
    requires
        negative == (s.len() > 0 && s[0] == '-'),
        f == fraction_len(
            if negative {
                s.skip(1)
            } else {
                s
            },
        ),
    ensures
        ({
            let start: int = if negative {
                1
            } else {
                0
            };
            let end: int = if f == 0 {
                s.len() as int
            } else {
                s.len() - f - 1
            };
            let units = s.subrange(start, if end < start { start } else { end });
            let fraction = s.subrange(s.len() - f, s.len() as int);
            &&& 0 <= f <= 2
            &&& f <= s.len() - start
            &&& fraction.len() == f
            &&& money_value(s) == if end > start && all_digits(units) && all_digits(fraction) {
                let v = digits_value(units) * 100 + if f == 1 {
                    digits_value(fraction) * 10
                } else {
                    digits_value(fraction)
                };
                Some(
                    if negative {
                        -v
                    } else {
                        v
                    },
                )
            } else {
                None
            }
        }),
{
    let start: int = if negative {
        1
    } else {
        0
    };
    let body = if negative {
        s.skip(1)
    } else {
        s
    };
    let end: int = if f == 0 {
        s.len() as int
    } else {
        s.len() - f - 1
    };
    assert(fraction_part(body) =~= s.subrange(s.len() - f, s.len() as int));
    if end > start {
        assert(units_part(body) =~= s.subrange(start, end));
    } else {
        assert(units_part(body).len() == 0);
    }
}

/// Reads an amount of money: `123.45` is 12345, `7` is 700, `-0.5` is -50.
///
/// The text is an optional minus sign, one or more digits, and optionally a
/// point followed by one or two digits. Anything else, and any amount that
/// an `i64` cannot hold, reads as `None`.
pub fn parse_money(text: &str) -> (amount: Option<i64>)
    ensures
        amount == parsed(text@),
{
    if !text.is_ascii() {
        proof {
            if money_value(text@) is Some {
                assert forall|i: int| 0 <= i < text@.len() implies '\0' <= #[trigger] text@[i]
                    <= '\u{7f}' by {
                    lemma_money_chars(text@, i);
                }
            }
        }
        return None;
    }
    let bytes = text.as_bytes();
    let n = bytes.len();
    let ghost s = text@;
    proof {
        is_ascii_spec_bytes(text);
        assert(mirrors(bytes@, s));
    }
    let negative = n > 0 && bytes[0] == 45;
    let start: usize = if negative {
        1
    } else {
        0
    };
    let f: usize = if n - start >= 3 && bytes[n - 3] == 46 {
        2
    } else if n - start >= 2 && bytes[n - 2] == 46 {
        1
    } else {
        0
    };
    proof {
        let body = if negative {
            s.skip(1)
        } else {
            s
        };
        if n - start >= 3 {
            assert(body[body.len() - 3] == s[n - 3]);
        }
        if n - start >= 2 {
            assert(body[body.len() - 2] == s[n - 2]);
        }
        assert(f == fraction_len(body));
        lemma_layout(s, negative, f as int);
    }
    let units_end: usize = if f == 0 {
        n
    } else {
        n - f - 1
    };
    if units_end <= start {
        return None;
    }
    let units = match read_digits(bytes, Ghost(s), start, units_end, 92_233_720_368_547_758) {
        Some(units) => units,
        None => {
            proof {
                let fraction = s.subrange(n - f, n as int);
                if all_digits(fraction) {
                    lemma_short_digits(fraction);
                }
            }
            return None;
        },
    };
    let fraction = match read_digits(bytes, Ghost(s), n - f, n, 99) {
        Some(fraction) => fraction,
        None => {
            proof {
                let fraction = s.subrange(n - f, n as int);
                if all_digits(fraction) {
                    lemma_short_digits(fraction);
                }
            }
            return None;
        },
    };
    proof {
        lemma_short_digits(s.subrange(n - f, n as int));
    }
    let hundredths: u64 = if f == 1 {
        fraction * 10
    } else {
        fraction
    };
    let magnitude: i128 = units as i128 * 100 + hundredths as i128;
    let value: i128 = if negative {
        -magnitude
    } else {
        magnitude
    };
    if value < i64::MIN as i128 || value > i64::MAX as i128 {
        None
    } else {
        Some(value as i64)
    }
}

/// The decimal writing of a number is one or more digits, and they write
/// that number.
pub proof fn lemma_decimal_reads_back(n: nat)
    ensures
        decimal(n).len() >= 1,
        all_digits(decimal(n)),
        digits_value(decimal(n)) == n,
    decreases n,
{
    let s = decimal(n);
    if n < 10 {
        assert(s.drop_last() =~= Seq::<char>::empty());
        assert(digits_value(s.drop_last()) == 0);
    } else {
        lemma_decimal_reads_back(n / 10);
        assert(s.drop_last() =~= decimal(n / 10));
        assert forall|i: int| 0 <= i < s.len() implies is_digit(#[trigger] s[i]) by {
            if i < s.len() - 1 {
                assert(s[i] == decimal(n / 10)[i]);
            }
        }
    }
}

/// What is written is read back: the text of an amount is an amount, and
/// its value is the amount written.
pub proof fn law_money_round_trip(v: int)
    ensures
        money_value(money_text(v)) == Some(v),
        i64::MIN <= v <= i64::MAX ==> parsed(money_text(v)) == Some(v as i64),
{
    let m = magnitude(v);
    let units = decimal(m / 100);
    let fraction = seq![digit(((m % 100) / 10) as int), digit((m % 10) as int)];
    let body = units + seq!['.'] + fraction;
    let s = money_text(v);
    lemma_decimal_reads_back(m / 100);
    assert(is_digit(units[0]));
    assert(body =~= units + seq!['.', fraction[0], fraction[1]]);
    if v < 0 {
        assert(s =~= seq!['-'] + body);
        assert(s.skip(1) =~= body);
    } else {
        assert(s =~= body);
        assert(s[0] == units[0]);
    }
    assert(body[body.len() - 3] == '.');
    assert(units_part(body) =~= units);
    assert(fraction_part(body) =~= fraction);
    lemma_short_digits(fraction);
    assert(fraction.drop_last() =~= seq![fraction[0]]);
    assert(fraction.drop_last().drop_last() =~= Seq::<char>::empty());
    assert(digits_value(fraction.drop_last().drop_last()) == 0);
    let tens = ((m % 100) / 10) as int;
    let ones = (m % 10) as int;
    assert(fraction.drop_last().last() == digit(tens));
    assert(digits_value(fraction.drop_last()) == tens);
    assert(fraction.last() == digit(ones));
    assert(digits_value(fraction) == tens * 10 + ones);
    assert(tens * 10 + ones == m % 100);
    assert(unsigned_value(body) == Some(m as int));
}

} // verus!
