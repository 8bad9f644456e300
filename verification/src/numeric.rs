//! Decimal integers: reading an `i32` the way `str::parse::<i32>` does, and
//! writing an integer the way its `Display` impl does.

use vstd::prelude::*;

verus! {

/// Why a text is not a decimal `i32`; the kinds of `core::num::IntErrorKind`
/// that base-10 parsing of a signed integer can give.
#[derive(Clone, Copy, Debug, PartialEq, Eq, Structural)]
pub enum NumberError {
    /// The text is empty.
    Empty,
    /// A character that is not a decimal digit (or a lone sign).
    InvalidDigit,
    /// The value is above `i32::MAX`.
    PosOverflow,
    /// The value is below `i32::MIN`.
    NegOverflow,
}

pub open spec fn is_digit(c: char) -> bool {
    '0' <= c && c <= '9'
}

pub open spec fn digit_value(c: char) -> int {
    (c as int) - ('0' as int)
}

pub open spec fn digit_char(d: int) -> char {
    (('0' as int) + d) as char
}

/// Reads the digits of `s` from left to right into an accumulator that
/// starts at 0; each digit multiplies it by ten and then adds (or, for a
/// negative number, subtracts) the digit. The first character that is not a
/// digit, or the first step that leaves the `i32` range, decides the error.
pub open spec fn read_digits(s: Seq<char>, negative: bool) -> Result<int, NumberError>
    decreases s.len(),
{
    if s.len() == 0 {
        Ok(0)
    } else {
        match read_digits(s.drop_last(), negative) {
            Err(e) => Err(e),
            Ok(acc) => {
                let c = s.last();
                if !is_digit(c) {
                    Err(NumberError::InvalidDigit)
                } else if negative {
                    let v = acc * 10 - digit_value(c);
                    if v < i32::MIN { Err(NumberError::NegOverflow) } else { Ok(v) }
                } else {
                    let v = acc * 10 + digit_value(c);
                    if v > i32::MAX { Err(NumberError::PosOverflow) } else { Ok(v) }
                }
            },
        }
    }
}

/// What `text.parse::<i32>()` gives: an optional leading `+` or `-`, then
/// at least one decimal digit, and nothing else.
pub open spec fn parsed_i32(s: Seq<char>) -> Result<i32, NumberError> {
    let read = if s.len() == 0 {
        Err(NumberError::Empty)
    } else if (s[0] == '+' || s[0] == '-') && s.len() == 1 {
        Err(NumberError::InvalidDigit)
    } else if s[0] == '+' {
        read_digits(s.drop_first(), false)
    } else if s[0] == '-' {
        read_digits(s.drop_first(), true)
    } else {
        read_digits(s, false)
    };
    as_i32_result(read)
}

pub open spec fn as_i32_result(read: Result<int, NumberError>) -> Result<i32, NumberError> {
    match read {
        Ok(v) => Ok(v as i32),
        Err(e) => Err(e),
    }
}

/// The decimal digits of a natural number, without leading zeros.
pub open spec fn nat_digits(m: nat) -> Seq<char>
    decreases m,
{
    if m < 10 {
        seq![digit_char(m as int)]
    } else {
        nat_digits(m / 10).push(digit_char((m % 10) as int))
    }
}

/// The text that `Display` writes for an integer.
pub open spec fn decimal_text(n: int) -> Seq<char> {
    if n < 0 {
        seq!['-'] + nat_digits((-n) as nat)
    } else {
        nat_digits(n as nat)
    }
}

/// An error in a prefix is the error of the whole text.
proof fn lemma_read_digits_prefix_error(s: Seq<char>, k: int, negative: bool)
    requires
        0 <= k <= s.len(),
        read_digits(s.subrange(0, k), negative) is Err,
    ensures
        read_digits(s, negative) == read_digits(s.subrange(0, k), negative),
    decreases s.len() - k,
{
    if k < s.len() {
        let t = s.subrange(0, k + 1);
        assert(t.drop_last() =~= s.subrange(0, k));
        lemma_read_digits_prefix_error(s, k + 1, negative);
    } else {
        assert(s.subrange(0, k) =~= s);
    }
}

/// Reads a decimal `i32` exactly as `text.parse::<i32>()` does.
pub fn parse_i32(text: &str) -> (r: Result<i32, NumberError>)
    ensures
        r == parsed_i32(text@),
{
    let n = text.unicode_len();
    if n == 0 {
        return Err(NumberError::Empty);
    }
    let first = text.get_char(0);
    let negative = first == '-';
    let mut start: usize = 0;
    if first == '+' || first == '-' {
        if n == 1 {
            return Err(NumberError::InvalidDigit);
        }
        start = 1;
    }
    let ghost body = text@.subrange(start as int, n as int);
    proof {
        if start == 1 {
            assert(body =~= text@.drop_first());
        } else {
            assert(body =~= text@);
        }
        assert(parsed_i32(text@) == as_i32_result(read_digits(body, negative)));
    }
    let mut acc: i32 = 0;
    let mut i: usize = start;
    assert(body.subrange(0, 0) =~= Seq::<char>::empty());
    while i < n
        invariant
            start <= i <= n,
            n == text@.len(),
            body == text@.subrange(start as int, n as int),
            read_digits(body.subrange(0, i - start), negative) == Ok::<int, NumberError>(acc as int),
            parsed_i32(text@) == as_i32_result(read_digits(body, negative)),
            negative ==> acc <= 0,
            !negative ==> acc >= 0,
        decreases n - i,
    {
        let c = text.get_char(i);
        let ghost pre = body.subrange(0, i - start);
        let ghost cur = body.subrange(0, i - start + 1);
        assert(cur.drop_last() =~= pre);
        assert(cur.last() == c);
        if !('0' <= c && c <= '9') {
            proof {
                lemma_read_digits_prefix_error(body, i - start + 1, negative);
            }
            return Err(NumberError::InvalidDigit);
        }
        let d: i64 = ((c as u32) - ('0' as u32)) as i64;
        if negative {
            let v: i64 = (acc as i64) * 10 - d;
            if v < (i32::MIN as i64) {
                proof {
                    lemma_read_digits_prefix_error(body, i - start + 1, negative);
                }
                return Err(NumberError::NegOverflow);
            }
            acc = v as i32;
        } else {
            let v: i64 = (acc as i64) * 10 + d;
            if v > (i32::MAX as i64) {
                proof {
                    lemma_read_digits_prefix_error(body, i - start + 1, negative);
                }
                return Err(NumberError::PosOverflow);
            }
            acc = v as i32;
        }
        i = i + 1;
    }
    assert(body.subrange(0, i - start) =~= body);
    Ok(acc)
}

/// The one-character text of a decimal digit.
fn digit_text(d: u64) -> (r: &'static str)
    requires
        d < 10,
    ensures
        r@ == seq![digit_char(d as int)],
{
    proof {
        reveal_strlit("0");
        reveal_strlit("1");
        reveal_strlit("2");
        reveal_strlit("3");
        reveal_strlit("4");
        reveal_strlit("5");
        reveal_strlit("6");
        reveal_strlit("7");
        reveal_strlit("8");
        reveal_strlit("9");
    }
    let r = if d == 0 {
        "0"
    } else if d == 1 {
        "1"
    } else if d == 2 {
        "2"
    } else if d == 3 {
        "3"
    } else if d == 4 {
        "4"
    } else if d == 5 {
        "5"
    } else if d == 6 {
        "6"
    } else if d == 7 {
        "7"
    } else if d == 8 {
        "8"
    } else {
        "9"
    };
    assert(r@ =~= seq![digit_char(d as int)]);
    r
}

fn append_digits(m: u64, out: &mut String)
    ensures
        final(out)@ == old(out)@ + nat_digits(m as nat),
    decreases m,
{
    if m >= 10 {
        append_digits(m / 10, out);
    }
    out.append(digit_text(m % 10));
    proof {
        if m >= 10 {
            assert(old(out)@ + nat_digits(m as nat) =~= (old(out)@ + nat_digits((m / 10) as nat))
                + seq![digit_char((m % 10) as int)]);
        } else {
            assert(nat_digits(m as nat) == seq![digit_char(m as int)]);
        }
    }
}

/// Writes `n` in decimal, as `n.to_string()` does.
pub fn decimal_string(n: i64) -> (r: String)
    ensures
        r@ == decimal_text(n as int),
{
    let mut out = String::new();
    if n < 0 {
        out.append("-");
        proof {
            reveal_strlit("-");
        }
        let m: u64 = ((-(n + 1)) as u64) + 1;
        append_digits(m, &mut out);
    } else {
        append_digits(n as u64, &mut out);
    }
    out
}

proof fn lemma_digit_char(d: int)
    requires
        0 <= d < 10,
    ensures
        is_digit(digit_char(d)),
        digit_value(digit_char(d)) == d,
        digit_char(d) != '+' && digit_char(d) != '-',
{
}

proof fn lemma_nat_digits_shape(m: nat)
    ensures
        nat_digits(m).len() >= 1,
        is_digit(nat_digits(m)[0]),
    decreases m,
{
    if m < 10 {
        lemma_digit_char(m as int);
    } else {
        lemma_nat_digits_shape(m / 10);
    }
}

proof fn lemma_read_nat_digits(m: nat, negative: bool)
    requires
        negative ==> m <= 0x8000_0000,
        !negative ==> m <= 0x7fff_ffff,
    ensures
        read_digits(nat_digits(m), negative) == Ok::<int, NumberError>(
            if negative { -(m as int) } else { m as int },
        ),
    decreases m,
{
    let s = nat_digits(m);
    if m < 10 {
        lemma_digit_char(m as int);
        assert(s.drop_last() =~= Seq::<char>::empty());
        assert(read_digits(s.drop_last(), negative) == Ok::<int, NumberError>(0));
    } else {
        let q = m / 10;
        let r = m % 10;
        assert(m == q * 10 + r && 0 <= r < 10 && q <= m) by (nonlinear_arith)
            requires
                q == m / 10,
                r == m % 10,
        ;
        lemma_read_nat_digits(q, negative);
        lemma_digit_char(r as int);
        assert(s.drop_last() =~= nat_digits(q));
        assert(s.last() == digit_char(r as int));
        if negative {
            assert(-(q as int) * 10 - r == -(m as int));
        }
    }
}

/// Reading back what `decimal_string` writes gives the number again, for
/// every `i32`.
pub proof fn decimal_text_reads_back(n: i32)
    ensures
        parsed_i32(decimal_text(n as int)) == Ok::<i32, NumberError>(n),
{
    let s = decimal_text(n as int);
    if n < 0 {
        let m = (-(n as int)) as nat;
        lemma_read_nat_digits(m, true);
        lemma_nat_digits_shape(m);
        assert(s.drop_first() =~= nat_digits(m));
    } else {
        lemma_read_nat_digits(n as nat, false);
        lemma_nat_digits_shape(n as nat);
        lemma_digit_char(0);
        let c = s[0];
        assert(is_digit(c));
    }
}

/// A leading `+` changes nothing: `+<digits>` reads as `<digits>` does.
pub proof fn plus_sign_changes_nothing(s: Seq<char>)
    requires
        s.len() >= 1,
        is_digit(s[0]),
    ensures
        parsed_i32(seq!['+'] + s) == parsed_i32(s),
{
    let t = seq!['+'] + s;
    assert(t.drop_first() =~= s);
}

/// The number that a text of digits denotes, with no range limit.
pub open spec fn digits_value(s: Seq<char>) -> int
    decreases s.len(),
{
    if s.len() == 0 {
        0
    } else {
        digits_value(s.drop_last()) * 10 + digit_value(s.last())
    }
}

pub open spec fn all_digits(s: Seq<char>) -> bool {
    forall|i: int| 0 <= i < s.len() ==> is_digit(#[trigger] s[i])
}

proof fn lemma_digits_value_nonneg(s: Seq<char>)
    requires
        all_digits(s),
    ensures
        digits_value(s) >= 0,
        s.len() > 0 ==> digits_value(s) >= digits_value(s.drop_last()),
    decreases s.len(),
{
    if s.len() > 0 {
        lemma_all_digits_drop_last(s);
        lemma_digits_value_nonneg(s.drop_last());
        assert(is_digit(s[s.len() - 1]));
    }
}

proof fn lemma_all_digits_drop_last(s: Seq<char>)
    requires
        all_digits(s),
        s.len() > 0,
    ensures
        all_digits(s.drop_last()),
{
    assert forall|i: int| 0 <= i < s.drop_last().len() implies is_digit(#[trigger] s.drop_last()[i]) by {
        assert(s.drop_last()[i] == s[i]);
    }
}

proof fn lemma_read_all_digits(s: Seq<char>, negative: bool)
    requires
        all_digits(s),
    ensures
        !negative && digits_value(s) <= i32::MAX ==> read_digits(s, negative) == Ok::<
            int,
            NumberError,
        >(digits_value(s)),
        !negative && digits_value(s) > i32::MAX ==> read_digits(s, negative) == Err::<
            int,
            NumberError,
        >(NumberError::PosOverflow),
        negative && -digits_value(s) >= i32::MIN ==> read_digits(s, negative) == Ok::<
            int,
            NumberError,
        >(-digits_value(s)),
        negative && -digits_value(s) < i32::MIN ==> read_digits(s, negative) == Err::<
            int,
            NumberError,
        >(NumberError::NegOverflow),
    decreases s.len(),
{
    if s.len() > 0 {
        lemma_all_digits_drop_last(s);
        lemma_read_all_digits(s.drop_last(), negative);
        lemma_digits_value_nonneg(s);
        lemma_digits_value_nonneg(s.drop_last());
        assert(is_digit(s[s.len() - 1]));
        let p = digits_value(s.drop_last());
        let d = digit_value(s.last());
        assert(0 <= d <= 9);
        if p > i32::MAX {
            assert(p * 10 + d > i32::MAX) by (nonlinear_arith)
                requires
                    p > i32::MAX,
                    0 <= d,
            ;
        }
    }
}

/// A text of digits (with an optional sign) reads as the number it denotes
/// when that number is an `i32`, and as an overflow of the right kind when it
/// is not, however long the text is.
pub proof fn digits_read_as_their_value(s: Seq<char>)
    requires
        s.len() > 0,
        all_digits(s),
    ensures
        digits_value(s) <= i32::MAX ==> parsed_i32(s) == Ok::<i32, NumberError>(
            digits_value(s) as i32,
        ),
        digits_value(s) > i32::MAX ==> parsed_i32(s) == Err::<i32, NumberError>(
            NumberError::PosOverflow,
        ),
        digits_value(s) <= i32::MAX ==> parsed_i32(seq!['+'] + s) == Ok::<i32, NumberError>(
            digits_value(s) as i32,
        ),
        -digits_value(s) >= i32::MIN ==> parsed_i32(seq!['-'] + s) == Ok::<i32, NumberError>(
            (-digits_value(s)) as i32,
        ),
        -digits_value(s) < i32::MIN ==> parsed_i32(seq!['-'] + s) == Err::<i32, NumberError>(
            NumberError::NegOverflow,
        ),
{
    assert(is_digit(s[0]));
    lemma_read_all_digits(s, false);
    lemma_read_all_digits(s, true);
    assert((seq!['+'] + s).drop_first() =~= s);
    assert((seq!['-'] + s).drop_first() =~= s);
}

proof fn lemma_read_non_digit(s: Seq<char>, negative: bool, i: int)
    requires
        0 <= i < s.len(),
        !is_digit(s[i]),
    ensures
        read_digits(s, negative) is Err,
    decreases s.len(),
{
    if i < s.len() - 1 {
        assert(s.drop_last()[i] == s[i]);
        lemma_read_non_digit(s.drop_last(), negative, i);
    }
}

/// A text with a character that is not a digit, after an optional leading
/// sign, never reads as a number.
pub proof fn a_non_digit_never_reads(s: Seq<char>, i: int)
    requires
        0 <= i < s.len(),
        !is_digit(s[i]),
        !(i == 0 && (s[0] == '+' || s[0] == '-') && s.len() > 1),
    ensures
        parsed_i32(s) is Err,
{
    if s.len() > 1 && (s[0] == '+' || s[0] == '-') {
        assert(s.drop_first()[i - 1] == s[i]);
        lemma_read_non_digit(s.drop_first(), s[0] == '-', i - 1);
    } else if s.len() > 0 && !(s[0] == '+' || s[0] == '-') {
        lemma_read_non_digit(s, false, i);
    }
}

/// A leading zero changes nothing: `0<digits>` reads as `<digits>` does.
pub proof fn a_leading_zero_changes_nothing(s: Seq<char>)
    requires
        s.len() >= 1,
        is_digit(s[0]),
    ensures
        parsed_i32(seq!['0'] + s) == parsed_i32(s),
{
    lemma_read_leading_zero(s, false);
}

proof fn lemma_read_leading_zero(s: Seq<char>, negative: bool)
    ensures
        read_digits(seq!['0'] + s, negative) == read_digits(s, negative),
    decreases s.len(),
{
    let t = seq!['0'] + s;
    if s.len() == 0 {
        assert(t.drop_last() =~= Seq::<char>::empty());
        assert(read_digits(t.drop_last(), negative) == Ok::<int, NumberError>(0));
    } else {
        assert(t.drop_last() =~= seq!['0'] + s.drop_last());
        lemma_read_leading_zero(s.drop_last(), negative);
    }
}

/// `decimal_string` writes only digits (after a `-` for a negative number),
/// with no leading zero, and those digits denote the number: for every
/// integer, not only the `i32` ones.
pub proof fn printed_digits_denote_the_number(m: nat)
    ensures
        nat_digits(m).len() >= 1,
        all_digits(nat_digits(m)),
        digits_value(nat_digits(m)) == m,
        m > 0 ==> nat_digits(m)[0] != '0',
    decreases m,
{
    let s = nat_digits(m);
    if m < 10 {
        lemma_digit_char(m as int);
        assert(s.drop_last() =~= Seq::<char>::empty());
        assert(digits_value(s.drop_last()) == 0);
        if m > 0 {
            assert(digit_value(s[0]) == m);
        }
    } else {
        let q = m / 10;
        let r = m % 10;
        assert(m == q * 10 + r && 0 <= r < 10 && q <= m && q > 0) by (nonlinear_arith)
            requires
                q == m / 10,
                r == m % 10,
                m >= 10,
        ;
        printed_digits_denote_the_number(q);
        lemma_digit_char(r as int);
        assert(s.drop_last() =~= nat_digits(q));
        assert forall|i: int| 0 <= i < s.len() implies is_digit(#[trigger] s[i]) by {
            if i < s.len() - 1 {
                assert(s[i] == nat_digits(q)[i]);
            }
        }
        assert(s[0] == nat_digits(q)[0]);
    }
}

} // verus!
