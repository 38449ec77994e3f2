//! Text as sequences of characters: building strings, writing numbers and reading them back.

use vstd::prelude::*;

verus! {

/// `String::push`: appends one character to the end of the string.
pub assume_specification[ String::push ](s: &mut String, c: char)
    ensures
        final(s)@ == old(s)@.push(c),
;

/// The characters of `s`, in order.
pub fn chars_of(s: &str) -> (chars: Vec<char>)
    ensures
        chars@ == s@,
{
    let mut chars: Vec<char> = Vec::new();
    for c in it: s.chars()
        invariant
            chars@ == s@.take(it.index() as int),
            it.seq() == s@,
    {
        chars.push(c);
    }
    chars
}

/// Whether two strings spell the same characters.
pub fn same_text(a: &str, b: &str) -> (same: bool)
    ensures
        same == (a@ == b@),
{
    let left = chars_of(a);
    let right = chars_of(b);
    if left.len() != right.len() {
        return false;
    }
    let mut i: usize = 0;
    while i < left.len()
        invariant
            left@ == a@,
            right@ == b@,
            left@.len() == right@.len(),
            i <= left@.len(),
            forall|j: int| 0 <= j < i ==> left@[j] == right@[j],
        decreases left@.len() - i,
    {
        if left[i] != right[i] {
            return false;
        }
        i += 1;
    }
    assert(a@ =~= b@);
    true
}

/// The character that stands for a digit below sixteen, in lower case.
pub open spec fn digit_char(d: int) -> char {
    if d < 10 {
        (d + 48) as char
    } else {
        (d + 87) as char
    }
}

/// `n` in base ten, without leading zeros.
pub open spec fn decimal(n: nat) -> Seq<char>
    decreases n,
{
    if n < 10 {
        seq![digit_char(n as int)]
    } else {
        decimal(n / 10).push(digit_char((n % 10) as int))
    }
}

/// `count` zeros.
pub open spec fn zeros(count: int) -> Seq<char> {
    Seq::new(if count > 0 { count as nat } else { 0 }, |i: int| '0')
}

/// `n` in base ten, filled up with zeros on the left to at least `width` characters.
pub open spec fn padded(n: nat, width: int) -> Seq<char> {
    zeros(width - decimal(n).len()) + decimal(n)
}

/// A byte as two hexadecimal digits.
pub open spec fn hex_byte(b: u8) -> Seq<char> {
    seq![digit_char((b / 16) as int), digit_char((b % 16) as int)]
}

fn digit(d: u8) -> (c: char)
    requires
        d < 16,
    ensures
        c == digit_char(d as int),
{
    if d < 10 {
        (d + 48) as char
    } else {
        (d + 87) as char
    }
}

/// Appends `n` in base ten.
pub fn push_decimal(out: &mut String, n: u128)
    ensures
        final(out)@ == old(out)@ + decimal(n as nat),
    decreases n,
{
    if n >= 10 {
        push_decimal(out, n / 10);
    }
    out.push(digit((n % 10) as u8));
}

/// How many digits `n` has in base ten.
fn decimal_len(n: u128) -> (len: u128)
    ensures
        len == decimal(n as nat).len(),
        1 <= len <= n + 1,
    decreases n,
{
    if n < 10 {
        1
    } else {
        decimal_len(n / 10) + 1
    }
}

/// Appends `n` in base ten, with zeros on the left up to `width` characters.
pub fn push_padded(out: &mut String, n: u128, width: u8)
    ensures
        final(out)@ == old(out)@ + padded(n as nat, width as int),
{
    let len = decimal_len(n);
    let mut filled: u128 = len;
    while filled < width as u128
        invariant
            len == decimal(n as nat).len(),
            filled >= len,
            filled == len || filled <= width,
            out@ == old(out)@ + zeros(filled - len),
        decreases width - filled,
    {
        out.push('0');
        filled += 1;
    }
    assert(zeros(filled - len) == zeros(width - decimal(n as nat).len()));
    push_decimal(out, n);
    assert(out@ =~= old(out)@ + padded(n as nat, width as int));
}

/// A number that fits into the width is filled up to exactly the width (for the widths two and
/// four).
pub proof fn lemma_padded_width(n: nat, width: int)
    requires
        width == 2 && n <= 99 || width == 4 && n <= 9999,
    ensures
        padded(n, width).len() == width,
{
    reveal_with_fuel(decimal, 5);
}

/// Appends a byte as two hexadecimal digits.
pub fn push_hex_byte(out: &mut String, b: u8)
    ensures
        final(out)@ == old(out)@ + hex_byte(b),
{
    out.push(digit(b / 16));
    out.push(digit(b % 16));
    assert(out@ =~= old(out)@ + hex_byte(b));
}

/// Why a piece of text is not a number.
#[derive(Debug, Clone, Copy, PartialEq, Eq, Structural)]
pub enum ParseFailure {
    /// There is nothing to read.
    Empty,
    /// A character is not a digit of the base.
    InvalidDigit,
    /// The value does not fit.
    TooLarge,
}

/// The value of a digit, where it is one in the given base (at most sixteen).
pub open spec fn digit_value(c: char, radix: nat) -> Option<nat> {
    let v = if '0' <= c <= '9' {
        c as int - 48
    } else if 'a' <= c <= 'f' {
        c as int - 87
    } else if 'A' <= c <= 'F' {
        c as int - 55
    } else {
        16
    };
    if v < radix {
        Some(v as nat)
    } else {
        None
    }
}

/// The value of a run of digits read from the left; the first offending character decides the
/// failure.
pub open spec fn digits_value(s: Seq<char>, radix: nat, max: nat) -> Result<nat, ParseFailure>
    decreases s.len(),
{
    if s.len() == 0 {
        Ok(0)
    } else {
        match digits_value(s.drop_last(), radix, max) {
            Err(failure) => Err(failure),
            Ok(v) => match digit_value(s.last(), radix) {
                None => Err(ParseFailure::InvalidDigit),
                Some(d) => if v * radix + d > max {
                    Err(ParseFailure::TooLarge)
                } else {
                    Ok(v * radix + d)
                },
            },
        }
    }
}

/// What a text says as an unsigned number of at most `max`: one or more digits, after at most
/// one plus sign.
pub open spec fn unsigned_value(s: Seq<char>, radix: nat, max: nat) -> Result<nat, ParseFailure> {
    if s.len() == 0 {
        Err(ParseFailure::Empty)
    } else if s[0] == '+' {
        if s.len() == 1 {
            Err(ParseFailure::InvalidDigit)
        } else {
            digits_value(s.skip(1), radix, max)
        }
    } else {
        digits_value(s, radix, max)
    }
}

fn read_digit(c: char, radix: u8) -> (value: Option<u8>)
    requires
        radix <= 16,
    ensures
        match value {
            Some(d) => digit_value(c, radix as nat) == Some(d as nat) && d < radix,
            None => digit_value(c, radix as nat) is None,
        },
{
    let code = c as u32;
    let v: u8 = if '0' <= c && c <= '9' {
        (code - 48) as u8
    } else if 'a' <= c && c <= 'f' {
        (code - 87) as u8
    } else if 'A' <= c && c <= 'F' {
        (code - 55) as u8
    } else {
        16
    };
    if v < radix {
        Some(v)
    } else {
        None
    }
}

fn parse_digits(s: &[char], radix: u8, max: u64) -> (value: Result<u64, ParseFailure>)
    requires
        2 <= radix <= 16,
    ensures
        match value {
            Ok(v) => digits_value(s@, radix as nat, max as nat) == Ok::<nat, ParseFailure>(v as nat) && v <= max,
            Err(f) => digits_value(s@, radix as nat, max as nat) == Err::<nat, ParseFailure>(f),
        },
{
    let mut v: u64 = 0;
    let mut i: usize = 0;
    while i < s.len()
        invariant
            2 <= radix <= 16,
            i <= s@.len(),
            v <= max,
            digits_value(s@.take(i as int), radix as nat, max as nat) == Ok::<nat, ParseFailure>(v as nat),
        decreases s@.len() - i,
    {
        let ghost before = s@.take(i as int);
        let ghost after = s@.take(i + 1);
        assert(after.drop_last() =~= before);
        assert(after.last() == s@[i as int]);
        match read_digit(s[i], radix) {
            None => {
                proof {
                    lemma_failure_stays(s@, i + 1, radix as nat, max as nat);
                }
                return Err(ParseFailure::InvalidDigit);
            },
            Some(d) => {
                assert(v * radix + d <= 0x1_0000_0000_0000_0000 * 17) by (nonlinear_arith)
                    requires
                        v <= max,
                        radix <= 16,
                        d < radix,
                ;
                let next: u128 = v as u128 * radix as u128 + d as u128;
                if next > max as u128 {
                    proof {
                        lemma_failure_stays(s@, i + 1, radix as nat, max as nat);
                    }
                    return Err(ParseFailure::TooLarge);
                }
                v = next as u64;
            },
        }
        i += 1;
    }
    assert(s@.take(i as int) =~= s@);
    Ok(v)
}

proof fn lemma_failure_stays(s: Seq<char>, n: int, radix: nat, max: nat)
    requires
        0 <= n <= s.len(),
        digits_value(s.take(n), radix, max) is Err,
    ensures
        digits_value(s, radix, max) == digits_value(s.take(n), radix, max),
    decreases s.len() - n,
{
    if n == s.len() {
        assert(s.take(n) =~= s);
    } else {
        assert(s.take(n + 1).drop_last() =~= s.take(n));
        lemma_failure_stays(s, n + 1, radix, max);
    }
}

/// Reads an unsigned number of at most `max`, with an optional plus sign in front.
pub fn parse_unsigned(s: &[char], radix: u8, max: u64) -> (value: Result<u64, ParseFailure>)
    requires
        2 <= radix <= 16,
    ensures
        match value {
            Ok(v) => unsigned_value(s@, radix as nat, max as nat) == Ok::<nat, ParseFailure>(v as nat) && v <= max,
            Err(f) => unsigned_value(s@, radix as nat, max as nat) == Err::<nat, ParseFailure>(f),
        },
{
    if s.len() == 0 {
        Err(ParseFailure::Empty)
    } else if s[0] == '+' {
        if s.len() == 1 {
            Err(ParseFailure::InvalidDigit)
        } else {
            let rest = vstd::slice::slice_subrange(s, 1, s.len());
            assert(rest@ =~= s@.skip(1));
            parse_digits(rest, radix, max)
        }
    } else {
        parse_digits(s, radix, max)
    }
}

/// What a character is worth as a digit: '0' to '9' are 0 to 9, 'a' to 'f' and 'A' to 'F' are 10 to
/// 15. A base admits the digits below it and no other character.
pub proof fn law_digit_values(c: char, radix: nat, v: nat)
    requires
        radix <= 16,
    ensures
        digit_value(c, radix) == Some(v) <==> v < radix && (c as int == '0' as int + v && v < 10
            || c as int == 'a' as int + (v - 10) && v >= 10 || c as int == 'A' as int + (v - 10)
            && v >= 10),
{
}

/// A run of digits has its value by place: it is the value of its first part, moved up by as many
/// places as the second part has, and that of the second part.
pub proof fn law_digits_by_place(a: Seq<char>, b: Seq<char>, radix: nat, max: nat, x: nat, y: nat)
    requires
        0 < radix <= 16,
        digits_value(a, radix, max) == Ok::<nat, ParseFailure>(x),
        digits_value(b, radix, max) == Ok::<nat, ParseFailure>(y),
    ensures
        ({
            let whole = x * vstd::arithmetic::power::pow(radix as int, b.len()) + y;
            &&& whole <= max ==> digits_value(a + b, radix, max) == Ok::<nat, ParseFailure>(
                whole as nat,
            )
            &&& whole > max ==> digits_value(a + b, radix, max) == Err::<nat, ParseFailure>(
                ParseFailure::TooLarge,
            )
        }),
    decreases b.len(),
{
    reveal(vstd::arithmetic::power::pow);
    let r = radix as int;
    if b.len() == 0 {
        assert(a + b =~= a);
        lemma_value_fits(a, radix, max);
        let one = vstd::arithmetic::power::pow(r, 0);
        assert(x * one == x) by (nonlinear_arith)
            requires
                one == 1,
        ;
    } else {
        let front = b.drop_last();
        let d = digit_value(b.last(), radix)->0;
        let z = digits_value(front, radix, max)->Ok_0;
        law_digits_by_place(a, front, radix, max, x, z);
        assert((a + b).drop_last() =~= a + front);
        let p = vstd::arithmetic::power::pow(r, front.len());
        let q = vstd::arithmetic::power::pow(r, b.len());
        vstd::arithmetic::power::lemma_pow_positive(r, front.len());
        let low = x * p + z;
        assert(x * q + (z * r + d) == low * r + d) by (nonlinear_arith)
            requires
                q == r * p,
                low == x * p + z,
        ;
        assert(low >= 0) by (nonlinear_arith)
            requires
                low == x * p + z,
                x >= 0,
                p >= 0,
                z >= 0,
        ;
        assert(low > max ==> low * r + d > max) by (nonlinear_arith)
            requires
                low >= 0,
                r >= 1,
                d >= 0,
                max >= 0,
        ;
    }
}

/// Zeros in front of a number, and one plus sign in front of that, make no difference.
pub proof fn law_leading_zeros_and_plus(s: Seq<char>, radix: nat, max: nat)
    requires
        0 < radix <= 16,
        s.len() > 0,
        s[0] != '+',
    ensures
        unsigned_value(seq!['0'] + s, radix, max) == unsigned_value(s, radix, max),
        unsigned_value(seq!['+'] + s, radix, max) == unsigned_value(s, radix, max),
{
    assert((seq!['+'] + s).skip(1) =~= s);
    assert((seq!['0'] + s)[0] == '0');
    lemma_leading_zero(s, radix, max);
}

proof fn lemma_leading_zero(s: Seq<char>, radix: nat, max: nat)
    requires
        0 < radix <= 16,
    ensures
        digits_value(seq!['0'] + s, radix, max) == digits_value(s, radix, max),
    decreases s.len(),
{
    reveal_with_fuel(digits_value, 2);
    if s.len() == 0 {
        assert((seq!['0'] + s).drop_last() =~= Seq::<char>::empty());
        assert((seq!['0'] + s).last() == '0');
        assert(0 * radix == 0) by (nonlinear_arith);
    } else {
        lemma_leading_zero(s.drop_last(), radix, max);
        assert((seq!['0'] + s).drop_last() =~= seq!['0'] + s.drop_last());
        assert((seq!['0'] + s).last() == s.last());
    }
}

proof fn lemma_value_fits(s: Seq<char>, radix: nat, max: nat)
    ensures
        digits_value(s, radix, max) is Ok ==> digits_value(s, radix, max)->Ok_0 <= max,
{
}

/// A number that was read is no larger than it may be.
pub proof fn lemma_unsigned_fits(s: Seq<char>, radix: nat, max: nat)
    ensures
        unsigned_value(s, radix, max) is Ok ==> unsigned_value(s, radix, max)->Ok_0 <= max,
{
    lemma_value_fits(s, radix, max);
    lemma_value_fits(s.skip(1), radix, max);
}

/// The digits of a number in base ten are those of its place values, with the highest first and no
/// zero in front.
pub proof fn law_decimal_by_place(n: nat, i: nat)
    ensures
        ({
            let s = decimal(n);
            &&& s.len() > 0
            &&& n > 0 ==> s[0] != '0'
            &&& i < s.len() ==> s[s.len() - 1 - i] as int == '0' as int + n as int
                / vstd::arithmetic::power::pow(10, i) % 10
            &&& i >= s.len() ==> n < vstd::arithmetic::power::pow(10, i)
        }),
    decreases n,
{
    reveal(vstd::arithmetic::power::pow);
    let s = decimal(n);
    if n >= 10 {
        law_decimal_by_place(n / 10, 0);
        if i > 0 {
            let j = (i - 1) as nat;
            law_decimal_by_place(n / 10, j);
            let p = vstd::arithmetic::power::pow(10, j);
            vstd::arithmetic::power::lemma_pow_positive(10, j);
            assert(vstd::arithmetic::power::pow(10, i) == 10 * p);
            vstd::arithmetic::div_mod::lemma_div_denominator(n as int, 10, p);
            assert(n as int / 10 < p ==> n < 10 * p);
        } else {
            assert(n as int / 1 == n);
        }
    } else if i == 0 {
        assert(n as int / 1 == n);
    } else {
        let j = (i - 1) as nat;
        let p = vstd::arithmetic::power::pow(10, j);
        vstd::arithmetic::power::lemma_pow_positive(10, j);
        assert(vstd::arithmetic::power::pow(10, i) == 10 * p);
    }
}

/// A byte is written as two digits, the higher first, in lower case.
pub proof fn law_hex_byte_by_place(b: u8)
    ensures
        ({
            let s = hex_byte(b);
            &&& s.len() == 2
            &&& digit_value(s[0], 16) is Some && digit_value(s[1], 16) is Some
            &&& digit_value(s[0], 16)->0 * 16 + digit_value(s[1], 16)->0 == b
            &&& !('A' <= s[0] <= 'F') && !('A' <= s[1] <= 'F')
            &&& unsigned_value(s, 16, 0xff) == Ok::<nat, ParseFailure>(b as nat)
        }),
{
    reveal_with_fuel(digits_value, 3);
    let s = hex_byte(b);
    assert(s.drop_last() =~= seq![s[0]]);
    assert(seq![s[0]].drop_last() =~= Seq::<char>::empty());
    assert(s[0] != '+');
}

/// Filling a number up with zeros makes it at least as long as the width, and no longer than the
/// number where that has the width already. It still reads as the number.
pub proof fn law_padded_reads_back(n: nat, width: int, max: nat)
    requires
        n <= max,
    ensures
        padded(n, width).len() >= width,
        width <= decimal(n).len() ==> padded(n, width) == decimal(n),
        width > decimal(n).len() ==> padded(n, width).len() == width,
        unsigned_value(padded(n, width), 10, max) == Ok::<nat, ParseFailure>(n),
    decreases width,
{
    let s = decimal(n);
    lemma_decimal_first(n);
    law_decimal_reads_back(n, max);
    if width <= s.len() {
        assert(padded(n, width) =~= s);
    } else {
        let shorter = padded(n, width - 1);
        law_padded_reads_back(n, width - 1, max);
        assert(padded(n, width) =~= seq!['0'] + shorter);
        assert(shorter[0] != '+') by {
            if width - 1 > s.len() {
                assert(shorter[0] == '0');
            } else {
                assert(shorter == s);
            }
        }
        law_leading_zeros_and_plus(shorter, 10, max);
    }
}

/// Two and four digits, by place.
pub proof fn lemma_padded_digits(n: nat)
    ensures
        n <= 99 ==> {
            let s = padded(n, 2);
            &&& s.len() == 2
            &&& (s[0] as int - '0' as int) * 10 + (s[1] as int - '0' as int) == n
            &&& '0' <= s[0] <= '9' && '0' <= s[1] <= '9'
        },
        n <= 9999 ==> {
            let s = padded(n, 4);
            &&& s.len() == 4
            &&& (s[0] as int - '0' as int) * 1000 + (s[1] as int - '0' as int) * 100 + (s[2] as int
                - '0' as int) * 10 + (s[3] as int - '0' as int) == n
        },
{
    reveal_with_fuel(decimal, 5);
}

/// A number that was written in base ten reads back as itself.
pub proof fn law_decimal_reads_back(n: nat, max: nat)
    requires
        n <= max,
    ensures
        unsigned_value(decimal(n), 10, max) == Ok::<nat, ParseFailure>(n),
{
    lemma_decimal_digits(n, max);
    lemma_decimal_first(n);
}

/// A number that was written in base ten and does not fit is too large, whatever the limit.
pub proof fn law_decimal_too_large(n: nat, max: nat)
    requires
        n > max,
    ensures
        unsigned_value(decimal(n), 10, max) == Err::<nat, ParseFailure>(ParseFailure::TooLarge),
{
    lemma_decimal_first(n);
    lemma_decimal_over(n, max);
}

proof fn lemma_decimal_over(n: nat, max: nat)
    requires
        n > max,
    ensures
        digits_value(decimal(n), 10, max) == Err::<nat, ParseFailure>(ParseFailure::TooLarge),
    decreases n,
{
    reveal_with_fuel(digits_value, 2);
    if n < 10 {
        assert(decimal(n).drop_last() =~= Seq::<char>::empty());
    } else {
        assert(decimal(n).drop_last() =~= decimal(n / 10));
        if n / 10 > max {
            lemma_decimal_over(n / 10, max);
        } else {
            lemma_decimal_digits(n / 10, max);
        }
    }
}

proof fn lemma_decimal_first(n: nat)
    ensures
        decimal(n).len() > 0,
        '0' <= decimal(n)[0] <= '9',
    decreases n,
{
    if n >= 10 {
        lemma_decimal_first(n / 10);
    }
}

proof fn lemma_decimal_digits(n: nat, max: nat)
    requires
        n <= max,
    ensures
        digits_value(decimal(n), 10, max) == Ok::<nat, ParseFailure>(n),
    decreases n,
{
    reveal_with_fuel(digits_value, 2);
    if n < 10 {
        assert(decimal(n).drop_last() =~= Seq::<char>::empty());
    } else {
        lemma_decimal_digits(n / 10, max);
        assert(decimal(n).drop_last() =~= decimal(n / 10));
    }
}

/// Where `c` first stands in `s`; the length of `s` where it does not.
pub open spec fn first_at(s: Seq<char>, c: char) -> int
    decreases s.len(),
{
    if s.len() == 0 || s[0] == c {
        0
    } else {
        1 + first_at(s.skip(1), c)
    }
}

/// A character that a text is split at is found behind the part that does not hold it.
pub proof fn law_first_at_splits(a: Seq<char>, c: char, b: Seq<char>)
    requires
        !a.contains(c),
    ensures
        first_at(a + seq![c] + b, c) == a.len(),
        (a + seq![c] + b).take(a.len() as int) == a,
        (a + seq![c] + b).skip(a.len() as int + 1) == b,
    decreases a.len(),
{
    let s = a + seq![c] + b;
    assert(s.take(a.len() as int) =~= a);
    assert(s.skip(a.len() as int + 1) =~= b);
    if a.len() > 0 {
        let rest = a.skip(1);
        assert(a.contains(a[0]));
        assert forall|i: int| 0 <= i < rest.len() implies rest[i] != c by {
            assert(a.contains(a[i + 1]));
        }
        law_first_at_splits(rest, c, b);
        assert(s.skip(1) =~= rest + seq![c] + b);
    }
}

/// A text that does not hold a character is searched to its end.
pub proof fn law_first_at_misses(s: Seq<char>, c: char)
    ensures
        first_at(s, c) == s.len() <==> !s.contains(c),
        0 <= first_at(s, c) <= s.len(),
    decreases s.len(),
{
    if s.len() > 0 {
        let rest = s.skip(1);
        law_first_at_misses(rest, c);
        if s[0] == c {
            assert(s.contains(c));
        } else if rest.contains(c) {
            let i = choose|i: int| 0 <= i < rest.len() && rest[i] == c;
            assert(s[i + 1] == c);
        } else if s.contains(c) {
            let i = choose|i: int| 0 <= i < s.len() && s[i] == c;
            assert(rest[i - 1] == c);
        }
    }
}

/// Where `c` first stands in `s` from `from` on; the length of `s` where it does not.
pub fn find_char(s: &[char], c: char, from: usize) -> (at: usize)
    requires
        from <= s@.len(),
    ensures
        from <= at <= s@.len(),
        at == from + first_at(s@.skip(from as int), c),
        forall|j: int| from <= j < at ==> s@[j] != c,
        at < s@.len() ==> s@[at as int] == c,
    decreases s@.len() - from,
{
    if from == s.len() || s[from] == c {
        from
    } else {
        assert(s@.skip(from as int).skip(1) =~= s@.skip(from + 1));
        find_char(s, c, from + 1)
    }
}

/// A character of Unicode's `White_Space` set.
pub open spec fn is_space(c: char) -> bool {
    let n = c as int;
    ||| 9 <= n <= 13
    ||| n == 0x20
    ||| n == 0x85
    ||| n == 0xa0
    ||| n == 0x1680
    ||| 0x2000 <= n <= 0x200a
    ||| n == 0x2028
    ||| n == 0x2029
    ||| n == 0x202f
    ||| n == 0x205f
    ||| n == 0x3000
}

/// The characters that count as white space, one by one.
pub proof fn law_white_space(c: char)
    ensures
        is_space(c) <==> c == '\t' || c == '\n' || c == '\u{b}' || c == '\u{c}' || c == '\r' || c
            == ' ' || c == '\u{85}' || c == '\u{a0}' || c == '\u{1680}' || '\u{2000}' <= c
            <= '\u{200a}' || c == '\u{2028}' || c == '\u{2029}' || c == '\u{202f}' || c
            == '\u{205f}' || c == '\u{3000}',
{
}

/// `s` without the white space in front.
pub open spec fn trimmed_start(s: Seq<char>) -> Seq<char>
    decreases s.len(),
{
    if s.len() > 0 && is_space(s[0]) {
        trimmed_start(s.skip(1))
    } else {
        s
    }
}

/// `s` without the white space at its end.
pub open spec fn trimmed_end(s: Seq<char>) -> Seq<char>
    decreases s.len(),
{
    if s.len() > 0 && is_space(s.last()) {
        trimmed_end(s.drop_last())
    } else {
        s
    }
}

/// `s` without the white space around it.
pub open spec fn trimmed(s: Seq<char>) -> Seq<char> {
    trimmed_end(trimmed_start(s))
}

/// Trimming takes white space away at both ends, all of it, and nothing else.
pub proof fn law_trimming_takes_the_ends(s: Seq<char>)
    ensures
        ({
            let inner = trimmed(s);
            &&& exists|at: int|
                0 <= at && at + inner.len() <= s.len() && #[trigger] s.subrange(
                    at,
                    at + inner.len(),
                ) == inner && (forall|j: int| 0 <= j < at ==> is_space(#[trigger] s[j])) && forall|
                    j: int,
                |
                    at + inner.len() <= j < s.len() ==> is_space(#[trigger] s[j])
            &&& inner.len() > 0 ==> !is_space(inner[0]) && !is_space(inner.last())
        }),
{
    lemma_trimmed_start(s);
    let rest = trimmed_start(s);
    lemma_trimmed_end(rest);
    let inner = trimmed(s);
    let at = s.len() - rest.len();
    assert(s.subrange(at, at + inner.len()) =~= inner) by {
        assert forall|j: int| 0 <= j < inner.len() implies s[at + j] == inner[j] by {
            assert(rest[j] == s.skip(at)[j]);
            assert(inner[j] == rest.take(inner.len() as int)[j]);
        }
    }
    assert forall|j: int| at + inner.len() <= j < s.len() implies is_space(#[trigger] s[j]) by {
        assert(rest[j - at] == s.skip(at)[j - at]);
    }
    if inner.len() > 0 {
        assert(inner[0] == rest.take(inner.len() as int)[0]);
    }
}

proof fn lemma_trimmed_start(s: Seq<char>)
    ensures
        ({
            let rest = trimmed_start(s);
            &&& rest.len() <= s.len()
            &&& rest == s.skip(s.len() - rest.len())
            &&& forall|j: int| 0 <= j < s.len() - rest.len() ==> is_space(#[trigger] s[j])
            &&& rest.len() > 0 ==> !is_space(rest[0])
        }),
    decreases s.len(),
{
    if s.len() > 0 && is_space(s[0]) {
        let tail = s.skip(1);
        lemma_trimmed_start(tail);
        let rest = trimmed_start(s);
        assert(s.skip(s.len() - rest.len()) =~= tail.skip(tail.len() - rest.len()));
        assert forall|j: int| 0 <= j < s.len() - rest.len() implies is_space(#[trigger] s[j]) by {
            if j > 0 {
                assert(tail[j - 1] == s[j]);
            }
        }
    } else {
        assert(s.skip(0) =~= s);
    }
}

proof fn lemma_trimmed_end(s: Seq<char>)
    ensures
        ({
            let rest = trimmed_end(s);
            &&& rest.len() <= s.len()
            &&& rest == s.take(rest.len() as int)
            &&& forall|j: int| rest.len() <= j < s.len() ==> is_space(#[trigger] s[j])
            &&& rest.len() > 0 ==> !is_space(rest.last())
        }),
    decreases s.len(),
{
    if s.len() > 0 && is_space(s.last()) {
        let front = s.drop_last();
        lemma_trimmed_end(front);
        let rest = trimmed_end(s);
        assert(s.take(rest.len() as int) =~= front.take(rest.len() as int));
        assert forall|j: int| rest.len() <= j < s.len() implies is_space(#[trigger] s[j]) by {
            if j < s.len() - 1 {
                assert(front[j] == s[j]);
            }
        }
    } else {
        assert(s.take(s.len() as int) =~= s);
    }
}

fn is_white_space(c: char) -> (yes: bool)
    ensures
        yes == is_space(c),
{
    let n = c as u32;
    (9 <= n && n <= 13) || n == 0x20 || n == 0x85 || n == 0xa0 || n == 0x1680 || (0x2000 <= n && n
        <= 0x200a) || n == 0x2028 || n == 0x2029 || n == 0x202f || n == 0x205f || n == 0x3000
}

/// Drops the white space around `s`.
pub fn trim(s: &[char]) -> (inner: &[char])
    ensures
        inner@ == trimmed(s@),
{
    let mut start: usize = 0;
    let mut end: usize = s.len();
    assert(s@.skip(0) =~= s@);
    while start < end && is_white_space(s[start])
        invariant
            start <= end == s@.len(),
            trimmed_start(s@) == trimmed_start(s@.skip(start as int)),
        decreases end - start,
    {
        assert(s@.skip(start as int).skip(1) =~= s@.skip(start + 1));
        start += 1;
    }
    assert(s@.skip(start as int) =~= s@.subrange(start as int, end as int));
    while start < end && is_white_space(s[end - 1])
        invariant
            start <= end <= s@.len(),
            trimmed(s@) == trimmed_end(s@.subrange(start as int, end as int)),
        decreases end - start,
    {
        assert(s@.subrange(start as int, end as int).drop_last() =~= s@.subrange(
            start as int,
            end - 1,
        ));
        end -= 1;
    }
    vstd::slice::slice_subrange(s, start, end)
}

/// Appends a string.
pub fn push_text(out: &mut String, s: &str)
    ensures
        final(out)@ == old(out)@ + s@,
{
    let chars = chars_of(s);
    push_chars(out, chars.as_slice());
}

/// Appends characters.
pub fn push_chars(out: &mut String, chars: &[char])
    ensures
        final(out)@ == old(out)@ + chars@,
{
    let mut i: usize = 0;
    while i < chars.len()
        invariant
            i <= chars@.len(),
            out@ == old(out)@ + chars@.take(i as int),
        decreases chars@.len() - i,
    {
        out.push(chars[i]);
        i += 1;
        assert(out@ =~= old(out)@ + chars@.take(i as int));
    }
    assert(chars@.take(i as int) =~= chars@);
}

} // verus!
