//! Integers in writing: reading them off a command line, and printing them
//! into a log line.

use vstd::prelude::*;

verus! {

/// The value of a letter or figure as a digit.
pub open spec fn digit_value(c: char) -> Option<int> {
    if '0' <= c <= '9' {
        Some(c as int - '0' as int)
    } else if 'a' <= c <= 'z' {
        Some(c as int - 'a' as int + 10)
    } else if 'A' <= c <= 'Z' {
        Some(c as int - 'A' as int + 10)
    } else {
        None
    }
}

/// Whether `c` is a digit in base `radix`.
pub open spec fn is_digit(c: char, radix: int) -> bool {
    digit_value(c) matches Some(d) && d < radix
}

/// Whether `s` is a digit or more, and nothing else.
pub open spec fn is_numeral(s: Seq<char>, radix: int) -> bool {
    &&& s.len() > 0
    &&& forall|i: int| 0 <= i < s.len() ==> is_digit(#[trigger] s[i], radix)
}

/// The number that the digits `s` write in base `radix`.
pub open spec fn numeral_value(s: Seq<char>, radix: int) -> int
    decreases s.len(),
{
    if s.len() == 0 {
        0
    } else {
        numeral_value(s.drop_last(), radix) * radix + digit_value(s.last())->0
    }
}

/// Whether `s` starts with a sign.
pub open spec fn is_signed(s: Seq<char>) -> bool {
    s.len() > 0 && (s[0] == '-' || s[0] == '+')
}

/// The integer that `s` writes in base `radix`: digits with one sign in front
/// or none, whose value 64 bits can hold.
pub open spec fn integer(s: Seq<char>, radix: int) -> Option<int> {
    let digits = if is_signed(s) { s.skip(1) } else { s };
    let magnitude = numeral_value(digits, radix);
    let value = if is_signed(s) && s[0] == '-' { -magnitude } else { magnitude };
    if is_numeral(digits, radix) && i64::MIN <= value <= i64::MAX {
        Some(value)
    } else {
        None
    }
}

/// Whether `s` starts with the mark of a hexadecimal number.
pub open spec fn has_hex_mark(s: Seq<char>) -> bool {
    s.len() >= 2 && s[0] == '0' && s[1] == 'x'
}

/// `s` without the marks of a hexadecimal number at its start, however often
/// it is repeated there.
pub open spec fn without_hex_mark(s: Seq<char>) -> Seq<char>
    decreases s.len(),
{
    if has_hex_mark(s) {
        without_hex_mark(s.skip(2))
    } else {
        s
    }
}

/// The integer that an argument writes: hexadecimal behind `0x`, else decimal.
pub open spec fn argument_value(s: Seq<char>) -> Option<int> {
    integer(without_hex_mark(s), if has_hex_mark(s) { 16 } else { 10 })
}

/// The figure or small letter that writes the digit `d`.
pub open spec fn digit_char(d: int) -> char {
    "0123456789abcdef"@[d]
}

/// The number `n` written in base `radix`, without needless zeroes.
pub open spec fn numeral(n: nat, radix: nat) -> Seq<char>
    decreases n,
{
    if radix < 2 || n < radix {
        seq![digit_char(n as int)]
    } else {
        proof {
            assert(n / radix < n) by (nonlinear_arith)
                requires
                    n >= radix >= 2,
            ;
        }
        numeral(n / radix, radix).push(digit_char((n % radix) as int))
    }
}

/// The number `n` written with exactly `width` hexadecimal digits.
pub open spec fn hex_digits(n: nat, width: nat) -> Seq<char>
    decreases width,
{
    if width == 0 {
        seq![]
    } else {
        hex_digits(n / 16, (width - 1) as nat).push(digit_char((n % 16) as int))
    }
}

/// The characters of `s`.
fn characters(s: &str) -> (chars: Vec<char>)
    ensures
        chars@ == s@,
{
    let mut chars: Vec<char> = Vec::new();
    for c in it: s.chars()
        invariant
            chars@ == it.seq().take(it.index()),
    {
        chars.push(c);
    }
    chars
}

/// The value of `c` as a digit in base `radix`.
fn digit(c: char, radix: u32) -> (value: Option<u32>)
    ensures
        value is Some <==> is_digit(c, radix as int),
        value matches Some(d) ==> digit_value(c) == Some(d as int),
{
    let code: u32 = c as u32;
    let d: u32 = if '0' as u32 <= code && code <= '9' as u32 {
        code - '0' as u32
    } else if 'a' as u32 <= code && code <= 'z' as u32 {
        code - 'a' as u32 + 10
    } else if 'A' as u32 <= code && code <= 'Z' as u32 {
        code - 'A' as u32 + 10
    } else {
        return None;
    };
    if d < radix {
        Some(d)
    } else {
        None
    }
}

/// Reads the integer that `s` writes in base `radix` from place `start` on.
fn read_integer(s: &Vec<char>, start: usize, radix: u32) -> (value: Option<i64>)
    requires
        start <= s.len(),
        2 <= radix <= 36,
    ensures
        value is Some <==> integer(s@.skip(start as int), radix as int) is Some,
        value matches Some(v) ==> integer(s@.skip(start as int), radix as int) == Some(v as int),
{
    let ghost text = s@.skip(start as int);
    let negative: bool = start < s.len() && s[start] == '-';
    let first: usize = if start < s.len() && (s[start] == '-' || s[start] == '+') {
        start + 1
    } else {
        start
    };
    let ghost digits = s@.skip(first as int);
    assert(digits == if is_signed(text) { text.skip(1) } else { text });
    if first == s.len() {
        return None;
    }
    let limit: u128 = 0x8000_0000_0000_0000;
    let mut magnitude: u128 = 0;
    let mut too_large: bool = false;
    let mut i: usize = first;
    while i < s.len()
        invariant
            first <= i <= s.len(),
            2 <= radix <= 36,
            limit == 0x8000_0000_0000_0000,
            text == s@.skip(start as int),
            digits == s@.skip(first as int),
            digits == if is_signed(text) { text.skip(1) } else { text },
            forall|j: int| 0 <= j < i - first ==> is_digit(#[trigger] digits[j], radix as int),
            !too_large ==> magnitude == numeral_value(digits.take(i - first), radix as int),
            too_large ==> numeral_value(digits.take(i - first), radix as int) > limit,
            magnitude <= limit,
        decreases s.len() - i,
    {
        let c: char = s[i];
        assert(digits[i - first] == c);
        let d: u32 = match digit(c, radix) {
            Some(d) => d,
            None => {
                assert(!is_digit(digits[i - first], radix as int));
                return None;
            },
        };
        let ghost before = numeral_value(digits.take(i - first), radix as int);
        proof {
            let next = digits.take(i + 1 - first);
            assert(next.drop_last() =~= digits.take(i - first));
            assert(next.last() == c);
            assert(before >= 0 ==> before * radix >= before) by (nonlinear_arith)
                requires
                    radix >= 2,
            ;
            assert(magnitude * radix <= limit * 36) by (nonlinear_arith)
                requires
                    magnitude <= limit,
                    radix <= 36,
            ;
        }
        if !too_large {
            let next: u128 = magnitude * radix as u128 + d as u128;
            if next > limit {
                too_large = true;
            } else {
                magnitude = next;
            }
        }
        i = i + 1;
    }
    assert(digits.take(i - first) =~= digits);
    if too_large || (!negative && magnitude == limit) {
        None
    } else if negative {
        Some((0 - magnitude as i128) as i64)
    } else {
        Some(magnitude as i64)
    }
}

/// Reads the integer that an argument writes: hexadecimal behind `0x`, else
/// decimal. A sign may stand before the digits.
pub fn read_argument(s: &str) -> (value: Option<i64>)
    ensures
        value is Some <==> argument_value(s@) is Some,
        value matches Some(v) ==> argument_value(s@) == Some(v as int),
{
    let chars: Vec<char> = characters(s);
    let mut start: usize = 0;
    assert(chars@.skip(0) =~= chars@);
    while chars.len() - start >= 2 && chars[start] == '0' && chars[start + 1] == 'x'
        invariant
            start <= chars.len(),
            without_hex_mark(chars@) == without_hex_mark(chars@.skip(start as int)),
            start > 0 <==> start >= 2,
            start > 0 ==> has_hex_mark(chars@),
        decreases chars.len() - start,
    {
        assert(chars@.skip(start as int).skip(2) =~= chars@.skip(start + 2));
        start = start + 2;
    }
    assert(!has_hex_mark(chars@.skip(start as int)));
    if start > 0 {
        read_integer(&chars, start, 16)
    } else {
        read_integer(&chars, start, 10)
    }
}

/// The one-character text that writes the digit `d`.
fn digit_text(d: u32) -> (text: &'static str)
    requires
        d < 16,
    ensures
        text@ == seq![digit_char(d as int)],
{
    proof {
        reveal_strlit("0123456789abcdef");
    }
    let text: &'static str = "0123456789abcdef".substring_char(d as usize, d as usize + 1);
    assert(text@ =~= seq![digit_char(d as int)]);
    text
}

/// Writes `n` in decimal.
pub fn decimal(n: u32) -> (text: String)
    ensures
        text@ == numeral(n as nat, 10),
    decreases n,
{
    if n < 10 {
        digit_text(n).to_string()
    } else {
        let mut text: String = decimal(n / 10);
        text.append(digit_text(n % 10));
        assert(text@ =~= numeral(n as nat, 10));
        text
    }
}

/// Writes `n` with exactly `width` hexadecimal digits.
pub fn hexadecimal(n: u32, width: u32) -> (text: String)
    ensures
        text@ == hex_digits(n as nat, width as nat),
    decreases width,
{
    if width == 0 {
        String::new()
    } else {
        let mut text: String = hexadecimal(n / 16, width - 1);
        text.append(digit_text(n % 16));
        assert(text@ =~= hex_digits(n as nat, width as nat));
        text
    }
}

/// The figure or letter that writes a digit has that digit's value.
proof fn lemma_digit_char_value(d: int)
    requires
        0 <= d < 16,
    ensures
        digit_value(digit_char(d)) == Some(d),
        digit_char(d) != 'x',
        digit_char(d) != '-',
        digit_char(d) != '+',
{
    reveal_strlit("0123456789abcdef");
}

/// What `numeral` writes are digits, and they have the value of the number.
proof fn lemma_numeral_value(n: nat, radix: nat)
    requires
        2 <= radix <= 16,
    ensures
        is_numeral(numeral(n, radix), radix as int),
        numeral_value(numeral(n, radix), radix as int) == n,
        forall|i: int|
            0 <= i < numeral(n, radix).len() ==> {
                &&& #[trigger] numeral(n, radix)[i] != 'x'
                &&& numeral(n, radix)[i] != '-'
                &&& numeral(n, radix)[i] != '+'
            },
    decreases n,
{
    let s = numeral(n, radix);
    let r = radix as int;
    if n < radix {
        lemma_digit_char_value(n as int);
        assert(s.drop_last() =~= seq![]);
        assert(numeral_value(s.drop_last(), r) == 0);
        assert(s.last() == digit_char(n as int));
        assert(0 * r == 0);
    } else {
        assert(n / radix < n && n == n / radix * radix + n % radix && n % radix < radix)
            by (nonlinear_arith)
            requires
                n >= radix >= 2,
        ;
        lemma_numeral_value(n / radix, radix);
        lemma_digit_char_value((n % radix) as int);
        assert(s.drop_last() =~= numeral(n / radix, radix));
        assert(s.last() == digit_char((n % radix) as int));
    }
}

/// A number that an argument writes in decimal, in decimal behind a minus
/// sign, or in hexadecimal behind `0x`, is read back as that number.
pub proof fn law_written_numbers_are_read_back(n: nat)
    requires
        n <= i64::MAX,
    ensures
        argument_value(numeral(n, 10)) == Some(n as int),
        argument_value(seq!['-'] + numeral(n, 10)) == Some(-n),
        argument_value(seq!['0', 'x'] + numeral(n, 16)) == Some(n as int),
{
    lemma_numeral_value(n, 10);
    lemma_numeral_value(n, 16);
    let decimal = numeral(n, 10);
    let hex = numeral(n, 16);
    assert((seq!['-'] + decimal).skip(1) =~= decimal);
    assert((seq!['0', 'x'] + hex).skip(2) =~= hex);
    reveal_with_fuel(without_hex_mark, 2);
    if decimal.len() >= 2 {
        assert(decimal[1] != 'x');
    }
    if hex.len() >= 2 {
        assert(hex[1] != 'x');
    }
    assert(decimal[0] != '-' && hex[0] != '-');
}

/// The figures have the values 0 to 9 and the letters, small or capital, 10 to
/// 35. Nothing else is a digit.
pub proof fn law_digits_have_their_values(c: char, d: int)
    ensures
        0 <= d < 10 && c as int == 48 + d ==> digit_value(c) == Some(d),
        10 <= d < 36 && (c as int == 87 + d || c as int == 55 + d) ==> digit_value(c) == Some(d),
        !(48 <= c as int <= 57) && !(65 <= c as int <= 90) && !(97 <= c as int <= 122)
            ==> digit_value(c) is None,
        2 <= d <= 36 ==> (is_digit(c, d) <==> {
            ||| 48 <= c as int <= 57 && c as int - 48 < d
            ||| 65 <= c as int <= 90 && c as int - 55 < d
            ||| 97 <= c as int <= 122 && c as int - 87 < d
        }),
{
}

/// A digit at the end adds its value to `radix` times what stood before it.
pub proof fn law_digits_have_place_value(s: Seq<char>, c: char, d: int, radix: int)
    requires
        0 <= d < 36,
        if d < 10 {
            c as int == 48 + d
        } else {
            c as int == 87 + d || c as int == 55 + d
        },
    ensures
        numeral_value(seq![], radix) == 0,
        numeral_value(s.push(c), radix) == numeral_value(s, radix) * radix + d,
{
    assert(s.push(c).drop_last() =~= s);
}

/// Whether `s` is a decimal figure or more, and nothing else.
pub open spec fn is_decimal(s: Seq<char>) -> bool {
    s.len() > 0 && forall|i: int| 0 <= i < s.len() ==> 48 <= (#[trigger] s[i]) as int <= 57
}

/// Whether `s` is a hexadecimal digit or more, in either case, and nothing else.
pub open spec fn is_hexadecimal(s: Seq<char>) -> bool {
    s.len() > 0 && forall|i: int|
        0 <= i < s.len() ==> (48 <= (#[trigger] s[i]) as int <= 57 || 65 <= s[i] as int <= 70 || 97
            <= s[i] as int <= 102)
}

/// The number `value`, where 64 bits with a sign can hold it.
pub open spec fn held(value: int) -> Option<int> {
    if -0x8000_0000_0000_0000 <= value <= 0x7FFF_FFFF_FFFF_FFFF {
        Some(value)
    } else {
        None
    }
}

/// Decimal figures are read as the number they write, with a plus sign or none,
/// and as its negative behind a minus sign, unless it is too large.
pub proof fn law_decimal_arguments_are_read(s: Seq<char>)
    requires
        is_decimal(s),
    ensures
        argument_value(s) == held(numeral_value(s, 10)),
        argument_value(seq!['+'] + s) == held(numeral_value(s, 10)),
        argument_value(seq!['-'] + s) == held(-numeral_value(s, 10)),
{
    lemma_digits_make_a_numeral(s);
    assert((seq!['+'] + s).skip(1) =~= s);
    assert((seq!['-'] + s).skip(1) =~= s);
    assert(48 <= s[0] as int <= 57);
    if s.len() >= 2 {
        assert(48 <= s[1] as int <= 57);
    }
}

/// Hexadecimal digits behind `0x` are read as the number they write, with the
/// sign that may stand behind the mark, unless it is too large.
pub proof fn law_hexadecimal_arguments_are_read(s: Seq<char>)
    requires
        is_hexadecimal(s),
    ensures
        argument_value(seq!['0', 'x'] + s) == held(numeral_value(s, 16)),
        argument_value(seq!['0', 'x', '+'] + s) == held(numeral_value(s, 16)),
        argument_value(seq!['0', 'x', '-'] + s) == held(-numeral_value(s, 16)),
{
    lemma_digits_make_a_numeral(s);
    reveal_with_fuel(without_hex_mark, 2);
    let (bare, plus, minus) = (
        seq!['0', 'x'] + s,
        seq!['0', 'x', '+'] + s,
        seq!['0', 'x', '-'] + s,
    );
    assert(bare.skip(2) =~= s);
    assert(plus.skip(2) =~= seq!['+'] + s);
    assert(minus.skip(2) =~= seq!['-'] + s);
    assert((seq!['+'] + s).skip(1) =~= s);
    assert((seq!['-'] + s).skip(1) =~= s);
    assert(s[0] != '-' && s[0] != '+');
    if s.len() >= 2 {
        assert(s[1] != 'x');
    }
}

proof fn lemma_digits_make_a_numeral(s: Seq<char>)
    ensures
        is_decimal(s) <==> is_numeral(s, 10),
        is_hexadecimal(s) <==> is_numeral(s, 16),
{
    assert forall|i: int| 0 <= i < s.len() implies (is_digit(#[trigger] s[i], 10) <==> 48
        <= s[i] as int <= 57) by {}
    assert forall|i: int| 0 <= i < s.len() implies (is_digit(#[trigger] s[i], 16) <==> (48
        <= s[i] as int <= 57 || 65 <= s[i] as int <= 70 || 97 <= s[i] as int <= 102)) by {}
    if is_decimal(s) {
        assert forall|i: int| 0 <= i < s.len() implies is_digit(#[trigger] s[i], 10) by {
            assert(48 <= s[i] as int <= 57);
        }
    }
    if is_numeral(s, 10) {
        assert forall|i: int| 0 <= i < s.len() implies 48 <= (#[trigger] s[i]) as int <= 57 by {
            assert(is_digit(s[i], 10));
        }
    }
    if is_hexadecimal(s) {
        assert forall|i: int| 0 <= i < s.len() implies is_digit(#[trigger] s[i], 16) by {
            assert(48 <= s[i] as int <= 57 || 65 <= s[i] as int <= 70 || 97 <= s[i] as int <= 102);
        }
    }
    if is_numeral(s, 16) {
        assert forall|i: int| 0 <= i < s.len() implies (48 <= (#[trigger] s[i]) as int <= 57 || 65
            <= s[i] as int <= 70 || 97 <= s[i] as int <= 102) by {
            assert(is_digit(s[i], 16));
        }
    }
}

/// The mark of a hexadecimal number may be repeated.
pub proof fn law_hexadecimal_mark_may_be_repeated(s: Seq<char>)
    ensures
        argument_value(seq!['0', 'x', '0', 'x'] + s) == argument_value(seq!['0', 'x'] + s),
{
    assert((seq!['0', 'x', '0', 'x'] + s).skip(2) =~= seq!['0', 'x'] + s);
}

/// Whether `s` is `digits`, or a plus or minus sign and `digits`.
pub open spec fn is_signed_or_bare(s: Seq<char>, digits: Seq<char>) -> bool {
    s == digits || s == seq!['+'] + digits || s == seq!['-'] + digits
}

/// What is not one of these forms is no number, neither by itself nor behind
/// the mark of a hexadecimal number.
pub proof fn law_other_arguments_are_no_numbers(s: Seq<char>)
    requires
        !(s.len() >= 2 && s[0] == '0' && s[1] == 'x'),
    ensures
        (forall|digits: Seq<char>| is_decimal(digits) ==> !is_signed_or_bare(s, digits))
            ==> argument_value(s) is None,
        (forall|digits: Seq<char>| is_hexadecimal(digits) ==> !is_signed_or_bare(s, digits))
            ==> argument_value(seq!['0', 'x'] + s) is None,
{
    let digits = if is_signed(s) { s.skip(1) } else { s };
    lemma_digits_make_a_numeral(digits);
    if is_signed(s) {
        assert(s =~= seq![s[0]] + digits);
    }
    assert(is_signed_or_bare(s, digits));
    let marked = seq!['0', 'x'] + s;
    assert(marked.skip(2) =~= s);
    reveal_with_fuel(without_hex_mark, 2);
}

/// Whether `a` and `b` are the same but for the case of the letters that are
/// hexadecimal digits.
pub open spec fn same_but_for_case(a: Seq<char>, b: Seq<char>) -> bool {
    &&& a.len() == b.len()
    &&& forall|i: int|
        0 <= i < a.len() ==> (#[trigger] a[i] == b[i] || (97 <= a[i] as int <= 102 && b[i] as int
            == a[i] as int - 32) || (97 <= b[i] as int <= 102 && a[i] as int == b[i] as int - 32))
}

/// A hexadecimal argument means the same in small and in capital letters, and
/// with any number of zeroes in front of its digits.
pub proof fn law_case_and_zeroes_do_not_matter(a: Seq<char>, b: Seq<char>, zeroes: nat)
    requires
        is_hexadecimal(a),
        same_but_for_case(a, b),
    ensures
        argument_value(seq!['0', 'x'] + Seq::new(zeroes, |i: int| '0') + b) == argument_value(
            seq!['0', 'x'] + a,
        ),
{
    let zeros = Seq::new(zeroes, |i: int| '0');
    let padded = zeros + b;
    assert forall|i: int| 0 <= i < b.len() implies (48 <= (#[trigger] b[i]) as int <= 57 || 65
        <= b[i] as int <= 70 || 97 <= b[i] as int <= 102) by {
        assert(48 <= a[i] as int <= 57 || 65 <= a[i] as int <= 70 || 97 <= a[i] as int <= 102);
    }
    assert forall|i: int| 0 <= i < padded.len() implies (48 <= (#[trigger] padded[i]) as int <= 57
        || 65 <= padded[i] as int <= 70 || 97 <= padded[i] as int <= 102) by {
        if i >= zeroes {
            assert(padded[i] == b[i - zeroes]);
        }
    }
    law_hexadecimal_arguments_are_read(a);
    law_hexadecimal_arguments_are_read(padded);
    assert(seq!['0', 'x'] + zeros + b =~= seq!['0', 'x'] + padded);
    lemma_padded_value(a, b, zeroes);
}

/// A number is read back from its hexadecimal digits behind `0x`, with each
/// letter small or capital and any number of zeroes in front.
pub proof fn law_hexadecimal_is_read_back_in_any_case(n: nat, text: Seq<char>, zeroes: nat)
    requires
        n <= i64::MAX,
        same_but_for_case(numeral(n, 16), text),
    ensures
        argument_value(seq!['0', 'x'] + Seq::new(zeroes, |i: int| '0') + text) == Some(n as int),
{
    lemma_numeral_value(n, 16);
    lemma_digits_make_a_numeral(numeral(n, 16));
    law_written_numbers_are_read_back(n);
    law_case_and_zeroes_do_not_matter(numeral(n, 16), text, zeroes);
}

proof fn lemma_padded_value(a: Seq<char>, b: Seq<char>, zeroes: nat)
    requires
        same_but_for_case(a, b),
    ensures
        numeral_value(Seq::new(zeroes, |i: int| '0') + b, 16) == numeral_value(a, 16),
    decreases a.len() + zeroes,
{
    let zeros = Seq::new(zeroes, |i: int| '0');
    let padded = zeros + b;
    if a.len() > 0 {
        let (x, y) = (a.drop_last(), b.drop_last());
        assert forall|i: int| 0 <= i < x.len() implies (#[trigger] x[i] == y[i] || (97
            <= x[i] as int <= 102 && y[i] as int == x[i] as int - 32) || (97 <= y[i] as int <= 102
            && x[i] as int == y[i] as int - 32)) by {
            assert(x[i] == a[i] && y[i] == b[i]);
        }
        lemma_padded_value(x, y, zeroes);
        assert(padded.drop_last() =~= zeros + y);
        assert(padded.last() == b.last());
        assert(a[a.len() - 1] == a.last());
        assert(digit_value(a.last()) == digit_value(b.last()));
    } else if zeroes > 0 {
        let fewer = Seq::new((zeroes - 1) as nat, |i: int| '0');
        lemma_padded_value(a, b, (zeroes - 1) as nat);
        assert(padded.drop_last() =~= fewer + b);
        assert(padded.last() == '0');
    } else {
        assert(padded =~= a);
    }
}

/// Whether `c` is how the digit `d` is written: a figure, or a small letter.
pub open spec fn writes(c: char, d: int) -> bool {
    if d < 10 {
        c as int == 48 + d
    } else {
        c as int == 87 + d
    }
}

/// A number is written by writing its leading digits and then its last one, in
/// figures and small letters, and a number of one digit by that digit alone.
pub proof fn law_numbers_are_written_digit_by_digit(n: nat, d: nat, c: char, radix: nat)
    requires
        2 <= radix <= 16,
        d < radix,
        writes(c, d as int),
    ensures
        numeral(d, radix) == seq![c],
        n > 0 ==> numeral(n * radix + d, radix) == numeral(n, radix).push(c),
{
    lemma_digit_char_writes(c, d as int);
    if n > 0 {
        assert((n * radix + d) / radix == n && (n * radix + d) % radix == d && n * radix + d
            >= radix) by {
            vstd::arithmetic::div_mod::lemma_fundamental_div_mod_converse(
                (n * radix + d) as int,
                radix as int,
                n as int,
                d as int,
            );
            assert(n * radix >= radix) by (nonlinear_arith)
                requires
                    n >= 1,
            ;
        }
    }
}

/// A number is written in so many hexadecimal digits by writing the rest of it
/// in one digit less and then its last one, in figures and small letters.
pub proof fn law_hexadecimal_digits_are_written_one_by_one(n: nat, d: nat, c: char, width: nat)
    requires
        d < 16,
        writes(c, d as int),
    ensures
        hex_digits(n, 0) == Seq::<char>::empty(),
        hex_digits(n * 16 + d, width + 1) == hex_digits(n, width).push(c),
{
    lemma_digit_char_writes(c, d as int);
    assert((n * 16 + d) / 16 == n && (n * 16 + d) % 16 == d);
}

proof fn lemma_digit_char_writes(c: char, d: int)
    requires
        0 <= d < 16,
        writes(c, d),
    ensures
        digit_char(d) == c,
{
    reveal_strlit("0123456789abcdef");
}

} // verus!
