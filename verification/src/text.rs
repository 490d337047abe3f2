//! Text building blocks: decimal and hexadecimal numbers, and substring replacement.

use vstd::prelude::*;

verus! {

/// The character that writes the digit `d` in any base up to sixteen, in lower case.
pub open spec fn digit_char(d: nat) -> char {
    if d < 10 {
        (48 + d) as char
    } else {
        (87 + d) as char
    }
}

/// The decimal notation of `n`, without leading zeros.
pub open spec fn decimal(n: nat) -> Seq<char>
    decreases n,
{
    if n < 10 {
        seq![digit_char(n)]
    } else {
        decimal(n / 10).push(digit_char(n % 10))
    }
}

/// The last `width` hexadecimal digits of `n`, padded with zeros on the left.
pub open spec fn hex_digits(n: nat, width: nat) -> Seq<char>
    decreases width,
{
    if width == 0 {
        Seq::empty()
    } else {
        hex_digits(n / 16, (width - 1) as nat).push(digit_char(n % 16))
    }
}

/// `text` with every occurrence of `pattern`, found left to right without overlap, replaced.
pub open spec fn replace_all(text: Seq<char>, pattern: Seq<char>, with: Seq<char>) -> Seq<char>
    decreases text.len(),
{
    if pattern.len() == 0 || text.len() < pattern.len() {
        text
    } else if text.subrange(0, pattern.len() as int) == pattern {
        with + replace_all(text.subrange(pattern.len() as int, text.len() as int), pattern, with)
    } else {
        seq![text[0]] + replace_all(text.subrange(1, text.len() as int), pattern, with)
    }
}

/// The view of an optional text.
pub open spec fn text_view(text: Option<String>) -> Option<Seq<char>> {
    match text {
        Some(text) => Some(text@),
        None => None,
    }
}

/// A copy of an optional text.
pub fn clone_text(text: &Option<String>) -> (copy: Option<String>)
    ensures
        copy == *text,
{
    match text {
        Some(text) => Some(text.clone()),
        None => None,
    }
}

/// Whether `text` is a decimal number: an optional plus sign, then one digit or more.
pub open spec fn is_number(text: Seq<char>) -> bool {
    number_digits(text).len() > 0 && all_digits(number_digits(text))
}

/// `text` without a leading plus sign.
pub open spec fn number_digits(text: Seq<char>) -> Seq<char> {
    if text.len() > 0 && text[0] == '+' {
        text.subrange(1, text.len() as int)
    } else {
        text
    }
}

/// Whether every character is a decimal digit.
pub open spec fn all_digits(text: Seq<char>) -> bool {
    forall|i: int| 0 <= i < text.len() ==> '0' <= #[trigger] text[i] <= '9'
}

/// The value of a sequence of decimal digits.
pub open spec fn digits_value(digits: Seq<char>) -> nat
    decreases digits.len(),
{
    if digits.len() == 0 {
        0
    } else {
        digits_value(digits.drop_last()) * 10 + (digits.last() as nat - '0' as nat) as nat
    }
}

/// The number that `text` denotes, where it is one and fits 64 bits.
pub open spec fn parsed_number(text: Seq<char>) -> Option<u64> {
    if is_number(text) && digits_value(number_digits(text)) <= u64::MAX {
        Some(digits_value(number_digits(text)) as u64)
    } else {
        None
    }
}

/// Reads a decimal number that fits 64 bits.
pub fn parse_number(text: &str) -> (number: Option<u64>)
    ensures
        number == parsed_number(text@),
{
    let len: usize = text.unicode_len();
    let start: usize = if len > 0 && text.get_char(0) == '+' {
        1
    } else {
        0
    };
    let ghost digits = number_digits(text@);
    assert(digits =~= text@.subrange(start as int, len as int));
    if start == len {
        return None;
    }
    let mut value: u64 = 0;
    let mut i: usize = start;
    let mut fits: bool = true;
    assert(digits.subrange(0, 0) =~= Seq::<char>::empty());
    while i < len
        invariant
            start <= i <= len,
            len == text@.len(),
            digits == text@.subrange(start as int, len as int),
            digits == number_digits(text@),
            all_digits(digits.subrange(0, i - start)),
            fits ==> value == digits_value(digits.subrange(0, i - start)),
            !fits ==> digits_value(digits.subrange(0, i - start)) > u64::MAX,
        decreases len - i,
    {
        let c: char = text.get_char(i);
        assert(c == digits[i - start]);
        if c < '0' || c > '9' {
            assert(!all_digits(digits));
            return None;
        }
        let d: u64 = c as u64 - '0' as u64;
        let ghost upto = digits.subrange(0, i - start + 1);
        assert(upto.drop_last() =~= digits.subrange(0, i - start));
        assert(upto.last() == c);
        assert(all_digits(upto)) by {
            assert forall|j: int| 0 <= j < upto.len() implies '0' <= #[trigger] upto[j] <= '9' by {
                if j < i - start {
                    assert(digits.subrange(0, i - start)[j] == upto[j]);
                }
            }
        }
        if fits {
            match value.checked_mul(10) {
                Some(tens) => match tens.checked_add(d) {
                    Some(sum) => {
                        value = sum;
                    },
                    None => {
                        fits = false;
                    },
                },
                None => {
                    fits = false;
                },
            }
        }
        i = i + 1;
    }
    assert(digits.subrange(0, len - start) =~= digits);
    if fits {
        Some(value)
    } else {
        None
    }
}

fn digit_str(d: u64) -> (s: &'static str)
    requires
        d < 16,
    ensures
        s@ =~= seq![digit_char(d as nat)],
{
    proof {
        reveal_strlit("0");
        reveal_strlit("1");
        reveal_strlit("2");
        reveal_strlit("3");
        reveal_strlit("4");
        reveal_strlit("5");
        reveal_strlit("6");
        reveal_strlit("7");
        reveal_strlit("8");
        reveal_strlit("9");
        reveal_strlit("a");
        reveal_strlit("b");
        reveal_strlit("c");
        reveal_strlit("d");
        reveal_strlit("e");
        reveal_strlit("f");
    }
    match d {
        0 => "0",
        1 => "1",
        2 => "2",
        3 => "3",
        4 => "4",
        5 => "5",
        6 => "6",
        7 => "7",
        8 => "8",
        9 => "9",
        10 => "a",
        11 => "b",
        12 => "c",
        13 => "d",
        14 => "e",
        _ => "f",
    }
}

/// Appends the decimal notation of `n` to `out`.
pub fn append_decimal(out: &mut String, n: u64)
    ensures
        final(out)@ == old(out)@ + decimal(n as nat),
    decreases n,
{
    if n >= 10 {
        append_decimal(out, n / 10);
    }
    out.append(digit_str(n % 10));
    assert(out@ =~= old(out)@ + decimal(n as nat));
}

/// The decimal notation of `n`.
pub fn decimal_string(n: u64) -> (s: String)
    ensures
        s@ == decimal(n as nat),
{
    let mut s = String::new();
    append_decimal(&mut s, n);
    assert(s@ =~= decimal(n as nat));
    s
}

/// Appends the last `width` hexadecimal digits of `n` to `out`.
pub fn append_hex(out: &mut String, n: u64, width: u64)
    ensures
        final(out)@ == old(out)@ + hex_digits(n as nat, width as nat),
    decreases width,
{
    if width > 0 {
        append_hex(out, n / 16, width - 1);
        out.append(digit_str(n % 16));
    }
    assert(out@ =~= old(out)@ + hex_digits(n as nat, width as nat));
}

fn has_prefix_at(text: &str, len: usize, pos: usize, pattern: &str) -> (found: bool)
    requires
        len == text@.len(),
        pos + pattern@.len() <= len,
    ensures
        found == (text@.subrange(pos as int, pos + pattern@.len()) == pattern@),
{
    let n: usize = pattern.unicode_len();
    let mut i: usize = 0;
    while i < n
        invariant
            i <= n,
            n == pattern@.len(),
            len == text@.len(),
            pos + n <= len,
            forall|j: int| 0 <= j < i ==> text@[pos + j] == #[trigger] pattern@[j],
        decreases n - i,
    {
        let here: char = text.get_char(pos + i);
        let want: char = pattern.get_char(i);
        if here != want {
            assert(text@.subrange(pos as int, pos + pattern@.len())[i as int] != pattern@[i as int]);
            return false;
        }
        i = i + 1;
    }
    assert(text@.subrange(pos as int, pos + pattern@.len()) =~= pattern@);
    true
}

/// Replaces every occurrence of `pattern` in `text`, left to right without overlap.
pub fn replace_text(text: &str, pattern: &str, with: &str) -> (out: String)
    ensures
        out@ == replace_all(text@, pattern@, with@),
{
    let len: usize = text.unicode_len();
    let plen: usize = pattern.unicode_len();
    let mut out = String::new();
    let mut pos: usize = 0;
    if plen == 0 {
        out.append(text);
        assert(out@ =~= text@);
        return out;
    }
    assert(text@.subrange(0, len as int) =~= text@);
    while pos < len && plen <= len - pos
        invariant
            pos <= len,
            0 < plen,
            len == text@.len(),
            plen == pattern@.len(),
            replace_all(text@, pattern@, with@) =~= out@ + replace_all(
                text@.subrange(pos as int, len as int),
                pattern@,
                with@,
            ),
        decreases len - pos,
    {
        let ghost rest = text@.subrange(pos as int, len as int);
        assert(rest.subrange(0, plen as int) =~= text@.subrange(pos as int, pos + plen));
        if has_prefix_at(text, len, pos, pattern) {
            assert(rest.subrange(plen as int, rest.len() as int) =~= text@.subrange(
                pos + plen,
                len as int,
            ));
            out.append(with);
            pos = pos + plen;
        } else {
            assert(rest.subrange(1, rest.len() as int) =~= text@.subrange(pos + 1, len as int));
            let one: &str = text.substring_char(pos, pos + 1);
            assert(one@ =~= seq![rest[0]]);
            out.append(one);
            pos = pos + 1;
        }
    }
    let tail: &str = text.substring_char(pos, len);
    out.append(tail);
    out
}

proof fn digit_char_injective(a: nat, b: nat)
    requires
        a < 16,
        b < 16,
        digit_char(a) == digit_char(b),
    ensures
        a == b,
{
    assert(digit_char(a) as int == if a < 10 {
        48 + a
    } else {
        87 + a
    });
    assert(digit_char(b) as int == if b < 10 {
        48 + b
    } else {
        87 + b
    });
}

/// Distinct numbers have distinct decimal notations.
pub proof fn decimal_is_injective(a: nat, b: nat)
    requires
        decimal(a) == decimal(b),
    ensures
        a == b,
    decreases a,
{
    decimal_is_nonempty(a);
    decimal_is_nonempty(b);
    if a < 10 && b < 10 {
        assert(decimal(a)[0] == digit_char(a));
        assert(decimal(b)[0] == digit_char(b));
        digit_char_injective(a, b);
    } else if a >= 10 && b >= 10 {
        assert(decimal(a).last() == digit_char(a % 10));
        assert(decimal(b).last() == digit_char(b % 10));
        digit_char_injective(a % 10, b % 10);
        assert(decimal(a).drop_last() =~= decimal(a / 10));
        assert(decimal(b).drop_last() =~= decimal(b / 10));
        decimal_is_injective(a / 10, b / 10);
    } else if a >= 10 {
        decimal_is_nonempty(a / 10);
    } else {
        decimal_is_nonempty(b / 10);
    }
}

proof fn decimal_is_nonempty(n: nat)
    ensures
        decimal(n).len() > 0,
        n >= 10 ==> decimal(n).len() > 1,
    decreases n,
{
    if n >= 10 {
        decimal_is_nonempty(n / 10);
    }
}

/// A decimal notation holds digits only.
pub proof fn decimal_holds_digits(n: nat)
    ensures
        forall|i: int| 0 <= i < decimal(n).len() ==> '0' <= #[trigger] decimal(n)[i] <= '9',
    decreases n,
{
    if n >= 10 {
        decimal_holds_digits(n / 10);
        assert forall|i: int| 0 <= i < decimal(n).len() implies '0' <= #[trigger] decimal(n)[i] <= '9' by {
            if i < decimal(n / 10).len() {
                assert(decimal(n)[i] == decimal(n / 10)[i]);
            }
        }
    }
}

/// A hexadecimal notation has exactly the requested width.
pub proof fn hex_digits_len(n: nat, width: nat)
    ensures
        hex_digits(n, width).len() == width,
    decreases width,
{
    if width > 0 {
        hex_digits_len(n / 16, (width - 1) as nat);
    }
}

/// Two numbers with the same sixteen hexadecimal digits are equal, if both fit sixteen digits.
pub proof fn hex_digits_injective(a: u64, b: u64)
    requires
        hex_digits(a as nat, 16) == hex_digits(b as nat, 16),
    ensures
        a == b,
{
    hex_digits_injective_mod(a as nat, b as nat, 16);
    assert(vstd::arithmetic::power::pow(16, 16) == 0x1_0000_0000_0000_0000) by {
        reveal_with_fuel(vstd::arithmetic::power::pow, 17);
    }
    vstd::arithmetic::div_mod::lemma_small_mod(a as nat, 0x1_0000_0000_0000_0000);
    vstd::arithmetic::div_mod::lemma_small_mod(b as nat, 0x1_0000_0000_0000_0000);
}

proof fn hex_digits_injective_mod(a: nat, b: nat, width: nat)
    requires
        hex_digits(a, width) == hex_digits(b, width),
    ensures
        a as int % vstd::arithmetic::power::pow(16, width) == b as int
            % vstd::arithmetic::power::pow(16, width),
    decreases width,
{
    reveal(vstd::arithmetic::power::pow);
    if width > 0 {
        let w = (width - 1) as nat;
        hex_digits_len(a / 16, w);
        hex_digits_len(b / 16, w);
        assert(hex_digits(a, width).last() == digit_char(a % 16));
        assert(hex_digits(b, width).last() == digit_char(b % 16));
        digit_char_injective(a % 16, b % 16);
        assert(hex_digits(a, width).drop_last() =~= hex_digits(a / 16, w));
        assert(hex_digits(b, width).drop_last() =~= hex_digits(b / 16, w));
        hex_digits_injective_mod(a / 16, b / 16, w);
        let p = vstd::arithmetic::power::pow(16, w);
        vstd::arithmetic::power::lemma_pow_positive(16, w);
        assert(vstd::arithmetic::power::pow(16, width) == 16 * p);
        vstd::arithmetic::div_mod::lemma_mod_breakdown(a as int, 16, p);
        vstd::arithmetic::div_mod::lemma_mod_breakdown(b as int, 16, p);
    }
}

/// The lower case of a letter of the basic Latin alphabet; other characters stay as they are.
pub open spec fn ascii_lower(c: char) -> char {
    if 'A' <= c <= 'Z' {
        ((c as u32) + 32) as char
    } else {
        c
    }
}

/// Whether two texts differ at most in the case of basic Latin letters.
pub open spec fn same_ignoring_case(a: Seq<char>, b: Seq<char>) -> bool {
    a.len() == b.len() && forall|i: int|
        0 <= i < a.len() ==> ascii_lower(#[trigger] a[i]) == ascii_lower(b[i])
}

/// Whether a setting switches something on: `1`, or `true` in any case.
pub open spec fn switches_on(setting: Option<Seq<char>>) -> bool {
    match setting {
        Some(value) => value == "1"@ || same_ignoring_case(value, "true"@),
        None => false,
    }
}

fn is_letter(c: char, lower: char, upper: char) -> (same: bool)
    requires
        'a' <= lower <= 'z',
        upper as u32 + 32 == lower as u32,
    ensures
        same == (ascii_lower(c) == ascii_lower(lower)),
{
    assert(!('A' <= lower <= 'Z'));
    c == lower || c == upper
}

/// Whether a setting switches something on.
pub fn is_switched_on(setting: &Option<String>) -> (on: bool)
    ensures
        on == switches_on(text_view(*setting)),
{
    let value: &str = match setting {
        Some(value) => value.as_str(),
        None => {
            return false;
        },
    };
    proof {
        reveal_strlit("1");
        reveal_strlit("true");
    }
    let n: usize = value.unicode_len();
    if n == 1 && value.get_char(0) == '1' {
        assert(value@ =~= "1"@);
        return true;
    }
    assert(value@ != "1"@) by {
        if value@ == "1"@ {
            assert(value@[0] == '1');
        }
    }
    let same: bool = n == 4 && is_letter(value.get_char(0), 't', 'T') && is_letter(
        value.get_char(1),
        'r',
        'R',
    ) && is_letter(value.get_char(2), 'u', 'U') && is_letter(value.get_char(3), 'e', 'E');
    proof {
        let wanted = "true"@;
        assert(wanted[0] == 't' && wanted[1] == 'r' && wanted[2] == 'u' && wanted[3] == 'e');
        if same {
            assert forall|i: int| 0 <= i < value@.len() implies ascii_lower(#[trigger] value@[i])
                == ascii_lower(wanted[i]) by {
                assert(i == 0 || i == 1 || i == 2 || i == 3);
            }
        } else if same_ignoring_case(value@, wanted) {
            assert(ascii_lower(value@[0]) == ascii_lower(wanted[0]));
            assert(ascii_lower(value@[1]) == ascii_lower(wanted[1]));
            assert(ascii_lower(value@[2]) == ascii_lower(wanted[2]));
            assert(ascii_lower(value@[3]) == ascii_lower(wanted[3]));
        }
    }
    same
}

/// The hexadecimal notation of `n` in lower case, without leading zeros.
pub open spec fn hex(n: nat) -> Seq<char>
    decreases n,
{
    if n < 16 {
        seq![digit_char(n)]
    } else {
        hex(n / 16).push(digit_char(n % 16))
    }
}

/// Appends the hexadecimal notation of `n` to `out`.
pub fn append_plain_hex(out: &mut String, n: u64)
    ensures
        final(out)@ == old(out)@ + hex(n as nat),
    decreases n,
{
    if n >= 16 {
        append_plain_hex(out, n / 16);
    }
    out.append(digit_str(n % 16));
    assert(out@ =~= old(out)@ + hex(n as nat));
}

/// The text with every character in lower case.
pub uninterp spec fn lowercase(text: Seq<char>) -> Seq<char>;

/// Whether a text holds ASCII characters only.
pub open spec fn is_ascii(text: Seq<char>) -> bool {
    forall|i: int| 0 <= i < text.len() ==> (#[trigger] text[i] as u32) < 128
}

/// A text with the letters from `A` to `Z` in lower case.
pub open spec fn ascii_lowercase(text: Seq<char>) -> Seq<char> {
    text.map_values(|c: char| ascii_lower(c))
}

/// `str::to_lowercase`: the lower case of a text depends on the text alone. In a text of ASCII
/// characters it changes the letters from `A` to `Z` and nothing else.
#[verifier::external_body]
pub(crate) fn to_lowercase(text: &str) -> (lower: String)
    ensures
        lower@ == lowercase(text@),
        is_ascii(text@) ==> lower@ == ascii_lowercase(text@),
{
    text.to_lowercase()
}

/// The text in lower case.
pub open spec fn lower_case(text: Seq<char>) -> Seq<char> {
    if is_ascii(text) {
        ascii_lowercase(text)
    } else {
        lowercase(text)
    }
}

/// The text as a string literal, with its quotes and escapes.
pub uninterp spec fn quoted(text: Seq<char>) -> Seq<char>;

/// `str`'s `Debug` output: the text as a string literal depends on the text alone.
#[verifier::external_body]
pub(crate) fn quote(text: &str) -> (literal: String)
    ensures
        literal@ == quoted(text@),
{
    format!("{:?}", text)
}

} // verus!
