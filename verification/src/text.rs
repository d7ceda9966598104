//! Numbers written out as text.

use vstd::prelude::*;

verus! {

/// The character of a decimal digit.
pub open spec fn digit_char(digit: int) -> char {
    if digit == 0 {
        '0'
    } else if digit == 1 {
        '1'
    } else if digit == 2 {
        '2'
    } else if digit == 3 {
        '3'
    } else if digit == 4 {
        '4'
    } else if digit == 5 {
        '5'
    } else if digit == 6 {
        '6'
    } else if digit == 7 {
        '7'
    } else if digit == 8 {
        '8'
    } else {
        '9'
    }
}

/// A natural number in decimal, without leading zeros.
pub open spec fn decimal_text(n: nat) -> Seq<char>
    decreases n,
{
    if n < 10 {
        seq![digit_char(n as int)]
    } else {
        decimal_text(n / 10).push(digit_char((n % 10) as int))
    }
}

/// A number of hundredths in decimal, with two digits after the point.
pub open spec fn fixed2_text(hundredths: nat) -> Seq<char> {
    decimal_text(hundredths / 100) + seq![
        '.',
        digit_char((hundredths / 10 % 10) as int),
        digit_char((hundredths % 10) as int),
    ]
}

/// The digits of a number, least significant first, read back most significant first.
spec fn reversed_digits(digits: Seq<u8>) -> Seq<char>
    decreases digits.len(),
{
    if digits.len() == 0 {
        Seq::empty()
    } else {
        seq![digit_char(digits.last() as int)] + reversed_digits(digits.drop_last())
    }
}

/// The text of one decimal digit.
fn digit_str(digit: u8) -> (text: &'static str)
    requires
        digit < 10,
    ensures
        text@ == seq![digit_char(digit as int)],
{
    proof {
        reveal_strlit("0");
        reveal_strlit("1");
        reveal_strlit("2");
        reveal_strlit("3");
        reveal_strlit("4");
        reveal_strlit("5");
        reveal_strlit("6");
        reveal_strlit("7");
        reveal_strlit("8");
        reveal_strlit("9");
    }
    let text = match digit {
        0 => "0",
        1 => "1",
        2 => "2",
        3 => "3",
        4 => "4",
        5 => "5",
        6 => "6",
        7 => "7",
        8 => "8",
        _ => "9",
    };
    assert(text@ =~= seq![digit_char(digit as int)]);
    text
}

/// Appends a number in decimal.
pub fn push_decimal(out: &mut String, n: u64)
    ensures
        final(out)@ == old(out)@ + decimal_text(n as nat),
{
    let ghost start = out@;
    let mut digits: Vec<u8> = Vec::new();
    let mut rest: u64 = n;
    while rest >= 10
        invariant
            decimal_text(n as nat) == decimal_text(rest as nat) + reversed_digits(digits@),
            forall|i: int| 0 <= i < digits@.len() ==> digits@[i] < 10,
        decreases rest,
    {
        let ghost before = digits@;
        let digit = (rest % 10) as u8;
        digits.push(digit);
        proof {
            assert(digits@.drop_last() =~= before);
            assert(reversed_digits(digits@) == seq![digit_char(digit as int)] + reversed_digits(
                before,
            ));
            assert(decimal_text(rest as nat) == decimal_text((rest / 10) as nat).push(
                digit_char(digit as int),
            ));
            assert(decimal_text((rest / 10) as nat).push(digit_char(digit as int))
                + reversed_digits(before) =~= decimal_text((rest / 10) as nat) + reversed_digits(
                digits@,
            ));
        }
        rest = rest / 10;
    }
    out.append(digit_str(rest as u8));
    proof {
        assert(digits@.take(digits@.len() as int) =~= digits@);
        assert(decimal_text(rest as nat) == seq![digit_char(rest as int)]);
        assert(out@ + reversed_digits(digits@) =~= start + (decimal_text(rest as nat)
            + reversed_digits(digits@)));
    }
    let mut i: usize = digits.len();
    while i > 0
        invariant
            i <= digits@.len(),
            forall|j: int| 0 <= j < digits@.len() ==> digits@[j] < 10,
            out@ + reversed_digits(digits@.take(i as int)) == start + decimal_text(n as nat),
        decreases i,
    {
        let ghost before = out@;
        proof {
            assert(digits@.take(i as int).drop_last() =~= digits@.take(i - 1));
            assert(digits@.take(i as int).last() == digits@[i - 1]);
        }
        i = i - 1;
        out.append(digit_str(digits[i]));
        proof {
            assert(out@ + reversed_digits(digits@.take(i as int)) =~= before + reversed_digits(
                digits@.take(i + 1),
            ));
        }
    }
    proof {
        assert(digits@.take(0) =~= Seq::<u8>::empty());
        assert(out@ =~= out@ + reversed_digits(digits@.take(0)));
    }
}

/// A number in decimal.
pub fn decimal(n: u64) -> (text: String)
    ensures
        text@ == decimal_text(n as nat),
{
    let mut text = String::new();
    push_decimal(&mut text, n);
    assert(Seq::<char>::empty() + decimal_text(n as nat) =~= decimal_text(n as nat));
    text
}

/// Appends a number of hundredths with two digits after the point.
pub fn push_fixed2(out: &mut String, hundredths: u64)
    ensures
        final(out)@ == old(out)@ + fixed2_text(hundredths as nat),
{
    let ghost start = out@;
    push_decimal(out, hundredths / 100);
    proof {
        reveal_strlit(".");
    }
    out.append(".");
    out.append(digit_str((hundredths / 10 % 10) as u8));
    out.append(digit_str((hundredths % 10) as u8));
    assert(out@ =~= start + fixed2_text(hundredths as nat));
}

/// Whether a character is white space.
pub open spec fn is_space_spec(c: char) -> bool {
    let code = c as u32;
    ||| 0x09 <= code <= 0x0d
    ||| code == 0x20
    ||| code == 0x85
    ||| code == 0xa0
    ||| code == 0x1680
    ||| 0x2000 <= code <= 0x200a
    ||| code == 0x2028
    ||| code == 0x2029
    ||| code == 0x202f
    ||| code == 0x205f
    ||| code == 0x3000
}

/// Whether a character is white space.
pub fn is_space(c: char) -> (space: bool)
    ensures
        space == is_space_spec(c),
{
    let code = c as u32;
    (0x09 <= code && code <= 0x0d) || code == 0x20 || code == 0x85 || code == 0xa0 || code
        == 0x1680 || (0x2000 <= code && code <= 0x200a) || code == 0x2028 || code == 0x2029
        || code == 0x202f || code == 0x205f || code == 0x3000
}

/// A text without the white space at its two ends.
pub open spec fn trimmed(text: Seq<char>) -> Seq<char>
    decreases text.len(),
{
    if text.len() == 0 {
        text
    } else if is_space_spec(text[0]) {
        trimmed(text.drop_first())
    } else if is_space_spec(text.last()) {
        trimmed(text.drop_last())
    } else {
        text
    }
}

/// The part between the white space at the two ends is the trimmed text.
pub proof fn lemma_trimmed(text: Seq<char>, from: int, to: int)
    requires
        0 <= from <= to <= text.len(),
        forall|i: int| 0 <= i < from ==> is_space_spec(text[i]),
        forall|i: int| to <= i < text.len() ==> is_space_spec(text[i]),
        from < to ==> !is_space_spec(text[from]) && !is_space_spec(text[to - 1]),
    ensures
        trimmed(text) == text.subrange(from, to),
    decreases text.len(),
{
    if text.len() == 0 {
        assert(text.subrange(from, to) =~= text);
    } else if from > 0 {
        lemma_trimmed(text.drop_first(), from - 1, to - 1);
        assert(text.drop_first().subrange(from - 1, to - 1) =~= text.subrange(from, to));
    } else if to < text.len() {
        if from == to {
            lemma_trimmed(text.drop_first(), 0, 0);
            assert(text.drop_first().subrange(0, 0) =~= text.subrange(from, to));
        } else {
            lemma_trimmed(text.drop_last(), from, to);
            assert(text.drop_last().subrange(from, to) =~= text.subrange(from, to));
        }
    } else {
        assert(text.subrange(from, to) =~= text);
    }
}

/// The characters of a text.
pub fn chars_of(text: &str) -> (chars: Vec<char>)
    ensures
        chars@ == text@,
{
    let length = text.unicode_len();
    let mut chars: Vec<char> = Vec::new();
    let mut i: usize = 0;
    while i < length
        invariant
            i <= length,
            length == text@.len(),
            chars@ == text@.take(i as int),
        decreases length - i,
    {
        chars.push(text.get_char(i));
        assert(text@.take(i + 1) =~= text@.take(i as int).push(text@[i as int]));
        i = i + 1;
    }
    assert(text@.take(length as int) =~= text@);
    chars
}

/// Finds the trimmed part of `chars[from..to]`: the bounds of what is left when the
/// white space at its two ends is taken off.
pub fn trim_bounds(chars: &Vec<char>, from: usize, to: usize) -> (bounds: (usize, usize))
    requires
        from <= to <= chars@.len(),
    ensures
        from <= bounds.0 <= bounds.1 <= to,
        chars@.subrange(bounds.0 as int, bounds.1 as int) == trimmed(
            chars@.subrange(from as int, to as int),
        ),
{
    let mut start = from;
    while start < to && is_space(chars[start])
        invariant
            from <= start <= to <= chars@.len(),
            forall|i: int| from <= i < start ==> is_space_spec(chars@[i]),
        decreases to - start,
    {
        start = start + 1;
    }
    let mut end = to;
    while end > start && is_space(chars[end - 1])
        invariant
            start <= end <= to <= chars@.len(),
            forall|i: int| end <= i < to ==> is_space_spec(chars@[i]),
        decreases end,
    {
        end = end - 1;
    }
    proof {
        let part = chars@.subrange(from as int, to as int);
        lemma_trimmed(part, start - from, end - from);
        assert(part.subrange(start - from, end - from) =~= chars@.subrange(
            start as int,
            end as int,
        ));
    }
    (start, end)
}

/// Whether `chars[from..to]` begins with `prefix`.
pub fn part_starts_with(chars: &Vec<char>, from: usize, to: usize, prefix: &str) -> (starts: bool)
    requires
        from <= to <= chars@.len(),
    ensures
        starts == prefix@.is_prefix_of(chars@.subrange(from as int, to as int)),
{
    let length = prefix.unicode_len();
    if length > to - from {
        return false;
    }
    let ghost part = chars@.subrange(from as int, to as int);
    let mut i: usize = 0;
    while i < length
        invariant
            i <= length,
            length == prefix@.len(),
            length <= to - from,
            from <= to <= chars@.len(),
            part == chars@.subrange(from as int, to as int),
            forall|j: int| 0 <= j < i ==> prefix@[j] == part[j],
        decreases length - i,
    {
        if prefix.get_char(i) != chars[from + i] {
            assert(part[i as int] != prefix@[i as int]);
            assert(!prefix@.is_prefix_of(part)) by {
                if prefix@.is_prefix_of(part) {
                    assert(part.subrange(0, prefix@.len() as int)[i as int] == prefix@[i as int]);
                }
            }
            return false;
        }
        i = i + 1;
    }
    assert(prefix@ =~= part.subrange(0, prefix@.len() as int));
    true
}

/// The text of `chars[from..to]` as a string.
pub fn part_to_string(whole: &str, chars: &Vec<char>, from: usize, to: usize) -> (part: String)
    requires
        chars@ == whole@,
        from <= to <= chars@.len(),
    ensures
        part@ == chars@.subrange(from as int, to as int),
{
    String::from_str(whole.substring_char(from, to))
}

/// Whether text `a` comes before text `b` in the order of a dictionary, character by
/// character by code.
pub open spec fn text_before(a: Seq<char>, b: Seq<char>) -> bool
    decreases a.len(),
{
    if b.len() == 0 {
        false
    } else if a.len() == 0 {
        true
    } else if a[0] != b[0] {
        (a[0] as u32) < (b[0] as u32)
    } else {
        text_before(a.drop_first(), b.drop_first())
    }
}

/// Whether text `a` comes before text `b` in the order of a dictionary.
pub fn is_text_before(a: &str, b: &str) -> (before: bool)
    ensures
        before == text_before(a@, b@),
{
    let a_length = a.unicode_len();
    let b_length = b.unicode_len();
    let mut i: usize = 0;
    assert(a@.skip(0) =~= a@ && b@.skip(0) =~= b@);
    loop
        invariant
            i <= a_length,
            i <= b_length,
            a_length == a@.len(),
            b_length == b@.len(),
            text_before(a@, b@) == text_before(a@.skip(i as int), b@.skip(i as int)),
        decreases a_length - i,
    {
        if i >= b_length {
            assert(b@.skip(i as int).len() == 0);
            return false;
        }
        if i >= a_length {
            assert(a@.skip(i as int).len() == 0);
            return true;
        }
        let x = a.get_char(i);
        let y = b.get_char(i);
        assert(a@.skip(i as int)[0] == x && b@.skip(i as int)[0] == y);
        if x != y {
            return (x as u32) < (y as u32);
        }
        proof {
            assert(a@.skip(i as int).drop_first() =~= a@.skip(i + 1));
            assert(b@.skip(i as int).drop_first() =~= b@.skip(i + 1));
        }
        i = i + 1;
    }
}

/// The number that a text of decimal digits, with a `+` before it or not, stands for;
/// `None` where the text is not of that form or the number does not fit 32 bits.
pub open spec fn parsed_u32(text: Seq<char>) -> Option<u32> {
    let digits = if text.len() > 0 && text[0] == '+' {
        text.drop_first()
    } else {
        text
    };
    if digits.len() == 0 || !all_digits(digits) || digits_value(digits) > u32::MAX {
        None
    } else {
        Some(digits_value(digits) as u32)
    }
}

/// Whether every character is a decimal digit.
pub open spec fn all_digits(text: Seq<char>) -> bool {
    forall|i: int| 0 <= i < text.len() ==> '0' <= #[trigger] text[i] <= '9'
}

/// The number that a text of decimal digits stands for.
pub open spec fn digits_value(text: Seq<char>) -> nat
    decreases text.len(),
{
    if text.len() == 0 {
        0
    } else {
        digits_value(text.drop_last()) * 10 + ((text.last() as u32) - ('0' as u32)) as nat
    }
}

proof fn lemma_digits_value_grows(text: Seq<char>, n: int)
    requires
        0 <= n <= text.len(),
        all_digits(text),
    ensures
        digits_value(text.take(n)) <= digits_value(text),
    decreases text.len() - n,
{
    if n < text.len() {
        lemma_digits_value_grows(text, n + 1);
        assert(text.take(n + 1).drop_last() =~= text.take(n));
        assert('0' <= text[n] <= '9');
    } else {
        assert(text.take(n) =~= text);
    }
}

/// Reads `chars[from..to]` as a number.
pub fn parse_u32(chars: &Vec<char>, from: usize, to: usize) -> (number: Option<u32>)
    requires
        from <= to <= chars@.len(),
    ensures
        number == parsed_u32(chars@.subrange(from as int, to as int)),
{
    let ghost text = chars@.subrange(from as int, to as int);
    let start = if from < to && chars[from] == '+' {
        from + 1
    } else {
        from
    };
    let ghost digits = chars@.subrange(start as int, to as int);
    proof {
        if start > from {
            assert(text[0] == '+');
            assert(text.drop_first() =~= digits);
        } else {
            assert(text =~= digits);
            if text.len() > 0 {
                assert(text[0] == chars@[from as int]);
            }
        }
    }
    assert(parsed_u32(text) == if digits.len() == 0 || !all_digits(digits) || digits_value(digits)
        > u32::MAX {
        None
    } else {
        Some(digits_value(digits) as u32)
    });
    if start == to {
        return None;
    }
    let mut value: u64 = 0;
    let mut i: usize = start;
    assert(digits.take(0) =~= Seq::<char>::empty());
    while i < to
        invariant
            start <= i <= to <= chars@.len(),
            start < to,
            text == chars@.subrange(from as int, to as int),
            parsed_u32(text) == if digits.len() == 0 || !all_digits(digits) || digits_value(
                digits,
            ) > u32::MAX {
                None
            } else {
                Some(digits_value(digits) as u32)
            },
            digits == chars@.subrange(start as int, to as int),
            all_digits(digits.take(i - start)),
            value == digits_value(digits.take(i - start)),
            value <= u32::MAX,
        decreases to - i,
    {
        let c = chars[i];
        assert(digits[i - start] == c);
        if c < '0' || c > '9' {
            assert(!all_digits(digits));
            return None;
        }
        let digit = (c as u32 - '0' as u32) as u64;
        proof {
            assert(digits.take(i - start + 1).drop_last() =~= digits.take(i - start));
            assert(digits.take(i - start + 1).last() == c);
            assert forall|j: int| 0 <= j < i - start + 1 implies '0' <= #[trigger] digits.take(
                i - start + 1,
            )[j] <= '9' by {
                if j < i - start {
                    assert(digits.take(i - start)[j] == digits.take(i - start + 1)[j]);
                }
            }
        }
        let next = value * 10 + digit;
        if next > u32::MAX as u64 {
            proof {
                if all_digits(digits) {
                    lemma_digits_value_grows(digits, i - start + 1);
                }
            }
            return None;
        }
        value = next;
        i = i + 1;
    }
    assert(digits.take(to - start) =~= digits);
    Some(value as u32)
}

/// A text in lower case, as `str::to_lowercase` gives it.
pub uninterp spec fn lowercase_of(text: Seq<char>) -> Seq<char>;

/// Puts a text in lower case with `str::to_lowercase`.
#[verifier::external_body]
pub(crate) fn to_lowercase(text: &str) -> (lower: String)
    ensures
        lower@ == lowercase_of(text@),
{
    text.to_lowercase()
}

/// Whether two texts are the same.
pub fn same_text(a: &str, b: &str) -> (same: bool)
    ensures
        same == (a@ == b@),
{
    let length = a.unicode_len();
    if length != b.unicode_len() {
        return false;
    }
    let mut i: usize = 0;
    while i < length
        invariant
            i <= length,
            length == a@.len(),
            length == b@.len(),
            forall|j: int| 0 <= j < i ==> a@[j] == b@[j],
        decreases length - i,
    {
        if a.get_char(i) != b.get_char(i) {
            return false;
        }
        i = i + 1;
    }
    assert(a@ =~= b@);
    true
}

/// Whether `needle` stands somewhere in `text`.
pub open spec fn contains_text(text: Seq<char>, needle: Seq<char>) -> bool {
    exists|at: int|
        0 <= at <= text.len() - needle.len() && #[trigger] text.subrange(
            at,
            at + needle.len(),
        ) == needle
}

/// Whether `needle` stands somewhere in `text`.
pub fn text_contains(text: &str, needle: &str) -> (found: bool)
    ensures
        found == contains_text(text@, needle@),
{
    let chars = chars_of(text);
    let length = chars.len();
    let width = needle.unicode_len();
    if width > length {
        return false;
    }
    let mut at: usize = 0;
    while at <= length - width
        invariant
            width <= length,
            length == chars@.len(),
            width == needle@.len(),
            chars@ == text@,
            at <= length - width + 1,
            forall|j: int| 0 <= j < at ==> #[trigger] text@.subrange(j, j + needle@.len())
                != needle@,
        decreases length - width + 1 - at,
    {
        if part_starts_with(&chars, at, length, needle) {
            proof {
                let rest = chars@.subrange(at as int, length as int);
                assert(rest.subrange(0, width as int) =~= text@.subrange(
                    at as int,
                    at + needle@.len(),
                ));
            }
            return true;
        }
        proof {
            let rest = chars@.subrange(at as int, length as int);
            assert(rest.subrange(0, width as int) =~= text@.subrange(
                at as int,
                at + needle@.len(),
            ));
        }
        at = at + 1;
    }
    false
}

} // verus!



