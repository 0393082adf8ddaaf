//! Text helpers: comparison, and hexadecimal and decimal numerals.

use vstd::prelude::*;
use vstd::string::*;

verus! {

/// Whether two strings hold the same characters.
pub fn same_text(a: &str, b: &str) -> (same: bool)
    ensures
        same == (a@ == b@),
{
    a.to_owned() == b.to_owned()
}

/// The character of a decimal digit.
pub open spec fn digit_char(digit: int) -> char {
    ('0' as int + digit) as char
}

/// The character of a hexadecimal digit.
pub open spec fn hex_char(digit: int, upper: bool) -> char {
    if digit < 10 {
        digit_char(digit)
    } else if upper {
        ('A' as int + (digit - 10)) as char
    } else {
        ('a' as int + (digit - 10)) as char
    }
}

/// Two hexadecimal digits.
pub open spec fn hex2(value: u8, upper: bool) -> Seq<char> {
    seq![hex_char((value / 16) as int, upper), hex_char((value % 16) as int, upper)]
}

/// Four hexadecimal digits.
pub open spec fn hex4(value: u16, upper: bool) -> Seq<char> {
    hex2((value / 256) as u8, upper) + hex2((value % 256) as u8, upper)
}

/// The decimal numeral, without leading zeros.
pub open spec fn decimal(value: nat) -> Seq<char>
    decreases value,
{
    if value < 10 {
        seq![digit_char(value as int)]
    } else {
        decimal(value / 10).push(digit_char((value % 10) as int))
    }
}

/// The decimal numeral with its sign written out, also where it is plus.
pub open spec fn signed_decimal(value: int) -> Seq<char> {
    if value < 0 {
        seq!['-'] + decimal((-value) as nat)
    } else {
        seq!['+'] + decimal(value as nat)
    }
}

/// One hexadecimal digit as text.
fn hex_digit_text(digit: u8, upper: bool) -> (text: &'static str)
    requires
        digit < 16,
    ensures
        text@ == seq![hex_char(digit as int, upper)],
{
    proof {
        reveal_strlit("0");
        reveal_strlit("1");
        reveal_strlit("2");
        reveal_strlit("3");
        reveal_strlit("4");
        reveal_strlit("5");
        reveal_strlit("6");
        reveal_strlit("7");
        reveal_strlit("8");
        reveal_strlit("9");
        reveal_strlit("A");
        reveal_strlit("B");
        reveal_strlit("C");
        reveal_strlit("D");
        reveal_strlit("E");
        reveal_strlit("F");
        reveal_strlit("a");
        reveal_strlit("b");
        reveal_strlit("c");
        reveal_strlit("d");
        reveal_strlit("e");
        reveal_strlit("f");
    }
    let text: &'static str = match (digit, upper) {
        (0, _) => "0",
        (1, _) => "1",
        (2, _) => "2",
        (3, _) => "3",
        (4, _) => "4",
        (5, _) => "5",
        (6, _) => "6",
        (7, _) => "7",
        (8, _) => "8",
        (9, _) => "9",
        (10, true) => "A",
        (11, true) => "B",
        (12, true) => "C",
        (13, true) => "D",
        (14, true) => "E",
        (_, true) => "F",
        (10, false) => "a",
        (11, false) => "b",
        (12, false) => "c",
        (13, false) => "d",
        (14, false) => "e",
        (_, false) => "f",
    };
    assert(text@ =~= seq![hex_char(digit as int, upper)]);
    text
}

/// Two hexadecimal digits as text.
pub fn hex2_text(value: u8, upper: bool) -> (text: String)
    ensures
        text@ == hex2(value, upper),
{
    let mut text: String = hex_digit_text(value / 16, upper).to_owned();
    text.append(hex_digit_text(value % 16, upper));
    assert(text@ =~= hex2(value, upper));
    text
}

/// Four hexadecimal digits as text.
pub fn hex4_text(value: u16, upper: bool) -> (text: String)
    ensures
        text@ == hex4(value, upper),
{
    let mut text: String = hex2_text((value / 256) as u8, upper);
    let low: String = hex2_text((value % 256) as u8, upper);
    text.append(low.as_str());
    text
}

/// The decimal numeral as text.
pub fn decimal_text(value: u64) -> (text: String)
    ensures
        text@ == decimal(value as nat),
    decreases value,
{
    if value < 10 {
        hex_digit_text(value as u8, false).to_owned()
    } else {
        let mut text: String = decimal_text(value / 10);
        text.append(hex_digit_text((value % 10) as u8, false));
        assert(text@ =~= decimal(value as nat));
        text
    }
}

/// The decimal numeral with its sign as text.
pub fn signed_decimal_text(value: i8) -> (text: String)
    ensures
        text@ == signed_decimal(value as int),
{
    proof {
        reveal_strlit("-");
        reveal_strlit("+");
    }
    let wide: i16 = value as i16;
    let (sign, magnitude): (&str, u64) = if wide < 0 {
        ("-", (-wide) as u64)
    } else {
        ("+", wide as u64)
    };
    let mut text: String = sign.to_owned();
    let digits: String = decimal_text(magnitude);
    text.append(digits.as_str());
    assert(text@ =~= signed_decimal(value as int));
    text
}

/// Two pieces of text, one behind the other.
pub fn joined(first: &str, second: &str) -> (text: String)
    ensures
        text@ == first@ + second@,
{
    let mut text: String = first.to_owned();
    text.append(second);
    text
}

/// Three pieces of text, one behind the other.
pub fn joined3(first: &str, second: &str, third: &str) -> (text: String)
    ensures
        text@ == first@ + second@ + third@,
{
    let mut text: String = first.to_owned();
    text.append(second);
    text.append(third);
    text
}

/// Whether some text holds other text.
pub open spec fn holds_text(text: Seq<char>, wanted: Seq<char>) -> bool {
    exists|start: int| #[trigger] text_at(text, start, wanted)
}

/// Whether some text holds other text at a place.
pub open spec fn text_at(text: Seq<char>, start: int, wanted: Seq<char>) -> bool {
    &&& 0 <= start
    &&& start + wanted.len() <= text.len()
    &&& text.subrange(start, start + wanted.len()) == wanted
}

/// The characters of a text.
pub fn characters(text: &str) -> (chars: Vec<char>)
    ensures
        chars@ == text@,
{
    let mut chars: Vec<char> = Vec::new();
    for c in source: text.chars()
        invariant
            source.seq() == text@,
            chars@ == text@.take(source.index()),
    {
        chars.push(c);
        assert(chars@ =~= text@.take(source.index() + 1));
    }
    assert(chars@ =~= text@);
    chars
}

/// Whether some text holds other text.
pub fn contains_text(text: &Vec<char>, wanted: &str) -> (found: bool)
    ensures
        found == holds_text(text@, wanted@),
{
    let pattern: Vec<char> = characters(wanted);
    if pattern.len() > text.len() {
        assert forall|start: int| !#[trigger] text_at(text@, start, wanted@) by {}
        return false;
    }
    let len: usize = text.len();
    let last: usize = len - pattern.len();
    let mut start: usize = 0;
    while start <= last
        invariant
            pattern@ == wanted@,
            len == text@.len(),
            last == len - pattern@.len(),
            start <= last + 1,
            forall|i: int| 0 <= i < start ==> !#[trigger] text_at(text@, i, wanted@),
        decreases last + 1 - start,
    {
        let mut i: usize = 0;
        while i < pattern.len() && text[start + i] == pattern[i]
            invariant
                start <= last,
                len == text@.len(),
                last == len - pattern@.len(),
                i <= pattern@.len(),
                forall|j: int| 0 <= j < i ==> text@[start + j] == pattern@[j],
            decreases pattern@.len() - i,
        {
            i = i + 1;
        }
        if i == pattern.len() {
            assert(text@.subrange(start as int, start + wanted@.len()) =~= wanted@);
            assert(text_at(text@, start as int, wanted@));
            return true;
        }
        proof {
            let part = text@.subrange(start as int, start + wanted@.len());
            assert(part[i as int] != wanted@[i as int]);
            assert(!text_at(text@, start as int, wanted@));
        }
        start = start + 1;
    }
    assert forall|i: int| !#[trigger] text_at(text@, i, wanted@) by {
        if 0 <= i < start {
        }
    }
    false
}

/// The characters that count as white space.
pub open spec fn is_white_space(c: char) -> bool {
    let code = c as int;
    ||| 0x09 <= code <= 0x0D
    ||| code == 0x20
    ||| code == 0x85
    ||| code == 0xA0
    ||| code == 0x1680
    ||| 0x2000 <= code <= 0x200A
    ||| code == 0x2028
    ||| code == 0x2029
    ||| code == 0x202F
    ||| code == 0x205F
    ||| code == 0x3000
}

fn white_space(c: char) -> (white: bool)
    ensures
        white == is_white_space(c),
{
    let code: u32 = c as u32;
    matches!(
        code,
        0x09..=0x0D | 0x20 | 0x85 | 0xA0 | 0x1680 | 0x2000..=0x200A | 0x2028 | 0x2029 | 0x202F
            | 0x205F | 0x3000
    )
}

/// Text without the white space at its begin.
pub open spec fn trimmed_start(text: Seq<char>) -> Seq<char>
    decreases text.len(),
{
    if text.len() > 0 && is_white_space(text[0]) {
        trimmed_start(text.drop_first())
    } else {
        text
    }
}

/// Text without the white space at its end.
pub open spec fn trimmed_end(text: Seq<char>) -> Seq<char>
    decreases text.len(),
{
    if text.len() > 0 && is_white_space(text.last()) {
        trimmed_end(text.drop_last())
    } else {
        text
    }
}

/// Text without the white space around it.
pub fn trim_text(text: &str) -> (trimmed: String)
    ensures
        trimmed@ == trimmed_end(trimmed_start(text@)),
{
    let chars: Vec<char> = characters(text);
    let mut start: usize = 0;
    assert(text@.skip(0) =~= text@);
    while start < chars.len() && white_space(chars[start])
        invariant
            chars@ == text@,
            start <= chars@.len(),
            trimmed_start(text@) == trimmed_start(text@.skip(start as int)),
        decreases chars@.len() - start,
    {
        assert(text@.skip(start as int).drop_first() =~= text@.skip(start + 1));
        start = start + 1;
    }
    let ghost left = text@.skip(start as int);
    assert(trimmed_start(text@) == left);
    let mut end: usize = chars.len();
    assert(text@.subrange(start as int, end as int) =~= left);
    while end > start && white_space(chars[end - 1])
        invariant
            chars@ == text@,
            start <= end <= chars@.len(),
            trimmed_end(left) == trimmed_end(text@.subrange(start as int, end as int)),
        decreases end,
    {
        assert(text@.subrange(start as int, end as int).drop_last() =~= text@.subrange(
            start as int,
            end - 1,
        ));
        end = end - 1;
    }
    assert(trimmed_end(left) == text@.subrange(start as int, end as int));
    text.substring_char(start, end).to_owned()
}

} // verus!
