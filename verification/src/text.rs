//! Text pieces used in object paths and in messages.

use vstd::prelude::*;

verus! {

/// The character of one digit, lower case above nine.
pub open spec fn digit_char(digit: nat) -> char {
    if digit == 0 {
        '0'
    } else if digit == 1 {
        '1'
    } else if digit == 2 {
        '2'
    } else if digit == 3 {
        '3'
    } else if digit == 4 {
        '4'
    } else if digit == 5 {
        '5'
    } else if digit == 6 {
        '6'
    } else if digit == 7 {
        '7'
    } else if digit == 8 {
        '8'
    } else if digit == 9 {
        '9'
    } else if digit == 10 {
        'a'
    } else if digit == 11 {
        'b'
    } else if digit == 12 {
        'c'
    } else if digit == 13 {
        'd'
    } else if digit == 14 {
        'e'
    } else {
        'f'
    }
}

/// Decimal numeral of `value` without leading zeros.
pub open spec fn decimal(value: nat) -> Seq<char>
    decreases value,
{
    if value < 10 {
        seq![digit_char(value)]
    } else {
        decimal(value / 10).push(digit_char(value % 10))
    }
}

/// Lower-case hexadecimal numeral of `value` without leading zeros.
pub open spec fn hexadecimal(value: nat) -> Seq<char>
    decreases value,
{
    if value < 16 {
        seq![digit_char(value)]
    } else {
        hexadecimal(value / 16).push(digit_char(value % 16))
    }
}

/// `numeral` with zeros in front of it up to `width` characters.
pub open spec fn zero_padded(numeral: Seq<char>, width: nat) -> Seq<char> {
    let missing = if numeral.len() < width {
        (width - numeral.len()) as nat
    } else {
        0
    };
    Seq::new(missing, |i: int| '0') + numeral
}

/// The value of a hexadecimal digit.
pub open spec fn hex_digit_value(c: char) -> nat {
    if c == 'a' {
        10
    } else if c == 'b' {
        11
    } else if c == 'c' {
        12
    } else if c == 'd' {
        13
    } else if c == 'e' {
        14
    } else if c == 'f' {
        15
    } else {
        match digit_value(c) {
            Some(value) => value,
            None => 0,
        }
    }
}

/// The number that hexadecimal digits stand for.
pub open spec fn hex_value(digits: Seq<char>) -> nat
    decreases digits.len(),
{
    if digits.len() == 0 {
        0
    } else {
        16 * hex_value(digits.drop_last()) + hex_digit_value(digits.last())
    }
}

proof fn lemma_zeros_hex_value(count: nat, digits: Seq<char>)
    ensures
        hex_value(Seq::new(count, |i: int| '0') + digits) == hex_value(digits),
    decreases count + digits.len(),
{
    let zeros = Seq::new(count, |i: int| '0');
    let all = zeros + digits;
    if digits.len() > 0 {
        lemma_zeros_hex_value(count, digits.drop_last());
        assert(all.drop_last() =~= zeros + digits.drop_last());
        assert(all.last() == digits.last());
    } else if count > 0 {
        lemma_zeros_hex_value((count - 1) as nat, digits);
        assert(all.drop_last() =~= Seq::new((count - 1) as nat, |i: int| '0') + digits);
        assert(all.last() == '0');
    } else {
        assert(all =~= digits);
    }
}

proof fn lemma_hex_digit(digit: nat)
    requires
        digit < 16,
    ensures
        hex_digit_value(digit_char(digit)) == digit,
{
}

/// A hexadecimal numeral stands for its number.
pub proof fn lemma_hexadecimal_value(value: nat)
    ensures
        hex_value(hexadecimal(value)) == value,
    decreases value,
{
    if value < 16 {
        let digits = hexadecimal(value);
        assert(digits.drop_last() =~= Seq::empty());
        assert(hex_value(digits.drop_last()) == 0);
        lemma_hex_digit(value);
        assert(digits.last() == digit_char(value));
    } else {
        lemma_hexadecimal_value(value / 16);
        let digits = hexadecimal(value);
        assert(digits.drop_last() =~= hexadecimal(value / 16));
        lemma_hex_digit(value % 16);
        assert(digits.last() == digit_char(value % 16));
    }
}

/// A padded hexadecimal numeral stands for its number.
pub proof fn lemma_padded_hexadecimal_value(value: nat, width: nat)
    ensures
        hex_value(zero_padded(hexadecimal(value), width)) == value,
{
    let numeral = hexadecimal(value);
    let missing = if numeral.len() < width {
        (width - numeral.len()) as nat
    } else {
        0
    };
    lemma_hexadecimal_value(value);
    lemma_zeros_hex_value(missing, numeral);
}

/// `16` to the power of `width`.
pub open spec fn hex_limit(width: nat) -> nat
    decreases width,
{
    if width == 0 {
        1
    } else {
        16 * hex_limit((width - 1) as nat)
    }
}

proof fn lemma_hexadecimal_short(value: nat, width: nat)
    requires
        width > 0,
        value < hex_limit(width),
    ensures
        hexadecimal(value).len() <= width,
    decreases width,
{
    if value >= 16 {
        if width == 1 {
            reveal_with_fuel(hex_limit, 2);
        } else {
            lemma_hexadecimal_short(value / 16, (width - 1) as nat);
        }
    }
}

/// A 64-bit number padded to sixteen hexadecimal digits has exactly those.
pub proof fn lemma_hexadecimal_len(value: nat, width: nat)
    requires
        value <= u64::MAX,
        width == 16,
    ensures
        zero_padded(hexadecimal(value), width).len() == width,
{
    assert(hex_limit(16) == 0x1_0000_0000_0000_0000) by {
        reveal_with_fuel(hex_limit, 17);
    }
    lemma_hexadecimal_short(value, width);
}

fn digit_str(digit: u8) -> (r: &'static str)
    requires
        digit < 16,
    ensures
        r@ == seq![digit_char(digit as nat)],
{
    proof {
        reveal_strlit("0");
        reveal_strlit("1");
        reveal_strlit("2");
        reveal_strlit("3");
        reveal_strlit("4");
        reveal_strlit("5");
        reveal_strlit("6");
        reveal_strlit("7");
        reveal_strlit("8");
        reveal_strlit("9");
        reveal_strlit("a");
        reveal_strlit("b");
        reveal_strlit("c");
        reveal_strlit("d");
        reveal_strlit("e");
        reveal_strlit("f");
    }
    match digit {
        0 => "0",
        1 => "1",
        2 => "2",
        3 => "3",
        4 => "4",
        5 => "5",
        6 => "6",
        7 => "7",
        8 => "8",
        9 => "9",
        10 => "a",
        11 => "b",
        12 => "c",
        13 => "d",
        14 => "e",
        _ => "f",
    }
}

/// The decimal numeral of `value`.
pub fn decimal_text(value: u128) -> (text: String)
    ensures
        text@ == decimal(value as nat),
    decreases value,
{
    if value < 10 {
        digit_str(value as u8).to_owned()
    } else {
        let mut text = decimal_text(value / 10);
        text.append(digit_str((value % 10) as u8));
        text
    }
}

/// The hexadecimal numeral of `value`.
pub fn hexadecimal_text(value: u128) -> (text: String)
    ensures
        text@ == hexadecimal(value as nat),
    decreases value,
{
    if value < 16 {
        digit_str(value as u8).to_owned()
    } else {
        let mut text = hexadecimal_text(value / 16);
        text.append(digit_str((value % 16) as u8));
        text
    }
}

/// `numeral` padded on the left with zeros up to `width` characters.
pub fn zero_padded_text(numeral: &str, width: usize) -> (text: String)
    ensures
        text@ == zero_padded(numeral@, width as nat),
{
    let len: usize = numeral.unicode_len();
    let mut text = String::new();
    let mut missing: usize = if len < width {
        width - len
    } else {
        0
    };
    let ghost total = missing as nat;
    while missing > 0
        invariant
            missing <= total,
            text@ == Seq::new((total - missing) as nat, |i: int| '0'),
        decreases missing,
    {
        proof {
            reveal_strlit("0");
        }
        text.append("0");
        missing = missing - 1;
        assert(text@ =~= Seq::new((total - missing) as nat, |i: int| '0'));
    }
    text.append(numeral);
    text
}


// ---------------------------------------------------------------------------
// Reading
// ---------------------------------------------------------------------------

/// The value of a decimal digit.
pub open spec fn digit_value(c: char) -> Option<nat> {
    if c == '0' {
        Some(0nat)
    } else if c == '1' {
        Some(1nat)
    } else if c == '2' {
        Some(2nat)
    } else if c == '3' {
        Some(3nat)
    } else if c == '4' {
        Some(4nat)
    } else if c == '5' {
        Some(5nat)
    } else if c == '6' {
        Some(6nat)
    } else if c == '7' {
        Some(7nat)
    } else if c == '8' {
        Some(8nat)
    } else if c == '9' {
        Some(9nat)
    } else {
        None
    }
}

/// Whether every character is a decimal digit.
pub open spec fn all_digits(text: Seq<char>) -> bool {
    forall|i: int| 0 <= i < text.len() ==> digit_value(#[trigger] text[i]) is Some
}

/// The number that decimal digits stand for.
pub open spec fn numeral_value(digits: Seq<char>) -> nat
    decreases digits.len(),
{
    if digits.len() == 0 {
        0
    } else {
        10 * numeral_value(digits.drop_last()) + digit_value(digits.last())->0
    }
}

/// The digits of a numeral that may begin with a plus sign.
pub open spec fn without_plus(text: Seq<char>) -> Seq<char> {
    if text.len() > 0 && text[0] == '+' {
        text.skip(1)
    } else {
        text
    }
}

/// The number up to `max` that a text stands for: decimal digits, at least one,
/// behind an optional plus sign.
pub open spec fn parsed_number(text: Seq<char>, max: nat) -> Option<nat> {
    let digits = without_plus(text);
    if digits.len() == 0 || !all_digits(digits) || numeral_value(digits) > max {
        None
    } else {
        Some(numeral_value(digits))
    }
}

fn decimal_digit(c: char) -> (r: Option<u64>)
    ensures
        match r {
            Some(value) => digit_value(c) == Some(value as nat) && value <= 9,
            None => digit_value(c) is None,
        },
{
    match c {
        '0' => Some(0),
        '1' => Some(1),
        '2' => Some(2),
        '3' => Some(3),
        '4' => Some(4),
        '5' => Some(5),
        '6' => Some(6),
        '7' => Some(7),
        '8' => Some(8),
        '9' => Some(9),
        _ => None,
    }
}

/// A numeral is at least as great as each of its beginnings.
proof fn lemma_numeral_prefix(digits: Seq<char>, count: int)
    requires
        0 <= count <= digits.len(),
        all_digits(digits),
    ensures
        numeral_value(digits.take(count)) <= numeral_value(digits),
    decreases digits.len(),
{
    if count == digits.len() {
        assert(digits.take(count) =~= digits);
    } else {
        let front = digits.drop_last();
        assert(all_digits(front)) by {
            assert forall|i: int| 0 <= i < front.len() implies digit_value(
                #[trigger] front[i],
            ) is Some by {
                assert(front[i] == digits[i]);
            }
        }
        lemma_numeral_prefix(front, count);
        assert(front.take(count) =~= digits.take(count));
    }
}

/// The number up to `max` that `text` stands for.
#[verifier::rlimit(40)]
#[verifier::spinoff_prover]
pub fn parse_number(text: &str, max: u64) -> (r: Option<u64>)
    ensures
        match r {
            Some(value) => parsed_number(text@, max as nat) == Some(value as nat),
            None => parsed_number(text@, max as nat) is None,
        },
{
    let len: usize = text.unicode_len();
    let first: usize = if len > 0 && text.get_char(0) == '+' {
        1
    } else {
        0
    };
    let ghost digits = without_plus(text@);
    if first == len {
        return None;
    }
    let mut value: u64 = 0;
    let mut i: usize = first;
    assert(digits.take(0) =~= Seq::empty());
    while i < len
        invariant
            first <= i <= len,
            first <= 1,
            len == text@.len(),
            digits == without_plus(text@),
            digits.len() == len - first,
            0 < digits.len(),
            forall|j: int| 0 <= j < digits.len() ==> #[trigger] digits[j] == text@[j + first],
            forall|j: int| 0 <= j < i - first ==> digit_value(#[trigger] digits[j]) is Some,
            value == numeral_value(digits.take(i - first)),
            value <= max,
        decreases len - i,
    {
        assert(digits[i - first] == text@[i as int]);
        match decimal_digit(text.get_char(i)) {
            None => {
                return None;
            },
            Some(digit) => {
                proof {
                    assert(digits.take(i - first + 1).drop_last() =~= digits.take(i - first));
                    assert(digits.take(i - first + 1).last() == digits[i - first]);
                }
                if digit > max || value > (max - digit) / 10 {
                    proof {
                        if all_digits(digits) {
                            lemma_numeral_prefix(digits, i - first + 1);
                        }
                    }
                    return None;
                }
                value = 10 * value + digit;
            },
        }
        i = i + 1;
    }
    assert(digits.take(len - first) =~= digits);
    Some(value)
}

/// The `usize` that `text` stands for.
pub fn parse_usize(text: &str) -> (r: Option<usize>)
    ensures
        match r {
            Some(value) => parsed_number(text@, usize::MAX as nat) == Some(value as nat),
            None => parsed_number(text@, usize::MAX as nat) is None,
        },
{
    match parse_number(text, usize::MAX as u64) {
        Some(value) => Some(value as usize),
        None => None,
    }
}

/// The `u64` that `text` stands for.
pub fn parse_u64(text: &str) -> (r: Option<u64>)
    ensures
        match r {
            Some(value) => parsed_number(text@, u64::MAX as nat) == Some(value as nat),
            None => parsed_number(text@, u64::MAX as nat) is None,
        },
{
    parse_number(text, u64::MAX)
}

/// Whether a character has the Unicode property `White_Space`.
pub open spec fn is_white_space(c: char) -> bool {
    let code = c as u32;
    ||| 0x9 <= code <= 0xd
    ||| code == 0x20
    ||| code == 0x85
    ||| code == 0xa0
    ||| code == 0x1680
    ||| 0x2000 <= code <= 0x200a
    ||| code == 0x2028
    ||| code == 0x2029
    ||| code == 0x202f
    ||| code == 0x205f
    ||| code == 0x3000
}

/// Whether a text has nothing but white space.
pub open spec fn is_blank_text(text: Seq<char>) -> bool {
    forall|i: int| 0 <= i < text.len() ==> is_white_space(#[trigger] text[i])
}

/// Whether `text` has nothing but white space.
pub fn is_blank(text: &str) -> (r: bool)
    ensures
        r == is_blank_text(text@),
{
    let len: usize = text.unicode_len();
    let mut i: usize = 0;
    while i < len
        invariant
            i <= len,
            len == text@.len(),
            forall|j: int| 0 <= j < i ==> is_white_space(#[trigger] text@[j]),
        decreases len - i,
    {
        let code: u32 = text.get_char(i) as u32;
        let white = (0x9 <= code && code <= 0xd) || code == 0x20 || code == 0x85 || code == 0xa0
            || code == 0x1680 || (0x2000 <= code && code <= 0x200a) || code == 0x2028 || code
            == 0x2029 || code == 0x202f || code == 0x205f || code == 0x3000;
        assert(white == is_white_space(text@[i as int]));
        if !white {
            return false;
        }
        i = i + 1;
    }
    true
}

/// Whether two texts are the same.
pub fn same_text(left: &str, right: &str) -> (r: bool)
    ensures
        r == (left@ == right@),
{
    left.to_owned() == right.to_owned()
}

/// Whether `text` begins with `prefix`.
pub open spec fn begins_with(text: Seq<char>, prefix: Seq<char>) -> bool {
    prefix.len() <= text.len() && text.take(prefix.len() as int) == prefix
}

/// Whether `text` begins with `prefix`.
pub fn starts_with(text: &str, prefix: &str) -> (r: bool)
    ensures
        r == begins_with(text@, prefix@),
{
    let len: usize = prefix.unicode_len();
    if text.unicode_len() < len {
        return false;
    }
    let head = text.substring_char(0, len);
    assert(head@ =~= text@.take(len as int));
    same_text(head, prefix)
}

/// The ASCII lower case of a character.
pub open spec fn ascii_lower(c: char) -> char {
    if 'A' <= c && c <= 'Z' {
        ((c as u32) + 32) as char
    } else {
        c
    }
}

/// The lower case of an ASCII letter in upper case.
fn lower_letter(c: char) -> (r: Option<&'static str>)
    ensures
        match r {
            Some(letter) => letter@ == seq![ascii_lower(c)],
            None => ascii_lower(c) == c,
        },
{
    proof {
        reveal_strlit("a");
        reveal_strlit("b");
        reveal_strlit("c");
        reveal_strlit("d");
        reveal_strlit("e");
        reveal_strlit("f");
        reveal_strlit("g");
        reveal_strlit("h");
        reveal_strlit("i");
        reveal_strlit("j");
        reveal_strlit("k");
        reveal_strlit("l");
        reveal_strlit("m");
        reveal_strlit("n");
        reveal_strlit("o");
        reveal_strlit("p");
        reveal_strlit("q");
        reveal_strlit("r");
        reveal_strlit("s");
        reveal_strlit("t");
        reveal_strlit("u");
        reveal_strlit("v");
        reveal_strlit("w");
        reveal_strlit("x");
        reveal_strlit("y");
        reveal_strlit("z");
    }
    match c {
        'A' => Some("a"),
        'B' => Some("b"),
        'C' => Some("c"),
        'D' => Some("d"),
        'E' => Some("e"),
        'F' => Some("f"),
        'G' => Some("g"),
        'H' => Some("h"),
        'I' => Some("i"),
        'J' => Some("j"),
        'K' => Some("k"),
        'L' => Some("l"),
        'M' => Some("m"),
        'N' => Some("n"),
        'O' => Some("o"),
        'P' => Some("p"),
        'Q' => Some("q"),
        'R' => Some("r"),
        'S' => Some("s"),
        'T' => Some("t"),
        'U' => Some("u"),
        'V' => Some("v"),
        'W' => Some("w"),
        'X' => Some("x"),
        'Y' => Some("y"),
        'Z' => Some("z"),
        _ => None,
    }
}

/// `text` with its ASCII letters in lower case; every other character stays.
pub(crate) fn to_ascii_lowercase(text: &str) -> (r: String)
    ensures
        r@ == text@.map_values(|c: char| ascii_lower(c)),
{
    let ghost lower = text@.map_values(|c: char| ascii_lower(c));
    let len: usize = text.unicode_len();
    let mut result = String::new();
    let mut i: usize = 0;
    assert(lower.take(0) =~= Seq::empty());
    while i < len
        invariant
            i <= len,
            len == text@.len(),
            lower == text@.map_values(|c: char| ascii_lower(c)),
            result@ == lower.take(i as int),
        decreases len - i,
    {
        match lower_letter(text.get_char(i)) {
            Some(letter) => {
                result.append(letter);
            },
            None => {
                let same = text.substring_char(i, i + 1);
                assert(same@ =~= seq![text@[i as int]]);
                result.append(same);
            },
        }
        assert(lower.take(i + 1) =~= lower.take(i as int) + seq![lower[i as int]]);
        i = i + 1;
    }
    assert(lower.take(len as int) =~= lower);
    result
}

/// The decimal digits are the characters from `0` on, in the order of their codes, and no
/// others.
pub proof fn law_digits_are_in_the_order_of_their_codes(c: char)
    ensures
        digit_value(c) is Some <==> 48 <= c as u32 <= 57,
        digit_value(c) matches Some(value) ==> c as u32 == 48 + value,
        forall|digit: nat| digit < 10 ==> #[trigger] digit_char(digit) as u32 == 48 + digit,
        forall|digit: nat| 10 <= digit < 16 ==> #[trigger] digit_char(digit) as u32 == 87 + digit,
{
}

proof fn lemma_decimal_digits(value: nat)
    ensures
        all_digits(decimal(value)),
        decimal(value).len() > 0,
        numeral_value(decimal(value)) == value,
        decimal(value)[0] == '0' ==> value == 0,
        decimal(value)[0] != '+',
    decreases value,
{
    let digits = decimal(value);
    if value < 10 {
        assert(digits.drop_last() =~= Seq::empty());
        assert(numeral_value(digits.drop_last()) == 0);
        assert(digits.last() == digit_char(value));
    } else {
        lemma_decimal_digits(value / 10);
        assert(digits.drop_last() =~= decimal(value / 10));
        assert(digits.last() == digit_char(value % 10));
        assert(digits[0] == decimal(value / 10)[0]);
        assert forall|i: int| 0 <= i < digits.len() implies digit_value(
            #[trigger] digits[i],
        ) is Some by {
            if i < digits.len() - 1 {
                assert(digits[i] == decimal(value / 10)[i]);
            }
        }
    }
}

/// A number that was written down is read as the same number, with or without a plus
/// sign, as long as it is within the bound; it is written without leading zeros.
pub proof fn law_written_number_is_read_back(value: nat, max: nat)
    ensures
        value <= max ==> parsed_number(decimal(value), max) == Some(value),
        value <= max ==> parsed_number(seq!['+'] + decimal(value), max) == Some(value),
        value > max ==> parsed_number(decimal(value), max) is None,
        decimal(value)[0] == '0' ==> value == 0,
{
    lemma_decimal_digits(value);
    assert((seq!['+'] + decimal(value)).skip(1) =~= decimal(value));
    assert(without_plus(decimal(value)) == decimal(value));
}

/// What is read as a number has digits only, behind a plus sign if there is one; leading
/// zeros count for nothing.
pub proof fn law_only_digits_are_read(text: Seq<char>, max: nat)
    requires
        parsed_number(text, max) is Some,
    ensures
        parsed_number(text, max)->0 <= max,
        text.len() > 0,
        forall|i: int|
            0 < i < text.len() ==> 48 <= (#[trigger] text[i]) as u32 && text[i] as u32 <= 57,
        text[0] == '+' || 48 <= text[0] as u32 <= 57,
        text[0] == '+' ==> text.len() > 1,
{
    let digits = without_plus(text);
    assert forall|i: int| 0 < i < text.len() implies 48 <= (#[trigger] text[i]) as u32
        && text[i] as u32 <= 57 by {
        if text[0] == '+' {
            assert(digits[i - 1] == text[i]);
            law_digits_are_in_the_order_of_their_codes(digits[i - 1]);
        } else {
            assert(digits[i] == text[i]);
            law_digits_are_in_the_order_of_their_codes(digits[i]);
        }
    }
    if text[0] != '+' {
        law_digits_are_in_the_order_of_their_codes(digits[0]);
    }
}

/// A text begins with another where it goes on behind it.
pub proof fn law_beginning_is_followed_by_the_rest(prefix: Seq<char>, rest: Seq<char>)
    ensures
        begins_with(prefix + rest, prefix),
        forall|text: Seq<char>| #[trigger]
            begins_with(text, prefix) ==> text == prefix + text.subrange(
                prefix.len() as int,
                text.len() as int,
            ),
{
    assert((prefix + rest).take(prefix.len() as int) =~= prefix);
    assert forall|text: Seq<char>| #[trigger] begins_with(text, prefix) implies text == prefix
        + text.subrange(prefix.len() as int, text.len() as int) by {
        assert(text =~= text.take(prefix.len() as int) + text.subrange(
            prefix.len() as int,
            text.len() as int,
        ));
    }
}

proof fn lemma_zeros_numeral_value(count: nat, digits: Seq<char>)
    ensures
        numeral_value(Seq::new(count, |i: int| '0') + digits) == numeral_value(digits),
    decreases count + digits.len(),
{
    let zeros = Seq::new(count, |i: int| '0');
    let all = zeros + digits;
    if digits.len() > 0 {
        lemma_zeros_numeral_value(count, digits.drop_last());
        assert(all.drop_last() =~= zeros + digits.drop_last());
        assert(all.last() == digits.last());
    } else if count > 0 {
        lemma_zeros_numeral_value((count - 1) as nat, digits);
        assert(all.drop_last() =~= Seq::new((count - 1) as nat, |i: int| '0') + digits);
        assert(all.last() == '0');
    } else {
        assert(all =~= digits);
    }
}

/// `10` to the power of `width`.
spec fn decimal_limit(width: nat) -> nat
    decreases width,
{
    if width == 0 {
        1
    } else {
        10 * decimal_limit((width - 1) as nat)
    }
}

proof fn lemma_decimal_short(value: nat, width: nat)
    requires
        width > 0,
        value < decimal_limit(width),
    ensures
        decimal(value).len() <= width,
    decreases width,
{
    if value >= 10 {
        if width == 1 {
            reveal_with_fuel(decimal_limit, 2);
        } else {
            lemma_decimal_short(value / 10, (width - 1) as nat);
        }
    }
}

/// A 64-bit number padded to twenty decimal digits has exactly those, and stands for the
/// number.
pub proof fn lemma_padded_decimal(value: u64)
    ensures
        zero_padded(decimal(value as nat), 20).len() == 20,
        numeral_value(zero_padded(decimal(value as nat), 20)) == value,
{
    assert(decimal_limit(20) == 100_000_000_000_000_000_000) by {
        reveal_with_fuel(decimal_limit, 21);
    }
    let numeral = decimal(value as nat);
    lemma_decimal_short(value as nat, 20);
    lemma_decimal_digits(value as nat);
    lemma_zeros_numeral_value((20 - numeral.len()) as nat, numeral);
}

/// A numeral that is padded has at least the width, ends with the numeral, and has nothing
/// but zeros before it.
pub proof fn law_padding_puts_zeros_in_front(numeral: Seq<char>, width: nat)
    ensures
        ({
            let padded = zero_padded(numeral, width);
            let more = padded.len() - numeral.len();
            &&& padded.len() >= width
            &&& padded.len() == width || more == 0
            &&& more >= 0
            &&& padded.subrange(more, padded.len() as int) == numeral
            &&& forall|i: int| 0 <= i < more ==> #[trigger] padded[i] == '0'
        }),
{
    let padded = zero_padded(numeral, width);
    assert(padded.subrange(padded.len() - numeral.len(), padded.len() as int) =~= numeral);
}

} // verus!
