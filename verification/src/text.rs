//! Text: numbers in it, and the pieces it falls into.

use vstd::prelude::*;

verus! {

/// The character of one decimal digit.
pub open spec fn digit(n: nat) -> char {
    (48 + n) as char
}

/// The decimal digits of a number, most significant first and without leading
/// zeros.
pub open spec fn decimal(n: nat) -> Seq<char>
    decreases n,
{
    if n < 10 {
        seq![digit(n)]
    } else {
        decimal(n / 10).push(digit(n % 10))
    }
}

/// The number that decimal digits stand for.
pub open spec fn decimal_value(digits: Seq<char>) -> nat
    decreases digits.len(),
{
    if digits.len() == 0 {
        0
    } else {
        (10 * decimal_value(digits.drop_last()) + (digits.last() as nat - 48)) as nat
    }
}

/// The digit as text.
fn digit_text(n: u32) -> (text: &'static str)
    requires
        n < 10,
    ensures
        text@ == seq![digit(n as nat)],
{
    proof {
        reveal_strlit("0");
        reveal_strlit("1");
        reveal_strlit("2");
        reveal_strlit("3");
        reveal_strlit("4");
        reveal_strlit("5");
        reveal_strlit("6");
        reveal_strlit("7");
        reveal_strlit("8");
        reveal_strlit("9");
    }
    match n {
        0 => "0",
        1 => "1",
        2 => "2",
        3 => "3",
        4 => "4",
        5 => "5",
        6 => "6",
        7 => "7",
        8 => "8",
        _ => "9",
    }
}

/// A number in decimal.
pub fn decimal_text(n: u32) -> (text: String)
    ensures
        text@ == decimal(n as nat),
    decreases n,
{
    if n < 10 {
        digit_text(n).to_owned()
    } else {
        let mut text = decimal_text(n / 10);
        text.append(digit_text(n % 10));
        proof {
            assert(decimal((n / 10) as nat) + seq![digit((n % 10) as nat)] =~= decimal(
                (n / 10) as nat,
            ).push(digit((n % 10) as nat)));
        }
        text
    }
}

/// A sentence that ends in a number.
pub fn with_number(text: &str, n: u32) -> (sentence: String)
    ensures
        sentence@ == text@ + decimal(n as nat),
{
    let mut sentence = text.to_owned();
    let number = decimal_text(n);
    sentence.append(number.as_str());
    sentence
}

/// How the standard library shows a text to programmers: in double quotes, with
/// what cannot be printed escaped.
pub uninterp spec fn quoted(text: Seq<char>) -> Seq<char>;

/// A text as `{:?}` shows it.
///
/// The `Debug` implementation of `str` in the standard library decides what is
/// escaped and how. All that is claimed of it is that it depends on the text alone.
#[verifier::external_body]
pub(crate) fn quoted_text(text: &str) -> (shown: String)
    ensures
        shown@ == quoted(text@),
{
    format!("{:?}", text)
}

/// Digits stand for the number they were written from, so two numbers never read
/// the same.
pub proof fn law_decimal_names_the_number(n: nat)
    ensures
        decimal_value(decimal(n)) == n,
    decreases n,
{
    if n < 10 {
        assert(seq![digit(n)].drop_last() =~= Seq::<char>::empty());
        reveal_with_fuel(decimal_value, 2);
    } else {
        law_decimal_names_the_number(n / 10);
        let digits = decimal(n);
        assert(digits.drop_last() =~= decimal(n / 10));
        assert(digits.last() == digit(n % 10));
    }
}

// ---------------------------------------------------------------------------
// Reading numbers
// ---------------------------------------------------------------------------

/// The value of a digit, in decimal or in hexadecimal with letters of either case.
pub open spec fn digit_value(c: char, radix: nat) -> Option<nat> {
    if '0' <= c <= '9' {
        Some((c as nat - 48) as nat)
    } else if radix == 16 && 'a' <= c <= 'f' {
        Some((c as nat - 87) as nat)
    } else if radix == 16 && 'A' <= c <= 'F' {
        Some((c as nat - 55) as nat)
    } else {
        None
    }
}

/// The value of digits.
pub open spec fn digits_value(digits: Seq<char>, radix: nat) -> Option<nat>
    decreases digits.len(),
{
    if digits.len() == 0 {
        Some(0)
    } else {
        match (digits_value(digits.drop_last(), radix), digit_value(digits.last(), radix)) {
            (Some(before), Some(digit)) => Some(before * radix + digit),
            _ => None,
        }
    }
}

/// A text without the plus sign it may start with.
pub open spec fn without_sign(text: Seq<char>) -> Seq<char> {
    if text.len() > 0 && text[0] == '+' {
        text.skip(1)
    } else {
        text
    }
}

/// The number a text stands for, where it is one and within a limit. A plus sign may
/// stand before the digits.
pub open spec fn number_in(text: Seq<char>, radix: nat, limit: nat) -> Option<nat> {
    let digits = without_sign(text);
    match digits_value(digits, radix) {
        Some(value) => if digits.len() > 0 && value <= limit {
            Some(value)
        } else {
            None
        },
        None => None,
    }
}

fn value_of_digit(c: char, radix: u32) -> (value: Option<u64>)
    requires
        radix == 10 || radix == 16,
    ensures
        match value {
            Some(value) => digit_value(c, radix as nat) == Some(value as nat) && value < radix,
            None => digit_value(c, radix as nat) is None,
        },
{
    if '0' <= c && c <= '9' {
        Some(c as u64 - 48)
    } else if radix == 16 && 'a' <= c && c <= 'f' {
        Some(c as u64 - 87)
    } else if radix == 16 && 'A' <= c && c <= 'F' {
        Some(c as u64 - 55)
    } else {
        None
    }
}

/// Read a number.
pub fn parse_number(text: &str, radix: u32, limit: u32) -> (number: Option<u32>)
    requires
        radix == 10 || radix == 16,
    ensures
        match number {
            Some(number) => number_in(text@, radix as nat, limit as nat) == Some(number as nat),
            None => number_in(text@, radix as nat, limit as nat) is None,
        },
{
    let length = text.unicode_len();
    let start: usize = if length > 0 && text.get_char(0) == '+' {
        1
    } else {
        0
    };
    if start == length {
        return None;
    }
    let ghost digits = text@.skip(start as int);
    let ghost base = radix as nat;
    proof {
        assert(digits == without_sign(text@)) by {
            assert(text@.skip(0) =~= text@);
        }
    }
    let mut value: u64 = 0;
    let mut too_large = false;
    let mut i: usize = start;
    proof {
        assert(digits.take(0) =~= Seq::<char>::empty());
    }
    while i < length
        invariant
            start <= i <= length,
            length == text@.len(),
            digits == text@.skip(start as int),
            digits == without_sign(text@),
            base == radix,
            radix == 10 || radix == 16,
            value <= 0xffff_ffff,
            digits_value(digits.take(i - start), base) is Some,
            !too_large ==> digits_value(digits.take(i - start), base) == Some(value as nat)
                && value <= limit,
            too_large ==> digits_value(digits.take(i - start), base)->Some_0 > limit,
        decreases length - i,
    {
        let c = text.get_char(i);
        proof {
            let longer = digits.take(i + 1 - start);
            assert(longer.drop_last() =~= digits.take(i - start));
            assert(longer.last() == c);
        }
        match value_of_digit(c, radix) {
            Some(digit) => {
                proof {
                    let before = digits_value(digits.take(i - start), base)->Some_0;
                    assert(before * base >= before) by (nonlinear_arith)
                        requires
                            base >= 1,
                    ;
                    assert(value * radix <= 0xffff_ffff * 16) by (nonlinear_arith)
                        requires
                            value <= 0xffff_ffff,
                            radix <= 16,
                    ;
                }
                if !too_large {
                    let next: u64 = value * radix as u64 + digit;
                    if next > limit as u64 {
                        too_large = true;
                    } else {
                        value = next;
                    }
                }
            },
            None => {
                proof {
                    lemma_no_value(digits, base, i + 1 - start);
                }
                return None;
            },
        }
        i += 1;
    }
    proof {
        assert(digits.take(digits.len() as int) =~= digits);
    }
    if too_large {
        None
    } else {
        Some(value as u32)
    }
}

proof fn lemma_no_value(digits: Seq<char>, radix: nat, count: int)
    requires
        0 <= count <= digits.len(),
        digits_value(digits.take(count), radix) is None,
    ensures
        digits_value(digits, radix) is None,
    decreases digits.len(),
{
    if count == digits.len() {
        assert(digits.take(count) =~= digits);
    } else {
        assert(digits.drop_last().take(count) =~= digits.take(count));
        lemma_no_value(digits.drop_last(), radix, count);
    }
}

/// A number written in decimal is read as that number.
pub proof fn law_decimal_is_read_back(n: nat, limit: nat)
    requires
        n <= limit,
    ensures
        number_in(decimal(n), 10, limit) == Some(n),
{
    lemma_decimal_digits(n);
}

proof fn lemma_decimal_digits(n: nat)
    ensures
        digits_value(decimal(n), 10) == Some(n),
        decimal(n).len() > 0,
        decimal(n)[0] != '+',
        forall|i: int|
            0 <= i < decimal(n).len() ==> '0' <= (#[trigger] decimal(n)[i]) && decimal(n)[i]
                <= '9',
    decreases n,
{
    if n < 10 {
        assert(seq![digit(n)].drop_last() =~= Seq::<char>::empty());
        reveal_with_fuel(digits_value, 2);
    } else {
        lemma_decimal_digits(n / 10);
        let digits = decimal(n);
        assert(digits.drop_last() =~= decimal(n / 10));
        assert(digits.last() == digit(n % 10));
        assert(digits[0] == decimal(n / 10)[0]);
        assert forall|i: int| 0 <= i < digits.len() implies '0' <= (#[trigger] digits[i])
            && digits[i] <= '9' by {
            if i < digits.len() - 1 {
                assert(digits[i] == decimal(n / 10)[i]);
            }
        }
    }
}

// ---------------------------------------------------------------------------
// Octets in hexadecimal
// ---------------------------------------------------------------------------

/// The character of one hexadecimal digit.
pub open spec fn hex_digit(n: nat) -> char {
    if n < 10 {
        (48 + n) as char
    } else {
        (87 + n) as char
    }
}

/// An octet in two hexadecimal digits.
pub open spec fn hex_octet(octet: u8) -> Seq<char> {
    seq![hex_digit((octet / 16) as nat), hex_digit((octet % 16) as nat)]
}

fn hex_digit_text(n: u8) -> (text: &'static str)
    requires
        n < 16,
    ensures
        text@ == seq![hex_digit(n as nat)],
{
    proof {
        reveal_strlit("a");
        reveal_strlit("b");
        reveal_strlit("c");
        reveal_strlit("d");
        reveal_strlit("e");
        reveal_strlit("f");
    }
    if n < 10 {
        return digit_text(n as u32);
    }
    match n {
        10 => "a",
        11 => "b",
        12 => "c",
        13 => "d",
        14 => "e",
        _ => "f",
    }
}

/// Append an octet in two hexadecimal digits.
pub fn append_hex_octet(text: &mut String, octet: u8)
    ensures
        final(text)@ == old(text)@ + hex_octet(octet),
{
    let ghost before = text@;
    text.append(hex_digit_text(octet / 16));
    text.append(hex_digit_text(octet % 16));
    proof {
        assert(text@ =~= before + hex_octet(octet));
    }
}

/// An octet written in hexadecimal is read as that octet.
pub proof fn law_hex_is_read_back(octet: u8)
    ensures
        number_in(hex_octet(octet), 16, 255) == Some(octet as nat),
{
    let text = hex_octet(octet);
    assert(text.drop_last() =~= seq![hex_digit((octet / 16) as nat)]);
    assert(seq![hex_digit((octet / 16) as nat)].drop_last() =~= Seq::<char>::empty());
    reveal_with_fuel(digits_value, 3);
}

// ---------------------------------------------------------------------------
// Pieces
// ---------------------------------------------------------------------------

/// Whether a character is white space, as Unicode has it.
pub open spec fn is_white(c: char) -> bool {
    ||| 0x9 <= c as nat <= 0xd
    ||| c as nat == 0x20 || c as nat == 0x85 || c as nat == 0xa0 || c as nat == 0x1680
    ||| 0x2000 <= c as nat <= 0x200a
    ||| c as nat == 0x2028 || c as nat == 0x2029 || c as nat == 0x202f || c as nat == 0x205f
    ||| c as nat == 0x3000
}

fn is_white_space(c: char) -> (white: bool)
    ensures
        white == is_white(c),
{
    let code = c as u32;
    (0x9 <= code && code <= 0xd) || code == 0x20 || code == 0x85 || code == 0xa0 || code == 0x1680
        || (0x2000 <= code && code <= 0x200a) || code == 0x2028 || code == 0x2029 || code == 0x202f
        || code == 0x205f || code == 0x3000
}

/// What texts read.
pub open spec fn texts_view(texts: Seq<&str>) -> Seq<Seq<char>> {
    texts.map_values(|text: &str| text@)
}

/// The runs of a text between white space.
pub open spec fn words(text: Seq<char>) -> Seq<Seq<char>>
    decreases text.len(),
{
    if text.len() == 0 {
        Seq::empty()
    } else {
        let before = words(text.drop_last());
        if is_white(text.last()) {
            before
        } else if text.len() == 1 || is_white(text[text.len() - 2]) {
            before.push(seq![text.last()])
        } else {
            before.drop_last().push(before.last().push(text.last()))
        }
    }
}

/// The parts of a text between separators; one more than there are separators.
pub open spec fn parts(text: Seq<char>, separator: char) -> Seq<Seq<char>>
    decreases text.len(),
{
    if text.len() == 0 {
        seq![Seq::empty()]
    } else {
        let before = parts(text.drop_last(), separator);
        if text.last() == separator {
            before.push(Seq::empty())
        } else {
            before.drop_last().push(before.last().push(text.last()))
        }
    }
}

/// The characters of a text.
fn chars_of(text: &str) -> (chars: Vec<char>)
    ensures
        chars@ == text@,
{
    let mut chars: Vec<char> = Vec::new();
    for c in iter: text.chars()
        invariant
            iter.seq() == text@,
            chars@ == text@.take(iter.index() as int),
    {
        chars.push(c);
        proof {
            assert(text@.take(iter.index() as int + 1) =~= text@.take(iter.index() as int).push(c));
        }
    }
    proof {
        assert(text@.take(text@.len() as int) =~= text@);
    }
    chars
}

/// Cut a text at white space.
pub fn split_words<'a>(text: &'a str) -> (found: Vec<&'a str>)
    ensures
        texts_view(found@) == words(text@),
{
    let length = text.unicode_len();
    let mut found: Vec<&'a str> = Vec::new();
    let mut start: usize = 0;
    let mut i: usize = 0;
    proof {
        assert(text@.take(0) =~= Seq::<char>::empty());
        assert(texts_view(found@) =~= Seq::<Seq<char>>::empty());
    }
    while i < length
        invariant
            start <= i <= length,
            length == text@.len(),
            start < i ==> !is_white(text@[i - 1]),
            start == i ==> i == 0 || is_white(text@[i - 1]),
            start < i ==> words(text@.take(i as int)) == texts_view(found@).push(
                text@.subrange(start as int, i as int),
            ),
            start == i ==> words(text@.take(i as int)) == texts_view(found@),
        decreases length - i,
    {
        let c = text.get_char(i);
        let ghost earlier = found@;
        proof {
            let longer = text@.take(i + 1);
            assert(longer.drop_last() =~= text@.take(i as int));
            assert(longer.last() == c);
            if i > 0 {
                assert(longer[longer.len() - 2] == text@[i - 1]);
            }
        }
        if is_white_space(c) {
            if start < i {
                let word = text.substring_char(start, i);
                found.push(word);
                proof {
                    assert(texts_view(found@) =~= texts_view(earlier).push(
                        text@.subrange(start as int, i as int),
                    ));
                }
            }
            start = i + 1;
        } else {
            proof {
                let shown = texts_view(found@);
                if start < i {
                    let word = text@.subrange(start as int, i as int);
                    assert(shown.push(word).drop_last() =~= shown);
                    assert(word.push(c) =~= text@.subrange(start as int, i + 1));
                } else {
                    assert(seq![c] =~= text@.subrange(start as int, i + 1));
                }
            }
        }
        i += 1;
    }
    proof {
        assert(text@.take(length as int) =~= text@);
    }
    if start < length {
        let ghost earlier = found@;
        let word = text.substring_char(start, length);
        found.push(word);
        proof {
            assert(texts_view(found@) =~= texts_view(earlier).push(
                text@.subrange(start as int, length as int),
            ));
        }
    }
    found
}

/// Cut a text at every separator.
pub fn split_parts<'a>(text: &'a str, separator: char) -> (found: Vec<&'a str>)
    ensures
        texts_view(found@) == parts(text@, separator),
{
    let chars = chars_of(text);
    let length = chars.len();
    let mut found: Vec<&'a str> = Vec::new();
    let mut start: usize = 0;
    let mut i: usize = 0;
    proof {
        assert(text@.take(0) =~= Seq::<char>::empty());
        assert(texts_view(found@).push(text@.subrange(0, 0)) =~= seq![Seq::<char>::empty()]);
    }
    while i < length
        invariant
            start <= i <= length,
            length == text@.len(),
            chars@ == text@,
            parts(text@.take(i as int), separator) == texts_view(found@).push(
                text@.subrange(start as int, i as int),
            ),
        decreases length - i,
    {
        let c = chars[i];
        let ghost earlier = found@;
        proof {
            let longer = text@.take(i + 1);
            assert(longer.drop_last() =~= text@.take(i as int));
            assert(longer.last() == c);
        }
        if c == separator {
            let part = text.substring_char(start, i);
            found.push(part);
            start = i + 1;
            proof {
                assert(texts_view(found@) =~= texts_view(earlier).push(part@));
                assert(text@.subrange(i + 1, i + 1) =~= Seq::<char>::empty());
            }
        } else {
            proof {
                let shown = texts_view(found@);
                let part = text@.subrange(start as int, i as int);
                assert(shown.push(part).drop_last() =~= shown);
                assert(part.push(c) =~= text@.subrange(start as int, i + 1));
            }
        }
        i += 1;
    }
    proof {
        assert(text@.take(length as int) =~= text@);
    }
    let ghost earlier = found@;
    let part = text.substring_char(start, length);
    found.push(part);
    proof {
        assert(texts_view(found@) =~= texts_view(earlier).push(part@));
    }
    found
}

/// Whether a text has characters, and none of them is white space.
pub open spec fn is_word(text: Seq<char>) -> bool {
    text.len() > 0 && forall|i: int| 0 <= i < text.len() ==> !is_white(#[trigger] text[i])
}

/// A word behind a text that is empty or ends in white space is one word more.
pub proof fn lemma_word_behind(text: Seq<char>, word: Seq<char>)
    requires
        text.len() == 0 || is_white(text.last()),
        is_word(word),
    ensures
        words(text + word) == words(text).push(word),
    decreases word.len(),
{
    let whole = text + word;
    assert(whole.last() == word.last());
    assert(!is_white(word[word.len() - 1]));
    assert(whole.drop_last() =~= text + word.drop_last());
    if word.len() == 1 {
        assert(whole.drop_last() =~= text);
        assert(seq![word.last()] =~= word);
        if text.len() > 0 {
            assert(whole[whole.len() - 2] == text.last());
        }
    } else {
        let shorter = word.drop_last();
        assert forall|i: int| 0 <= i < shorter.len() implies !is_white(#[trigger] shorter[i]) by {
            assert(shorter[i] == word[i]);
        }
        lemma_word_behind(text, shorter);
        assert(whole[whole.len() - 2] == word[word.len() - 2]);
        assert(!is_white(word[word.len() - 2]));
        assert(words(text).push(shorter).drop_last() =~= words(text));
        assert(shorter.push(word.last()) =~= word);
    }
}

/// White space behind a text adds no word.
pub proof fn lemma_space_behind(text: Seq<char>)
    ensures
        words(text.push(' ')) == words(text),
{
    assert(text.push(' ').drop_last() =~= text);
}

/// A text without separators behind a separator is one part more.
pub proof fn lemma_part_behind(text: Seq<char>, part: Seq<char>, separator: char)
    requires
        forall|i: int| 0 <= i < part.len() ==> (#[trigger] part[i]) != separator,
    ensures
        parts(text.push(separator) + part, separator) == parts(text, separator).push(part),
    decreases part.len(),
{
    let whole = text.push(separator) + part;
    if part.len() == 0 {
        assert(whole =~= text.push(separator));
        assert(whole.drop_last() =~= text);
        assert(part =~= Seq::<char>::empty());
    } else {
        let shorter = part.drop_last();
        assert forall|i: int| 0 <= i < shorter.len() implies (#[trigger] shorter[i])
            != separator by {
            assert(shorter[i] == part[i]);
        }
        lemma_part_behind(text, shorter, separator);
        assert(whole.drop_last() =~= text.push(separator) + shorter);
        assert(whole.last() == part[part.len() - 1]);
        assert(parts(text, separator).push(shorter).drop_last() =~= parts(text, separator));
        assert(shorter.push(part.last()) =~= part);
    }
}

/// A text without separators is one part.
pub proof fn lemma_one_part(part: Seq<char>, separator: char)
    requires
        forall|i: int| 0 <= i < part.len() ==> (#[trigger] part[i]) != separator,
    ensures
        parts(part, separator) == seq![part],
    decreases part.len(),
{
    if part.len() == 0 {
        assert(part =~= Seq::<char>::empty());
    } else {
        let shorter = part.drop_last();
        assert forall|i: int| 0 <= i < shorter.len() implies (#[trigger] shorter[i])
            != separator by {
            assert(shorter[i] == part[i]);
        }
        lemma_one_part(shorter, separator);
        assert(part.last() == part[part.len() - 1]);
        assert(seq![shorter].drop_last() =~= Seq::<Seq<char>>::empty());
        assert(shorter.push(part.last()) =~= part);
        assert(Seq::<Seq<char>>::empty().push(part) =~= seq![part]);
    }
}

/// The words of a text have characters, and none of them white space.
pub proof fn law_words_are_words(text: Seq<char>, index: int)
    requires
        0 <= index < words(text).len(),
    ensures
        is_word(words(text)[index]),
    decreases text.len(),
{
    if text.len() > 0 {
        let shorter = text.drop_last();
        let before = words(shorter);
        if index < before.len() {
            law_words_are_words(shorter, index);
        }
        if !is_white(text.last()) && text.len() > 1 && !is_white(text[text.len() - 2]) {
            lemma_last_word(shorter);
            if index == before.len() - 1 {
                let last = before.last();
                let longer = last.push(text.last());
                assert forall|i: int| 0 <= i < longer.len() implies !is_white(
                    #[trigger] longer[i],
                ) by {
                    if i < last.len() {
                        assert(longer[i] == last[i]);
                    }
                }
            }
        }
    }
}

proof fn lemma_last_word(text: Seq<char>)
    requires
        text.len() > 0,
        !is_white(text.last()),
    ensures
        words(text).len() > 0,
    decreases text.len(),
{
    if text.len() > 1 && !is_white(text[text.len() - 2]) {
        lemma_last_word(text.drop_last());
    }
}

} // verus!
