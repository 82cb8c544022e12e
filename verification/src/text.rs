//! Text helpers: decimal numerals, joining, and comparison.
//!
//! A string is modelled by its sequence of characters. Everything the recovery
//! protocol writes into an environment variable, a file name or a diagnostic is
//! put together from the functions here, so their contracts fix each character.

use vstd::prelude::*;

verus! {

/// `String::push` appends one character and leaves the rest of the string alone.
pub assume_specification[ String::push ](text: &mut String, c: char)
    ensures
        final(text)@ == old(text)@.push(c),
;

/// The value inside an `Option`, seen through its own view.
pub open spec fn opt<T: View>(value: Option<T>) -> Option<T::V> {
    match value {
        Some(inner) => Some(inner@),
        None => None,
    }
}

/// The strings of a list, each seen through its characters.
pub open spec fn texts(list: Seq<String>) -> Seq<Seq<char>> {
    list.map_values(|s: String| s@)
}

/// Whether two strings hold the same characters.
pub fn same_text(a: &str, b: &str) -> (same: bool)
    ensures
        same == (a@ == b@),
{
    a.to_owned() == b.to_owned()
}

/// An owned copy of an optional string.
pub fn copy_opt(value: &Option<String>) -> (copy: Option<String>)
    ensures
        copy == *value,
{
    match value {
        Some(text) => Some(text.clone()),
        None => None,
    }
}

/// `prefix` followed by `detail`.
pub fn labelled(prefix: &str, detail: &str) -> (text: String)
    ensures
        text@ == prefix@ + detail@,
{
    prefix.to_owned().concat(detail)
}

/// What two lists hold together is what either holds.
pub proof fn lemma_in_either<T>(first: Seq<T>, second: Seq<T>, item: T)
    ensures
        (first + second).contains(item) <==> first.contains(item) || second.contains(item),
{
    let both = first + second;
    if both.contains(item) {
        let i = choose|i: int| 0 <= i < both.len() && both[i] == item;
        if i < first.len() {
            assert(first[i] == item);
        } else {
            assert(second[i - first.len()] == item);
        }
    }
    if first.contains(item) {
        let i = choose|i: int| 0 <= i < first.len() && first[i] == item;
        assert(both[i] == item);
    }
    if second.contains(item) {
        let i = choose|i: int| 0 <= i < second.len() && second[i] == item;
        assert(both[first.len() + i] == item);
    }
}

// ── Joining ─────────────────────────────────────────────────────────────────

/// The parts in order, with `separator` between each two neighbours.
pub open spec fn joined(parts: Seq<Seq<char>>, separator: Seq<char>) -> Seq<char>
    decreases parts.len(),
{
    if parts.len() == 0 {
        Seq::empty()
    } else if parts.len() == 1 {
        parts[0]
    } else {
        joined(parts.drop_last(), separator) + separator + parts.last()
    }
}

/// Join `parts` with `separator` between each two neighbours.
pub fn join(parts: &Vec<String>, separator: &str) -> (text: String)
    ensures
        text@ == joined(texts(parts@), separator@),
{
    let mut text = String::new();
    let mut i: usize = 0;
    while i < parts.len()
        invariant
            i <= parts.len(),
            text@ == joined(texts(parts@).take(i as int), separator@),
        decreases parts.len() - i,
    {
        if i > 0 {
            text.append(separator);
        }
        text.append(parts[i].as_str());
        proof {
            let all = texts(parts@);
            assert(all.take(i + 1).drop_last() =~= all.take(i as int));
            assert(all.take(i + 1).last() == parts[i as int]@);
            if i == 0 {
                assert(text@ =~= parts[0]@);
            }
        }
        i = i + 1;
    }
    assert(texts(parts@).take(i as int) =~= texts(parts@));
    text
}

// ── Decimal numerals ────────────────────────────────────────────────────────

/// The decimal digit for a value below ten.
pub open spec fn digit(value: int) -> char {
    if value == 0 {
        '0'
    } else if value == 1 {
        '1'
    } else if value == 2 {
        '2'
    } else if value == 3 {
        '3'
    } else if value == 4 {
        '4'
    } else if value == 5 {
        '5'
    } else if value == 6 {
        '6'
    } else if value == 7 {
        '7'
    } else if value == 8 {
        '8'
    } else {
        '9'
    }
}

/// Whether a character is an ASCII decimal digit.
pub open spec fn is_digit(c: char) -> bool {
    '0' <= c && c <= '9'
}

/// The value of an ASCII decimal digit.
pub open spec fn digit_value(c: char) -> int {
    c as int - '0' as int
}

/// The decimal numeral of `value`, without leading zeros.
pub open spec fn numeral(value: nat) -> Seq<char>
    decreases value,
{
    if value < 10 {
        seq![digit(value as int)]
    } else {
        numeral(value / 10).push(digit((value % 10) as int))
    }
}

/// The number that a run of decimal digits denotes.
pub open spec fn digits_value(text: Seq<char>) -> int
    decreases text.len(),
{
    if text.len() == 0 {
        0
    } else {
        digits_value(text.drop_last()) * 10 + digit_value(text.last())
    }
}

/// Whether `text` is a non-empty run of decimal digits.
pub open spec fn all_digits(text: Seq<char>) -> bool {
    text.len() > 0 && forall|i: int| 0 <= i < text.len() ==> is_digit(#[trigger] text[i])
}

/// What follows an optional leading `+`.
pub open spec fn unsigned_part(text: Seq<char>) -> Seq<char> {
    if text.len() > 0 && text[0] == '+' {
        text.skip(1)
    } else {
        text
    }
}

/// The 32-bit number that `text` denotes: an optional `+`, then one or more
/// decimal digits, in range.
pub open spec fn parsed_u32(text: Seq<char>) -> Option<u32> {
    let part = unsigned_part(text);
    if all_digits(part) && digits_value(part) <= u32::MAX {
        Some(digits_value(part) as u32)
    } else {
        None
    }
}

fn digit_char(value: usize) -> (c: char)
    requires
        value < 10,
    ensures
        c == digit(value as int),
{
    match value {
        0 => '0',
        1 => '1',
        2 => '2',
        3 => '3',
        4 => '4',
        5 => '5',
        6 => '6',
        7 => '7',
        8 => '8',
        _ => '9',
    }
}

/// The decimal numeral of `value`.
pub fn decimal(value: usize) -> (text: String)
    ensures
        text@ == numeral(value as nat),
    decreases value,
{
    if value < 10 {
        let mut text = String::new();
        text.push(digit_char(value));
        assert(text@ =~= numeral(value as nat));
        text
    } else {
        let mut text = decimal(value / 10);
        text.push(digit_char(value % 10));
        text
    }
}

/// Read a 32-bit number the way `str::parse::<u32>` does.
pub fn parse_u32(text: &str) -> (number: Option<u32>)
    ensures
        number == parsed_u32(text@),
{
    let len: usize = text.unicode_len();
    let start: usize = if len > 0 && text.get_char(0) == '+' { 1 } else { 0 };
    let ghost part = unsigned_part(text@);
    assert(part =~= text@.skip(start as int));
    if start == len {
        return None;
    }
    let mut value: u64 = 0;
    let mut i: usize = start;
    while i < len
        invariant
            start <= i <= len,
            start < len,
            len == text@.len(),
            part == text@.skip(start as int),
            forall|k: int| 0 <= k < i - start ==> is_digit(#[trigger] part[k]),
            value == digits_value(part.take(i - start)),
            value <= u32::MAX,
            part == unsigned_part(text@),
        decreases len - i,
    {
        let c: char = text.get_char(i);
        let ghost k = i - start;
        assert(c == part[k]);
        if !(c >= '0' && c <= '9') {
            assert(!is_digit(part[k]));
            return None;
        }
        let d: u64 = (c as u32 - '0' as u32) as u64;
        assert(part.take(k + 1).drop_last() =~= part.take(k));
        value = value * 10 + d;
        if value > 0xffff_ffff {
            proof {
                lemma_digits_grow(part, k + 1);
            }
            return None;
        }
        i = i + 1;
    }
    assert(part.take(len - start) =~= part);
    Some(value as u32)
}

/// A longer run of digits denotes at least as much as any of its beginnings.
proof fn lemma_digits_grow(text: Seq<char>, count: int)
    requires
        0 <= count <= text.len(),
    ensures
        all_digits(text) ==> digits_value(text.take(count)) <= digits_value(text),
    decreases text.len() - count,
{
    if all_digits(text) {
        if count < text.len() {
            lemma_digits_grow(text, count + 1);
            assert(text.take(count + 1).drop_last() =~= text.take(count));
            assert(is_digit(text[count]));
            lemma_digits_nonnegative(text.take(count));
        } else {
            assert(text.take(count) =~= text);
        }
    }
}

proof fn lemma_digits_nonnegative(text: Seq<char>)
    requires
        forall|i: int| 0 <= i < text.len() ==> is_digit(#[trigger] text[i]),
    ensures
        digits_value(text) >= 0,
    decreases text.len(),
{
    if text.len() > 0 {
        lemma_digits_nonnegative(text.drop_last());
        assert(is_digit(text[text.len() - 1]));
    }
}

/// A numeral is a non-empty run of digits that denotes its number.
pub proof fn lemma_numeral(value: nat)
    ensures
        all_digits(numeral(value)),
        digits_value(numeral(value)) == value,
    decreases value,
{
    let text = numeral(value);
    if value < 10 {
        assert(digits_value(text.drop_last()) == 0);
        assert(is_digit(text[0]));
    } else {
        lemma_numeral(value / 10);
        assert(text.drop_last() =~= numeral(value / 10));
        assert(is_digit(text.last()));
        assert forall|i: int| 0 <= i < text.len() implies is_digit(#[trigger] text[i]) by {
            if i < text.len() - 1 {
                assert(text[i] == numeral(value / 10)[i]);
            }
        }
    }
}

/// Reading back the numeral of a 32-bit number gives that number.
pub proof fn numerals_round_trip(value: u32)
    ensures
        parsed_u32(numeral(value as nat)) == Some(value),
{
    lemma_numeral(value as nat);
    assert(is_digit(numeral(value as nat)[0]));
}

// ── Laws of texts ───────────────────────────────────────────────────────────

/// Whether `piece` stands somewhere in `text`, whole.
pub open spec fn says(text: Seq<char>, piece: Seq<char>) -> bool {
    exists|front: Seq<char>, back: Seq<char>| text == #[trigger] (front + piece + back)
}

/// A text that is put together around a piece says it.
pub proof fn lemma_says(front: Seq<char>, piece: Seq<char>, back: Seq<char>)
    ensures
        says(front + piece + back, piece),
{
}

/// What a part of a text says, the text says.
pub proof fn lemma_says_within(
    front: Seq<char>,
    part: Seq<char>,
    back: Seq<char>,
    piece: Seq<char>,
)
    requires
        says(part, piece),
    ensures
        says(front + part + back, piece),
{
    let (before, behind) = choose|before: Seq<char>, behind: Seq<char>|
        part == #[trigger] (before + piece + behind);
    assert(front + part + back =~= (front + before) + piece + (behind + back));
}

/// Joining goes part by part: nothing gives an empty text, one part gives itself,
/// and one more part follows a separator.
pub proof fn joining_goes_part_by_part(
    parts: Seq<Seq<char>>,
    part: Seq<char>,
    separator: Seq<char>,
)
    ensures
        joined(Seq::empty(), separator) == Seq::<char>::empty(),
        joined(seq![part], separator) == part,
        parts.len() > 0 ==> joined(parts.push(part), separator) == joined(parts, separator)
            + separator + part,
{
    assert(parts.push(part).drop_last() =~= parts);
}

/// A joined text says each of its parts.
pub proof fn joined_texts_say_their_parts(
    parts: Seq<Seq<char>>,
    separator: Seq<char>,
    i: int,
)
    requires
        0 <= i < parts.len(),
    ensures
        says(joined(parts, separator), parts[i]),
    decreases parts.len(),
{
    let nothing = Seq::<char>::empty();
    if parts.len() == 1 {
        assert(parts[0] =~= nothing + parts[0] + nothing);
        lemma_says(nothing, parts[0], nothing);
    } else {
        let rest = joined(parts.drop_last(), separator);
        if i == parts.len() - 1 {
            assert(rest + separator + parts.last() =~= (rest + separator) + parts.last() + nothing);
            lemma_says(rest + separator, parts.last(), nothing);
        } else {
            joined_texts_say_their_parts(parts.drop_last(), separator, i);
            assert(parts.drop_last()[i] == parts[i]);
            assert(rest + separator + parts.last() =~= nothing + rest + (separator
                + parts.last()));
            lemma_says_within(nothing, rest, separator + parts.last(), parts[i]);
        }
    }
}

/// A numeral is written without leading zeros, one digit for each power of ten.
pub proof fn numerals_are_short(value: nat)
    ensures
        value > 0 ==> numeral(value)[0] != '0',
        value < 10 ==> numeral(value).len() == 1,
        value >= 10 ==> numeral(value).len() == numeral(value / 10).len() + 1,
    decreases value,
{
    if value >= 10 {
        numerals_are_short(value / 10);
        lemma_numeral(value / 10);
        assert(numeral(value)[0] == numeral(value / 10)[0]);
    }
}

/// Numbers are read digit by digit: one digit is its value, and each further one
/// counts for a tenth of what stands before it. What is too large for 32 bits, and
/// what has anything but a digit in it, is no number, but for one leading `+`.
pub proof fn numbers_are_read_digit_by_digit(text: Seq<char>, c: char)
    ensures
        parsed_u32(Seq::empty()) is None,
        parsed_u32(seq![c]) == (if '0' <= c <= '9' {
            Some((c as int - '0' as int) as u32)
        } else {
            None
        }),
        parsed_u32(text) matches Some(number) ==> parsed_u32(text.push(c)) == (if '0' <= c <= '9'
            && number * 10 + (c as int - '0' as int) <= u32::MAX {
            Some((number * 10 + (c as int - '0' as int)) as u32)
        } else {
            None
        }),
        parsed_u32(text) is None && text.len() > 0 && text != seq!['+'] ==> parsed_u32(
            text.push(c),
        ) is None,
        text.len() > 0 && text[0] != '+' ==> parsed_u32(seq!['+'] + text) == parsed_u32(text),
{
    let one = seq![c];
    assert(one.drop_last() =~= Seq::<char>::empty());
    assert(one.last() == c);
    assert(digits_value(one) == digit_value(c)) by {
        assert(digits_value(one.drop_last()) == 0);
    }
    if c == '+' {
        assert(one.skip(1) =~= Seq::<char>::empty());
    } else {
        assert(one[0] == c);
        assert(all_digits(one) <==> is_digit(c));
    }
    assert((seq!['+'] + text).skip(1) =~= text);
    if text.len() > 0 {
        let part = unsigned_part(text);
        let longer = text.push(c);
        assert(longer[0] == text[0]);
        assert(unsigned_part(longer) =~= part.push(c));
        assert(part.push(c).drop_last() =~= part);
        assert(part.push(c).last() == c);
        if part.len() > 0 {
            assert(all_digits(part.push(c)) <==> all_digits(part) && is_digit(c)) by {
                if all_digits(part.push(c)) {
                    assert forall|i: int| 0 <= i < part.len() implies is_digit(
                        #[trigger] part[i],
                    ) by {
                        assert(part.push(c)[i] == part[i]);
                    }
                    assert(part.push(c)[part.len() as int] == c);
                }
            }
            if all_digits(part) {
                lemma_digits_nonnegative(part);
            }
        } else {
            assert(text =~= seq!['+']);
        }
    }
}

} // verus!
