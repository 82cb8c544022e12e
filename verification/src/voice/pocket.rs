//! Pocket TTS: what is said to the engine, and what is made of its answers.

use crate::text::{joined, labelled, opt};
use vstd::prelude::*;

verus! {

// ── White space and words ───────────────────────────────────────────────────

/// The characters with Unicode's `White_Space` property.
pub open spec fn is_white(c: char) -> bool {
    ||| '\u{9}' <= c <= '\u{d}'
    ||| c == ' '
    ||| c == '\u{85}'
    ||| c == '\u{a0}'
    ||| c == '\u{1680}'
    ||| '\u{2000}' <= c <= '\u{200a}'
    ||| c == '\u{2028}'
    ||| c == '\u{2029}'
    ||| c == '\u{202f}'
    ||| c == '\u{205f}'
    ||| c == '\u{3000}'
}

/// `char::is_whitespace` tells exactly the characters with the `White_Space`
/// property of the Unicode Character Database.
pub assume_specification[ char::is_whitespace ](c: char) -> (white: bool)
    ensures
        white == is_white(c),
;

/// The words of a text: its longest runs of characters that are not white space.
pub open spec fn words(text: Seq<char>) -> Seq<Seq<char>>
    decreases text.len(),
{
    if text.len() == 0 {
        Seq::empty()
    } else {
        let before = text.drop_last();
        let c = text.last();
        if is_white(c) {
            words(before)
        } else if before.len() > 0 && !is_white(before.last()) {
            // `c` goes on with the last word.
            words(before).drop_last().push(words(before).last().push(c))
        } else {
            words(before).push(seq![c])
        }
    }
}

/// The words of a text with one space between each two.
pub open spec fn cleaned(text: Seq<char>) -> Seq<char> {
    joined(words(text), " "@)
}

/// Each word is a non-empty run without white space, and there is a word exactly
/// if some character is not white space.
proof fn lemma_words(text: Seq<char>)
    ensures
        forall|i: int| 0 <= i < words(text).len() ==> is_word(#[trigger] words(text)[i]),
        text.len() > 0 && !is_white(text.last()) ==> words(text).len() > 0,
        words(text).len() == 0 <==> forall|i: int|
            0 <= i < text.len() ==> is_white(#[trigger] text[i]),
    decreases text.len(),
{
    if text.len() > 0 {
        let before = text.drop_last();
        let c = text.last();
        lemma_words(before);
        let list = words(text);
        assert forall|i: int| 0 <= i < list.len() implies is_word(#[trigger] list[i]) by {
            if !is_white(c) && i == list.len() - 1 {
                if before.len() > 0 && !is_white(before.last()) {
                    let last = words(before).last();
                    assert(is_word(words(before)[words(before).len() - 1]));
                    assert(list[i] == last.push(c));
                } else {
                    assert(list[i] == seq![c]);
                }
            } else {
                assert(list[i] == words(before)[i]);
            }
        }
        if list.len() == 0 {
            assert forall|i: int| 0 <= i < text.len() implies is_white(#[trigger] text[i]) by {
                if i < before.len() {
                    assert(text[i] == before[i]);
                }
            }
        } else if is_white(c) {
            let i = choose|i: int| 0 <= i < before.len() && !is_white(#[trigger] before[i]);
            assert(text[i] == before[i]);
        } else {
            assert(text[text.len() - 1] == c);
        }
    }
}

/// A non-empty run of characters that are not white space.
pub open spec fn is_word(text: Seq<char>) -> bool {
    text.len() > 0 && forall|i: int| 0 <= i < text.len() ==> !is_white(#[trigger] text[i])
}

/// How one more character changes the cleaned text.
proof fn lemma_one_more(before: Seq<char>, c: char)
    ensures
        cleaned(before.push(c)) == (if is_white(c) {
            cleaned(before)
        } else if words(before).len() == 0 || (before.len() > 0 && !is_white(before.last())) {
            cleaned(before).push(c)
        } else {
            cleaned(before).push(' ').push(c)
        }),
        words(before.push(c)).len() > 0 <==> words(before).len() > 0 || !is_white(c),
{
    reveal_strlit(" ");
    lemma_words(before);
    let list = words(before);
    assert(before.push(c).drop_last() =~= before);
    if !is_white(c) {
        if before.len() > 0 && !is_white(before.last()) {
            let longer = list.drop_last().push(list.last().push(c));
            assert(words(before.push(c)) == longer);
            assert(longer.drop_last() =~= list.drop_last());
            assert(cleaned(before.push(c)) =~= cleaned(before).push(c));
        } else {
            let longer = list.push(seq![c]);
            assert(longer.drop_last() =~= list);
            if list.len() == 0 {
                assert(longer[0] == seq![c]);
                assert(cleaned(before.push(c)) =~= cleaned(before).push(c));
            } else {
                assert(cleaned(before.push(c)) =~= cleaned(before).push(' ').push(c));
            }
        }
    }
}

/// Trim a text and collapse each run of white space inside it to one space.
pub fn clean(input: &str) -> (text: String)
    ensures
        text@ == cleaned(input@),
{
    let mut text = String::new();
    let mut begun = false;
    let mut gap = true;
    assert(input@.take(0) =~= Seq::<char>::empty());
    for c in it: input.chars()
        invariant
            it.seq() == input@,
            text@ == cleaned(input@.take(it.index() as int)),
            begun == (words(input@.take(it.index() as int)).len() > 0),
            gap == (it.index() == 0 || is_white(input@[it.index() - 1])),
    {
        proof {
            let before = input@.take(it.index() as int);
            lemma_one_more(before, c);
            assert(input@.take(it.index() + 1) =~= before.push(c));
            lemma_words(before);
        }
        if c.is_whitespace() {
            gap = true;
        } else {
            if gap && begun {
                text.push(' ');
            }
            text.push(c);
            begun = true;
            gap = false;
        }
    }
    assert(input@.take(input@.len() as int) =~= input@);
    text
}

/// Count the words of a text.
pub fn count_words(text: &str) -> (count: usize)
    ensures
        count == words(text@).len(),
{
    let len: usize = text.unicode_len();
    let mut count: usize = 0;
    let mut gap = true;
    assert(text@.take(0) =~= Seq::<char>::empty());
    for c in it: text.chars()
        invariant
            it.seq() == text@,
            len == text@.len(),
            count == words(text@.take(it.index() as int)).len(),
            count <= it.index(),
            gap == (it.index() == 0 || is_white(text@[it.index() - 1])),
    {
        proof {
            let before = text@.take(it.index() as int);
            assert(text@.take(it.index() + 1) =~= before.push(c));
            assert(before.push(c).drop_last() =~= before);
            lemma_words(before);
        }
        if c.is_whitespace() {
            gap = true;
        } else {
            if gap {
                count = count + 1;
            }
            gap = false;
        }
    }
    assert(text@.take(text@.len() as int) =~= text@);
    count
}

// ── Letters ─────────────────────────────────────────────────────────────────

/// Whether a character is one of ASCII's.
pub open spec fn is_ascii(c: char) -> bool {
    c <= '\u{7f}'
}

/// Whether a character beyond ASCII has Unicode's `Lowercase` property: what
/// `char::is_lowercase` returns of it.
pub uninterp spec fn lowercase_beyond_ascii(c: char) -> bool;

/// Whether a character has Unicode's `Lowercase` property.
pub open spec fn lowercase(c: char) -> bool {
    if is_ascii(c) {
        'a' <= c <= 'z'
    } else {
        lowercase_beyond_ascii(c)
    }
}

/// `char::is_lowercase` depends on the character alone. Within ASCII the
/// `Lowercase` property belongs to the letters `a` to `z`.
pub assume_specification[ char::is_lowercase ](c: char) -> (result: bool)
    ensures
        is_ascii(c) ==> result == ('a' <= c && c <= 'z'),
        !is_ascii(c) ==> result == lowercase_beyond_ascii(c),
;

/// Whether a character beyond ASCII is a letter or a number to Unicode: what
/// `char::is_alphanumeric` returns of it.
pub uninterp spec fn alphanumeric_beyond_ascii(c: char) -> bool;

/// Whether a character is a letter or a number to Unicode.
pub open spec fn alphanumeric(c: char) -> bool {
    if is_ascii(c) {
        '0' <= c <= '9' || 'A' <= c <= 'Z' || 'a' <= c <= 'z'
    } else {
        alphanumeric_beyond_ascii(c)
    }
}

/// `char::is_alphanumeric` depends on the character alone. Within ASCII the
/// alphabetic and numeric characters are the letters and the digits.
pub assume_specification[ char::is_alphanumeric ](c: char) -> (result: bool)
    ensures
        is_ascii(c) ==> result == (('0' <= c && c <= '9') || ('A' <= c && c <= 'Z') || ('a' <= c
            && c <= 'z')),
        !is_ascii(c) ==> result == alphanumeric_beyond_ascii(c),
;

/// The upper-case mapping of a character beyond ASCII: what `char::to_uppercase`
/// yields of it.
pub uninterp spec fn uppercase_beyond_ascii(c: char) -> Seq<char>;

/// The upper-case mapping of a character.
pub open spec fn uppercase(c: char) -> Seq<char> {
    if 'a' <= c <= 'z' {
        seq![(c as int - 32) as char]
    } else if is_ascii(c) {
        seq![c]
    } else {
        uppercase_beyond_ascii(c)
    }
}

/// The characters that `char::to_uppercase` yields, as a string. They depend on
/// the character alone, and there is at least one: a character without an
/// upper-case mapping is mapped to itself. Within ASCII the letters `a` to `z`
/// have a mapping, to `A` to `Z`, each 32 code points down.
#[verifier::external_body]
fn upper(c: char) -> (text: String)
    ensures
        'a' <= c && c <= 'z' ==> text@ == seq![(c as int - 32) as char],
        is_ascii(c) && !('a' <= c && c <= 'z') ==> text@ == seq![c],
        !is_ascii(c) ==> text@ == uppercase_beyond_ascii(c),
        text@.len() >= 1,
{
    c.to_uppercase().to_string()
}

// ── Prompts ─────────────────────────────────────────────────────────────────

/// A text as the engine expects it.
#[derive(Debug, PartialEq, Eq)]
pub struct PreparedPrompt<S = String> {
    /// Capitalized, whitespace-normalized, punctuation-terminated text.
    pub text: S,
    /// How many frames to go on for after the end of the speech: 3+2 frames for
    /// at most four words, and 1+2 otherwise.
    pub frames_after_eos: usize,
}

impl View for PreparedPrompt<String> {
    type V = PreparedPrompt<Seq<char>>;

    open spec fn view(&self) -> PreparedPrompt<Seq<char>> {
        PreparedPrompt { text: self.text@, frames_after_eos: self.frames_after_eos }
    }
}

impl Clone for PreparedPrompt<String> {
    fn clone(&self) -> (copy: Self)
        ensures
            copy == *self,
    {
        PreparedPrompt { text: self.text.clone(), frames_after_eos: self.frames_after_eos }
    }
}

/// A text with its first character replaced by `upper` if it is lower-case.
pub open spec fn capitalized(text: Seq<char>, lower: bool, upper: Seq<char>) -> Seq<char> {
    if lower && text.len() > 0 {
        upper + text.skip(1)
    } else {
        text
    }
}

/// A text with a full stop behind a last letter or number.
pub open spec fn terminated(text: Seq<char>, alphanumeric: bool) -> Seq<char> {
    if alphanumeric {
        text.push('.')
    } else {
        text
    }
}

/// How many frames to go on for after a text of `words` words.
pub open spec fn frames(words: nat) -> usize {
    if words <= 4 {
        5
    } else {
        3
    }
}

/// A text that is ready to be said.
pub open spec fn said(text: Seq<char>) -> PreparedPrompt<Seq<char>> {
    PreparedPrompt { text, frames_after_eos: frames(words(text).len()) }
}

/// The prompt for a text: cleaned, capitalized, terminated. There is none for a
/// text without a word.
pub open spec fn prompt_for(input: Seq<char>) -> Option<PreparedPrompt<Seq<char>>> {
    let text = cleaned(input);
    if text.len() == 0 {
        None
    } else {
        let capital = capitalized(text, lowercase(text[0]), uppercase(text[0]));
        Some(said(terminated(capital, alphanumeric(capital.last()))))
    }
}

/// Replace the first character of `text` by `upper` if it is lower-case.
pub fn capitalize(text: String, lower: bool, upper: &str) -> (result: String)
    ensures
        result@ == capitalized(text@, lower, upper@),
{
    let len: usize = text.as_str().unicode_len();
    if !lower || len == 0 {
        return text;
    }
    let rest = text.as_str().substring_char(1, len);
    assert(rest@ =~= text@.skip(1));
    labelled(upper, rest)
}

/// Put a full stop behind a last letter or number.
pub fn terminate(text: String, alphanumeric: bool) -> (result: String)
    ensures
        result@ == terminated(text@, alphanumeric),
{
    let mut result = text;
    if alphanumeric {
        result.push('.');
    }
    result
}

/// Finish a prompt: how long the engine goes on depends on the word count.
pub fn say(text: String) -> (prompt: PreparedPrompt)
    ensures
        prompt@ == said(text@),
{
    let frames_after_eos: usize = if count_words(text.as_str()) <= 4 {
        5
    } else {
        3
    };
    PreparedPrompt { text, frames_after_eos }
}

/// Prepare a text for the engine:
///
/// 1. Collapse white space.
/// 2. Capitalize the first letter.
/// 3. Append `.` when the last character is alphanumeric.
/// 4. Use the model's word-count-based post-EOS frame heuristic.
///
/// The engine disables short-input space padding; prompts must stay unpadded so
/// phrase starts match the model's expected input distribution.
///
/// Returns `None` only if the input holds nothing but white space; the caller
/// should skip synthesis in that case.
pub fn prepare_pocket_prompt(input: &str) -> (prompt: Option<PreparedPrompt>)
    ensures
        opt(prompt) == prompt_for(input@),
{
    let text = clean(input);
    if text.as_str().is_empty() {
        return None;
    }
    let first: char = text.as_str().get_char(0);
    let mapping = upper(first);
    let capital = capitalize(text, first.is_lowercase(), mapping.as_str());
    let len: usize = capital.as_str().unicode_len();
    let last: char = capital.as_str().get_char(len - 1);
    Some(say(terminate(capital, last.is_alphanumeric())))
}

// ── Laws of prompts ─────────────────────────────────────────────────────────

/// The characters of a text that are not white space, in order.
pub open spec fn ink(text: Seq<char>) -> Seq<char>
    decreases text.len(),
{
    if text.len() == 0 {
        Seq::empty()
    } else if is_white(text.last()) {
        ink(text.drop_last())
    } else {
        ink(text.drop_last()).push(text.last())
    }
}

/// Cleaning loses white space and nothing else: every other character is still
/// there, in its place in the order.
pub proof fn cleaning_loses_only_white_space(text: Seq<char>)
    ensures
        ink(cleaned(text)) == ink(text),
    decreases text.len(),
{
    if text.len() > 0 {
        let before = text.drop_last();
        let c = text.last();
        cleaning_loses_only_white_space(before);
        lemma_one_more(before, c);
        assert(before.push(c) =~= text);
        let clean = cleaned(before);
        assert(clean.push(c).drop_last() =~= clean);
        assert(clean.push(' ').drop_last() =~= clean);
        assert(ink(clean.push(' ')) == ink(clean));
        assert(clean.push(' ').push(c).drop_last() =~= clean.push(' '));
        assert(!is_white(c) ==> ink(clean.push(' ').push(c)) == ink(clean).push(c));
        assert(!is_white(c) ==> ink(clean.push(c)) == ink(clean).push(c));
    }
}

/// A cleaned text is unpadded: it neither starts nor ends with white space, and
/// what white space it holds is single spaces.
pub proof fn cleaned_text_is_unpadded(text: Seq<char>)
    ensures
        cleaned(text).len() > 0 ==> !is_white(cleaned(text)[0]) && !is_white(cleaned(text).last()),
        forall|i: int|
            0 <= i < cleaned(text).len() && is_white(#[trigger] cleaned(text)[i]) ==> {
                &&& cleaned(text)[i] == ' '
                &&& i + 1 < cleaned(text).len() && !is_white(cleaned(text)[i + 1])
            },
        cleaned(text).len() == 0 <==> words(text).len() == 0,
    decreases text.len(),
{
    if text.len() > 0 {
        let before = text.drop_last();
        let c = text.last();
        cleaned_text_is_unpadded(before);
        lemma_one_more(before, c);
        assert(before.push(c) =~= text);
        let clean = cleaned(before);
        if !is_white(c) {
            assert forall|i: int|
                0 <= i < cleaned(text).len() && is_white(#[trigger] cleaned(text)[i]) implies {
                &&& cleaned(text)[i] == ' '
                &&& i + 1 < cleaned(text).len() && !is_white(cleaned(text)[i + 1])
            } by {
                if i < clean.len() {
                    assert(cleaned(text)[i] == clean[i]);
                    assert(cleaned(text)[i + 1] == clean[i + 1]);
                }
            }
        }
    }
}

proof fn lemma_word_appended(text: Seq<char>, word: Seq<char>)
    requires
        text.len() == 0 || is_white(text.last()),
        is_word(word),
    ensures
        words(text + word) == words(text).push(word),
    decreases word.len(),
{
    let c = word.last();
    let start = word.drop_last();
    assert((text + word).drop_last() =~= text + start);
    assert((text + word).last() == c);
    assert(!is_white(word[word.len() - 1]));
    if start.len() == 0 {
        assert(text + start =~= text);
        assert(word =~= seq![c]);
    } else {
        assert forall|i: int| 0 <= i < start.len() implies !is_white(#[trigger] start[i]) by {
            assert(start[i] == word[i]);
        }
        lemma_word_appended(text, start);
        assert((text + start).last() == start.last());
        assert(!is_white(start[start.len() - 1]));
        let list = words(text).push(start);
        assert(list.drop_last() =~= words(text));
        assert(start.push(c) =~= word);
    }
}

proof fn lemma_words_joined(list: Seq<Seq<char>>)
    requires
        forall|i: int| 0 <= i < list.len() ==> is_word(#[trigger] list[i]),
    ensures
        words(joined(list, " "@)) == list,
    decreases list.len(),
{
    reveal_strlit(" ");
    if list.len() == 0 {
        assert(words(joined(list, " "@)) =~= list);
    } else {
        let rest = list.drop_last();
        assert(is_word(list[list.len() - 1]));
        if list.len() == 1 {
            lemma_word_appended(Seq::empty(), list[0]);
            assert(Seq::<char>::empty() + list[0] =~= list[0]);
            assert(Seq::<Seq<char>>::empty().push(list[0]) =~= list);
        } else {
            assert forall|i: int| 0 <= i < rest.len() implies is_word(#[trigger] rest[i]) by {
                assert(rest[i] == list[i]);
            }
            lemma_words_joined(rest);
            let head = joined(rest, " "@) + " "@;
            assert(head =~= joined(rest, " "@).push(' '));
            assert(head.drop_last() =~= joined(rest, " "@));
            assert(words(head) == rest);
            lemma_word_appended(head, list.last());
            assert(rest.push(list.last()) =~= list);
        }
    }
}

/// Cleaning keeps the words, and cleaning twice is cleaning once.
pub proof fn cleaning_keeps_the_words(text: Seq<char>)
    ensures
        words(cleaned(text)) == words(text),
        cleaned(cleaned(text)) == cleaned(text),
{
    lemma_words(text);
    lemma_words_joined(words(text));
}

/// Only a text of nothing but white space has no prompt, and a prompt starts as
/// its cleaned text does unless that starts with a lower-case letter: nothing is
/// put in front. A prompt neither starts nor ends with white space, if its text
/// starts with an ASCII character or with a letter that is mapped to a word.
pub proof fn prompts_are_unpadded(text: Seq<char>)
    ensures
        prompt_for(text) is None <==> forall|i: int|
            0 <= i < text.len() ==> is_white(#[trigger] text[i]),
        prompt_for(text) matches Some(prompt) ==> {
            let first = cleaned(text)[0];
            &&& !lowercase(first) ==> prompt.text[0] == first && !is_white(prompt.text[0])
            &&& is_ascii(first) || maps_to_a_word(first) ==> !is_white(prompt.text[0])
                && !is_white(prompt.text.last())
        },
{
    lemma_words(text);
    cleaned_text_is_unpadded(text);
    if let Some(prompt) = prompt_for(text) {
        let first = cleaned(text)[0];
        if is_ascii(first) {
            lemma_ascii_capitals(first);
        }
        if maps_to_a_word(first) {
            lemma_prompt_words(text);
            cleaned_text_is_unpadded(prompt.text);
        }
    }
}

/// Only the words of a text matter: two texts with the same words, however
/// spaced, have the same prompt.
pub proof fn prompts_depend_on_the_words(text: Seq<char>, other: Seq<char>)
    requires
        words(text) == words(other),
    ensures
        prompt_for(text) == prompt_for(other),
{
}

/// A joined list with its first word replaced.
proof fn lemma_first_replaced(list: Seq<Seq<char>>, word: Seq<char>)
    requires
        list.len() > 0,
        forall|i: int| 0 <= i < list.len() ==> is_word(#[trigger] list[i]),
        word.len() > 0,
    ensures
        joined(list, " "@).len() > 0,
        joined(list, " "@)[0] == list[0][0],
        joined(list.update(0, word + list[0].skip(1)), " "@) == word + joined(list, " "@).skip(1),
    decreases list.len(),
{
    let first = word + list[0].skip(1);
    let longer = list.update(0, first);
    assert(is_word(list[0]));
    if list.len() > 1 {
        let rest = list.drop_last();
        assert forall|i: int| 0 <= i < rest.len() implies is_word(#[trigger] rest[i]) by {
            assert(rest[i] == list[i]);
        }
        lemma_first_replaced(rest, word);
        assert(longer.drop_last() =~= rest.update(0, first));
        assert(longer.last() == list.last());
        let text = joined(rest, " "@);
        assert(word + (text + " "@ + list.last()).skip(1) =~= (word + text.skip(1)) + " "@
            + list.last());
    }
}

/// A joined list with a character put behind its last word.
proof fn lemma_last_extended(list: Seq<Seq<char>>, c: char)
    requires
        list.len() > 0,
    ensures
        joined(list.drop_last().push(list.last().push(c)), " "@) == joined(list, " "@).push(c),
{
    let longer = list.drop_last().push(list.last().push(c));
    assert(longer.drop_last() =~= list.drop_last());
    if list.len() == 1 {
        assert(longer[0] == list[0].push(c));
    } else {
        assert(joined(longer, " "@) =~= joined(list, " "@).push(c));
    }
}

/// Whether the mapping of a lower-case `c` is a word: it holds no white space.
pub open spec fn maps_to_a_word(c: char) -> bool {
    lowercase(c) ==> is_word(uppercase(c))
}

/// Whether capitalizing `c` once is enough: its mapping starts with no lower-case
/// letter, or with one that has itself for its mapping.
pub open spec fn capitalizes_once(c: char) -> bool {
    let upper = uppercase(c);
    lowercase(c) ==> (lowercase(upper[0]) ==> uppercase(upper[0]) == seq![upper[0]])
}

/// Every ASCII letter is capitalized in one go, to a letter.
proof fn lemma_ascii_capitals(c: char)
    requires
        is_ascii(c),
    ensures
        maps_to_a_word(c),
        capitalizes_once(c),
{
    if lowercase(c) {
        let upper = uppercase(c);
        assert(upper.len() == 1);
        assert('A' <= upper[0] && upper[0] <= 'Z');
    }
}

/// The words of a prompt, one for each word of its text.
proof fn lemma_prompt_words(text: Seq<char>)
    requires
        prompt_for(text) is Some,
        maps_to_a_word(cleaned(text)[0]),
    ensures
        cleaned(prompt_for(text)->0.text) == prompt_for(text)->0.text,
        words(prompt_for(text)->0.text).len() == words(text).len(),
{
    let prompt = prompt_for(text)->0;
    let first = cleaned(text)[0];
    let list = words(text);
    lemma_words(text);
    cleaned_text_is_unpadded(text);
    assert(is_word(list[0]));
    let upper = uppercase(first);
    let capital = capitalized(cleaned(text), lowercase(first), upper);
    let capitals = if lowercase(first) {
        list.update(0, upper + list[0].skip(1))
    } else {
        list
    };
    if lowercase(first) {
        lemma_first_replaced(list, upper);
        let word = upper + list[0].skip(1);
        assert forall|i: int| 0 <= i < word.len() implies !is_white(#[trigger] word[i]) by {
            if i < upper.len() {
                assert(word[i] == upper[i]);
            } else {
                assert(word[i] == list[0][i - upper.len() + 1]);
            }
        }
        assert forall|i: int| 0 <= i < capitals.len() implies is_word(#[trigger] capitals[i]) by {
            if i > 0 {
                assert(capitals[i] == list[i]);
            }
        }
    }
    assert(joined(capitals, " "@) == capital);
    let ended = if alphanumeric(capital.last()) {
        capitals.drop_last().push(capitals.last().push('.'))
    } else {
        capitals
    };
    if alphanumeric(capital.last()) {
        lemma_last_extended(capitals, '.');
        let word = capitals.last().push('.');
        assert(is_word(capitals[capitals.len() - 1]));
        assert forall|i: int| 0 <= i < word.len() implies !is_white(#[trigger] word[i]) by {
            if i < word.len() - 1 {
                assert(word[i] == capitals.last()[i]);
            }
        }
        assert forall|i: int| 0 <= i < ended.len() implies is_word(#[trigger] ended[i]) by {
            if i < ended.len() - 1 {
                assert(ended[i] == capitals[i]);
            }
        }
    }
    assert(joined(ended, " "@) == prompt.text);
    lemma_words_joined(ended);
}

/// The frame count goes by the words of the text itself: a prompt has as many
/// words as its text. This holds of every text that starts with an ASCII
/// character, and of any other whose first letter is mapped to a word.
pub proof fn frames_go_by_the_words_of_the_text(text: Seq<char>)
    ensures
        prompt_for(text) matches Some(prompt) ==> (is_ascii(cleaned(text)[0]) || maps_to_a_word(
            cleaned(text)[0],
        ) ==> {
            &&& words(prompt.text).len() == words(text).len()
            &&& prompt.frames_after_eos == frames(words(text).len())
        }),
{
    if prompt_for(text) is Some {
        if is_ascii(cleaned(text)[0]) {
            lemma_ascii_capitals(cleaned(text)[0]);
        }
        if maps_to_a_word(cleaned(text)[0]) {
            lemma_prompt_words(text);
        }
    }
}

/// Preparing a prepared text changes nothing, neither the text nor the frame
/// count. This holds of every text that starts with an ASCII character, and of
/// any other whose first letter is mapped to a word and capitalized in one go.
pub proof fn prompts_are_prepared_once(text: Seq<char>)
    ensures
        prompt_for(text) matches Some(prompt) ==> (is_ascii(cleaned(text)[0]) || (maps_to_a_word(
            cleaned(text)[0],
        ) && capitalizes_once(cleaned(text)[0])) ==> prompt_for(prompt.text) == Some(prompt)),
{
    if let Some(prompt) = prompt_for(text) {
        let first = cleaned(text)[0];
        if is_ascii(first) {
            lemma_ascii_capitals(first);
        }
        if maps_to_a_word(first) && capitalizes_once(first) {
            lemma_prompt_words(text);
            let upper = uppercase(first);
            let capital = capitalized(cleaned(text), lowercase(first), upper);
            assert(prompt.text[0] == capital[0]);
            assert(lowercase(first) ==> capital[0] == upper[0]);
            let again = capitalized(
                prompt.text,
                lowercase(prompt.text[0]),
                uppercase(prompt.text[0]),
            );
            assert(again =~= prompt.text);
        }
    }
}

/// How many words begin in a text: characters that are not white space, at the
/// start or behind white space.
pub open spec fn word_starts(text: Seq<char>) -> nat
    decreases text.len(),
{
    if text.len() == 0 {
        0
    } else {
        let last = text.len() - 1;
        word_starts(text.drop_last()) + (if !is_white(text[last]) && (last == 0 || is_white(
            text[last - 1],
        )) {
            1nat
        } else {
            0nat
        })
    }
}

/// A text has as many words as begin in it.
pub proof fn every_word_counts_once(text: Seq<char>)
    ensures
        words(text).len() == word_starts(text),
    decreases text.len(),
{
    if text.len() > 0 {
        let before = text.drop_last();
        every_word_counts_once(before);
        lemma_words(before);
    }
}

/// Whether a text is clean: it neither starts nor ends with white space, and all
/// it has are single spaces.
pub open spec fn is_clean(text: Seq<char>) -> bool {
    &&& text.len() > 0 ==> !is_white(text[0]) && !is_white(text.last())
    &&& spaced(text)
}

/// Whether white space comes as spaces, one at a time.
pub open spec fn spaced(text: Seq<char>) -> bool {
    forall|i: int|
        0 <= i < text.len() && is_white(#[trigger] text[i]) ==> text[i] == ' ' && (i + 1
            < text.len() ==> !is_white(text[i + 1]))
}

proof fn lemma_clean_start(text: Seq<char>)
    requires
        text.len() > 0,
        !is_white(text[0]),
        spaced(text),
    ensures
        cleaned(text) == (if is_white(text.last()) {
            text.drop_last()
        } else {
            text
        }),
    decreases text.len(),
{
    let before = text.drop_last();
    let c = text.last();
    assert(before.push(c) =~= text);
    lemma_one_more(before, c);
    if before.len() == 0 {
        assert(cleaned(before) =~= Seq::<char>::empty());
        assert(cleaned(text) =~= text);
    } else {
        assert forall|i: int| 0 <= i < before.len() && is_white(#[trigger] before[i]) implies
            before[i] == ' ' && (i + 1 < before.len() ==> !is_white(before[i + 1])) by {
            assert(text[i] == before[i]);
            assert(text[i + 1] == text[i + 1]);
        }
        assert(before[0] == text[0]);
        lemma_clean_start(before);
        lemma_words(before);
        assert(words(before).len() > 0);
        let last = before.len() - 1;
        assert(text[last] == before.last());
        if is_white(c) {
            assert(!is_white(before.last()));
        } else if is_white(before.last()) {
            assert(before.last() == ' ');
            assert(before.drop_last().push(' ') =~= before);
        }
    }
}

/// A clean text is left as it is, however long it is.
pub proof fn clean_text_is_left_alone(text: Seq<char>)
    requires
        is_clean(text),
    ensures
        cleaned(text) == text,
{
    if text.len() == 0 {
        assert(cleaned(text) =~= text);
    } else {
        lemma_clean_start(text);
    }
}

/// Whether a text is nothing but white space.
pub open spec fn is_gap(text: Seq<char>) -> bool {
    forall|i: int| 0 <= i < text.len() ==> is_white(#[trigger] text[i])
}

proof fn lemma_gap_behind(text: Seq<char>, gap: Seq<char>)
    requires
        is_gap(gap),
    ensures
        words(text + gap) == words(text),
    decreases gap.len(),
{
    if gap.len() == 0 {
        assert(text + gap =~= text);
    } else {
        let shorter = gap.drop_last();
        assert forall|i: int| 0 <= i < shorter.len() implies is_white(#[trigger] shorter[i]) by {
            assert(shorter[i] == gap[i]);
        }
        lemma_gap_behind(text, shorter);
        assert((text + gap).drop_last() =~= text + shorter);
        assert((text + gap).last() == gap[gap.len() - 1]);
    }
}

proof fn lemma_words_in_two(first: Seq<char>, second: Seq<char>)
    requires
        first.len() == 0 || is_white(first.last()),
    ensures
        words(first + second) == words(first) + words(second),
    decreases second.len(),
{
    if second.len() == 0 {
        assert(first + second =~= first);
        assert(words(first) + words(second) =~= words(first));
    } else {
        let before = second.drop_last();
        let c = second.last();
        lemma_words_in_two(first, before);
        assert((first + second).drop_last() =~= first + before);
        assert((first + second).last() == c);
        if !is_white(c) {
            if before.len() > 0 && !is_white(before.last()) {
                lemma_words(before);
                assert((first + before).last() == before.last());
                assert(words(first + second) =~= words(first) + words(second));
            } else {
                if before.len() == 0 {
                    assert(first + before =~= first);
                } else {
                    assert((first + before).last() == before.last());
                }
                assert(words(first + second) =~= words(first) + words(second));
            }
        }
    }
}

/// Between two pieces of a text only whether there is white space matters, not
/// how much or which, and around a text it does not matter at all.
pub proof fn cleaning_ignores_the_size_of_gaps(
    first: Seq<char>,
    gap: Seq<char>,
    other: Seq<char>,
    second: Seq<char>,
)
    requires
        is_gap(gap),
        is_gap(other),
    ensures
        gap.len() > 0 && other.len() > 0 ==> cleaned(first + gap + second) == cleaned(
            first + other + second,
        ),
        cleaned(gap + first) == cleaned(first),
        cleaned(first + gap) == cleaned(first),
{
    lemma_gap_behind(first, gap);
    lemma_gap_behind(first, other);
    if gap.len() > 0 {
        assert((first + gap).last() == gap[gap.len() - 1]);
        lemma_words_in_two(first + gap, second);
    }
    if other.len() > 0 {
        assert((first + other).last() == other[other.len() - 1]);
        lemma_words_in_two(first + other, second);
    }
    let nothing = Seq::<char>::empty();
    lemma_gap_behind(nothing, gap);
    assert(nothing + gap =~= gap);
    if gap.len() > 0 {
        assert(is_white(gap[gap.len() - 1]));
    }
    lemma_words_in_two(gap, first);
    assert(words(gap) + words(first) =~= words(first));
}

/// What a prompt says is its cleaned text, with two changes and no other. A first
/// letter that is lower-case gives way to its upper-case mapping, and a full stop
/// follows a last letter or number. Within ASCII the lower-case letters are `a` to
/// `z`, and their mappings `A` to `Z`.
pub proof fn prompts_say_the_text(text: Seq<char>)
    ensures
        prompt_for(text) matches Some(prompt) ==> {
            let clean = cleaned(text);
            let first = clean[0];
            let head = if 'a' <= first <= 'z' {
                seq![(first as int - 32) as char]
            } else if !is_ascii(first) && lowercase_beyond_ascii(first) {
                uppercase_beyond_ascii(first)
            } else {
                seq![first]
            };
            let said = head + clean.skip(1);
            let last = said.last();
            let stop = if is_ascii(last) {
                '0' <= last <= '9' || 'A' <= last <= 'Z' || 'a' <= last <= 'z'
            } else {
                alphanumeric_beyond_ascii(last)
            };
            &&& clean.len() > 0
            &&& prompt.text == (if stop {
                said + seq!['.']
            } else {
                said
            })
            &&& !('a' <= first <= 'z') || !('a' <= prompt.text[0] <= 'z')
        },
{
    if let Some(prompt) = prompt_for(text) {
        let clean = cleaned(text);
        let first = clean[0];
        assert(seq![first] + clean.skip(1) =~= clean);
        let capital = capitalized(clean, lowercase(first), uppercase(first));
        assert(capital + seq!['.'] =~= capital.push('.'));
    }
}

/// The engine goes on for five frames after at most four words, and for three
/// frames after more.
pub proof fn short_prompts_go_on_longer(text: Seq<char>)
    ensures
        prompt_for(text) matches Some(prompt) ==> {
            &&& prompt.frames_after_eos == (if word_starts(prompt.text) <= 4 {
                5usize
            } else {
                3usize
            })
            &&& is_ascii(cleaned(text)[0]) ==> word_starts(prompt.text) == word_starts(text)
        },
{
    if let Some(prompt) = prompt_for(text) {
        every_word_counts_once(prompt.text);
        every_word_counts_once(text);
        frames_go_by_the_words_of_the_text(text);
    }
}

/// The parts of a prompt do the same to any text: a first letter is replaced only
/// if it is lower-case, and everything behind it stays; a full stop is put behind
/// everything or not at all; and finishing a prompt does not change its text.
pub proof fn the_parts_of_a_prompt_keep_the_rest(
    text: Seq<char>,
    flag: bool,
    upper: Seq<char>,
)
    ensures
        flag && text.len() > 0 ==> capitalized(text, flag, upper).take(upper.len() as int) == upper
            && capitalized(text, flag, upper).skip(upper.len() as int) == text.skip(1),
        !flag || text.len() == 0 ==> capitalized(text, flag, upper) == text,
        terminated(text, true) == text + seq!['.'],
        terminated(text, false) == text,
        said(text).text == text,
        said(text).frames_after_eos == (if word_starts(text) <= 4 {
            5usize
        } else {
            3usize
        }),
{
    every_word_counts_once(text);
    let result = capitalized(text, flag, upper);
    if flag && text.len() > 0 {
        assert(result.take(upper.len() as int) =~= upper);
        assert(result.skip(upper.len() as int) =~= text.skip(1));
    }
    assert(text + seq!['.'] =~= text.push('.'));
}

// ── Voices ──────────────────────────────────────────────────────────────────

/// A loaded reference voice: PCM samples plus their sample rate.
///
/// The engine takes a reference waveform per generation call, so the samples are
/// kept in memory rather than re-read on every sentence.
#[derive(Debug)]
pub struct VoiceStyle<F> {
    samples: Vec<F>,
    sample_rate: i32,
}

impl<F: Clone> Clone for VoiceStyle<F> {
    fn clone(&self) -> (copy: Self)
        ensures
            copy.rate() == self.rate(),
            copy.wave().len() == self.wave().len(),
            forall|i: int|
                0 <= i < self.wave().len() ==> cloned(
                    #[trigger] self.wave()[i],
                    copy.wave()[i],
                ),
    {
        VoiceStyle { samples: self.samples.clone(), sample_rate: self.sample_rate }
    }
}

impl<F> VoiceStyle<F> {
    /// The samples, as loaded.
    pub closed spec fn wave(self) -> Seq<F> {
        self.samples@
    }

    /// Their rate in Hz, as loaded.
    pub closed spec fn rate(self) -> i32 {
        self.sample_rate
    }

    pub fn samples(&self) -> (samples: &Vec<F>)
        ensures
            samples@ == self.wave(),
    {
        &self.samples
    }

    pub fn sample_rate(&self) -> (rate: i32)
        ensures
            rate == self.rate(),
    {
        self.sample_rate
    }
}

/// Make a reference voice of a WAV file.
///
/// `path` is the path if it is valid UTF-8, `display` how it is shown to the
/// user, and `wave` the samples and their rate if the file could be decoded. Any
/// sample rate will do: the engine resamples by itself.
pub fn load_voice_style<F>(
    path: Option<&str>,
    display: &str,
    wave: Option<(Vec<F>, i32)>,
) -> (style: Result<VoiceStyle<F>, String>)
    ensures
        match style {
            Ok(style) => {
                &&& path is Some && style.wave().len() > 0
                &&& wave matches Some((samples, rate)) && style.wave() == samples@ && style.rate()
                    == rate
            },
            Err(error) => {
                ||| path is None && error@ == "voice path is not valid UTF-8: "@ + display@
                ||| path is Some && wave is None && error@ == "could not read voice WAV at "@
                    + display@
                ||| path is Some && (wave matches Some((samples, _)) && samples@.len() == 0)
                    && error@ == "voice WAV is empty: "@ + display@
            },
        },
{
    if path.is_none() {
        return Err(labelled("voice path is not valid UTF-8: ", display));
    }
    match wave {
        None => Err(labelled("could not read voice WAV at ", display)),
        Some((samples, sample_rate)) => if samples.len() == 0 {
            Err(labelled("voice WAV is empty: ", display))
        } else {
            Ok(VoiceStyle { samples, sample_rate })
        },
    }
}

// ── Engine ──────────────────────────────────────────────────────────────────

/// Pocket TTS emits 24 kHz mono PCM.
pub const SAMPLE_RATE: u32 = 24_000;

/// Name (without extension) of the bundled reference voice. The model directory
/// is expected to contain `<DEFAULT_VOICE>.<VOICE_FILE_EXT>` after install.
pub const DEFAULT_VOICE: &'static str = "reference_sample";

/// Voice files are reference audio: the model conditions on raw waveform
/// samples, not on a precomputed embedding.
pub const VOICE_FILE_EXT: &'static str = "wav";

/// Engine handle, owned by the TTS worker for a huddle session.
pub struct PocketTts<E> {
    inner: E,
}

/// What became of a call into a shared engine.
#[derive(Debug, PartialEq, Eq)]
pub enum EngineReply<T> {
    /// Another caller panicked while it held the engine, so it was not called.
    Poisoned,
    Answer(Result<T, String>),
}

/// What a caller gets to see of an engine's reply.
pub open spec fn reported<T>(reply: EngineReply<T>, result: Result<T, String>) -> bool {
    match reply {
        EngineReply::Poisoned => result matches Err(error) && error@
            == "Pocket TTS engine lock poisoned"@,
        EngineReply::Answer(answer) => result == answer,
    }
}

/// Turn an engine's reply into what its caller gets.
pub fn report<T>(reply: EngineReply<T>) -> (result: Result<T, String>)
    ensures
        reported(reply, result),
{
    match reply {
        EngineReply::Poisoned => Err("Pocket TTS engine lock poisoned".to_owned()),
        EngineReply::Answer(answer) => answer,
    }
}

/// An engine's answer reaches its caller as it is, and a lock that a panic has
/// poisoned reaches it as an error.
pub proof fn answers_are_passed_on<T>(answer: Result<T, String>, result: Result<T, String>)
    ensures
        reported(EngineReply::Answer(answer), result) <==> result == answer,
        reported(EngineReply::Poisoned, result) <==> (result matches Err(error) && error@
            == "Pocket TTS engine lock poisoned"@),
{
}

/// Build the engine from the directory its model is installed in.
pub fn load_text_to_speech<E, L: FnOnce(&str) -> Result<E, String>>(
    model_dir: &str,
    load: L,
) -> (tts: Result<PocketTts<E>, String>)
    requires
        call_requires(load, (model_dir,)),
    ensures
        match tts {
            Ok(tts) => call_ensures(load, (model_dir,), Ok(tts.engine())),
            Err(error) => call_ensures(load, (model_dir,), Err(error)),
        },
{
    match load(model_dir) {
        Ok(inner) => Ok(PocketTts { inner }),
        Err(error) => Err(error),
    }
}

impl<E> PocketTts<E> {
    /// The engine behind this handle.
    pub closed spec fn engine(self) -> E {
        self.inner
    }

    /// Split text at word boundaries using the engine's exact tokenizer limit.
    /// Callers should treat every returned item as an independent playback chunk
    /// so cancellation and boundary processing remain visible.
    ///
    /// The engine gets the prompt for `text`; without one it is not called, and
    /// there are no chunks.
    pub fn split_text_into_chunks<C: FnOnce(&E, &PreparedPrompt) -> EngineReply<Vec<String>>>(
        &self,
        text: &str,
        split_prompt: C,
    ) -> (chunks: Result<Vec<String>, String>)
        requires
            forall|prompt: PreparedPrompt|
                #[trigger] call_requires(split_prompt, (&self.engine(), &prompt)),
        ensures
            match prompt_for(text@) {
                None => chunks matches Ok(list) && list@.len() == 0,
                Some(expected) => exists|prompt: PreparedPrompt, reply: EngineReply<Vec<String>>|
                    prompt@ == expected && #[trigger] call_ensures(
                        split_prompt,
                        (&self.engine(), &prompt),
                        reply,
                    ) && reported(reply, chunks),
            },
    {
        let prompt = match prepare_pocket_prompt(text) {
            Some(prompt) => prompt,
            None => return Ok(Vec::new()),
        };
        assert(call_requires(split_prompt, (&self.engine(), &prompt)));
        let reply = split_prompt(&self.inner, &prompt);
        assert(call_ensures(split_prompt, (&self.engine(), &prompt), reply));
        report(reply)
    }

    /// Synthesise `text` with the given reference voice.
    ///
    /// `_lang` and `_steps` are accepted for the shared engine contract: this
    /// engine is English-only and uses one flow step. Returns an empty buffer for
    /// text of nothing but white space.
    pub fn synth_chunk<F, C: FnOnce(&E, &PreparedPrompt, &VoiceStyle<F>) -> EngineReply<Vec<F>>>(
        &self,
        text: &str,
        _lang: &str,
        style: &VoiceStyle<F>,
        _steps: usize,
        synth: C,
    ) -> (samples: Result<Vec<F>, String>)
        requires
            forall|prompt: PreparedPrompt|
                #[trigger] call_requires(synth, (&self.engine(), &prompt, style)),
        ensures
            match prompt_for(text@) {
                None => samples matches Ok(buffer) && buffer@.len() == 0,
                Some(expected) => exists|prompt: PreparedPrompt, reply: EngineReply<Vec<F>>|
                    prompt@ == expected && #[trigger] call_ensures(
                        synth,
                        (&self.engine(), &prompt, style),
                        reply,
                    ) && reported(reply, samples),
            },
    {
        let prompt = match prepare_pocket_prompt(text) {
            Some(prompt) => prompt,
            None => return Ok(Vec::new()),
        };
        assert(call_requires(synth, (&self.engine(), &prompt, style)));
        let reply = synth(&self.inner, &prompt, style);
        assert(call_ensures(synth, (&self.engine(), &prompt, style), reply));
        report(reply)
    }
}

} // verus!
