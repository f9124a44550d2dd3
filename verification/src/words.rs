//! White space, words, and characters of text that comes from outside.
use vstd::prelude::*;
use vstd::string::StringExecFns;

use crate::numeric;
use crate::text;

verus! {

/// A control character: of the general category Cc.
pub open spec fn is_control(c: char) -> bool {
    c as int <= 0x1f || 0x7f <= c as int <= 0x9f
}

/// A character with the Unicode property White_Space.
pub open spec fn is_space(c: char) -> bool {
    0x9 <= c as int <= 0xd || c as int == 0x20 || c as int == 0x85 || c as int == 0xa0 || c as int
        == 0x1680 || 0x2000 <= c as int <= 0x200a || c as int == 0x2028 || c as int == 0x2029
        || c as int == 0x202f || c as int == 0x205f || c as int == 0x3000
}

/// The text with every control character replaced by a space.
pub open spec fn without_controls(text: Seq<char>) -> Seq<char> {
    text.map_values(
        |c: char|
            if is_control(c) {
                ' '
            } else {
                c
            },
    )
}

/// The words of a text: the longest stretches without white space.
pub open spec fn words_of(text: Seq<char>) -> Seq<Seq<char>>
    decreases text.len(),
{
    if text.len() == 0 {
        Seq::empty()
    } else {
        let head = text.drop_last();
        let before = words_of(head);
        let c = text.last();
        if is_space(c) {
            before
        } else if head.len() == 0 || is_space(head.last()) {
            before.push(seq![c])
        } else {
            before.update(before.len() - 1, before.last().push(c))
        }
    }
}

/// The text without the white space at its start.
pub open spec fn trimmed_start(text: Seq<char>) -> Seq<char>
    decreases text.len(),
{
    if text.len() > 0 && is_space(text[0]) {
        trimmed_start(text.skip(1))
    } else {
        text
    }
}

/// The text without the white space at its end.
pub open spec fn trimmed_end(text: Seq<char>) -> Seq<char>
    decreases text.len(),
{
    if text.len() > 0 && is_space(text.last()) {
        trimmed_end(text.drop_last())
    } else {
        text
    }
}

/// The text without the white space around it.
pub open spec fn trimmed(text: Seq<char>) -> Seq<char> {
    trimmed_end(trimmed_start(text))
}

/// Whether a character is a control character.
pub fn char_is_control(c: char) -> (control: bool)
    ensures
        control == is_control(c),
{
    let code: u32 = c as u32;
    code <= 0x1f || (0x7f <= code && code <= 0x9f)
}

/// Whether a character is white space.
pub fn char_is_space(c: char) -> (space: bool)
    ensures
        space == is_space(c),
{
    let code: u32 = c as u32;
    (0x9 <= code && code <= 0xd) || code == 0x20 || code == 0x85 || code == 0xa0 || code == 0x1680
        || (0x2000 <= code && code <= 0x200a) || code == 0x2028 || code == 0x2029 || code == 0x202f
        || code == 0x205f || code == 0x3000
}

/// The characters of a text.
pub fn chars_of(text: &str) -> (chars: Vec<char>)
    ensures
        chars@ == text@,
{
    let mut chars: Vec<char> = Vec::new();
    for c in iter: text.chars()
        invariant
            chars@ == text@.take(iter.index() as int),
            iter.seq() == text@,
    {
        chars.push(c);
        assert(chars@ =~= text@.take(iter.index() + 1));
    }
    assert(chars@ =~= text@);
    chars
}

/// The first characters of a text, at most `limit` of them.
pub open spec fn first_chars(text: Seq<char>, limit: nat) -> Seq<char> {
    text.take(numeric::smaller(text.len() as int, limit as int))
}

/// The words of a text on one line, one space apart: control characters count
/// as spaces, and no more than `limit` characters are kept. A text without
/// words gives nothing.
pub open spec fn one_line(text: Seq<char>, limit: nat) -> Option<Seq<char>> {
    let line = first_chars(text::joined(words_of(without_controls(text)), " "@), limit);
    if line.len() == 0 {
        None
    } else {
        Some(line)
    }
}

/// A further character joins the last word of a line.
proof fn lemma_joined_grows(pieces: Seq<Seq<char>>, separator: Seq<char>, c: char)
    requires
        pieces.len() > 0,
    ensures
        text::joined(pieces.update(pieces.len() - 1, pieces.last().push(c)), separator)
            == text::joined(pieces, separator).push(c),
{
    let grown = pieces.update(pieces.len() - 1, pieces.last().push(c));
    if pieces.len() > 1 {
        assert(grown.drop_last() =~= pieces.drop_last());
    }
    assert(text::joined(grown, separator) =~= text::joined(pieces, separator).push(c));
}

/// A further word follows the separator, unless it is the first.
proof fn lemma_joined_extends(pieces: Seq<Seq<char>>, separator: Seq<char>, piece: Seq<char>)
    ensures
        text::joined(pieces.push(piece), separator) == if pieces.len() == 0 {
            piece
        } else {
            text::joined(pieces, separator) + separator + piece
        },
{
    assert(pieces.push(piece).drop_last() =~= pieces);
}

/// No word is empty, so a line is empty exactly without words.
proof fn lemma_words_are_not_empty(text: Seq<char>)
    ensures
        forall|i: int| 0 <= i < words_of(text).len() ==> #[trigger] words_of(text)[i].len() > 0,
        text.len() > 0 && !is_space(text.last()) ==> words_of(text).len() > 0,
        (text::joined(words_of(text), " "@).len() == 0) == (words_of(text).len() == 0),
    decreases text.len(),
{
    if text.len() > 0 {
        lemma_words_are_not_empty(text.drop_last());
    }
}

/// Puts the words of a text on one line.
pub fn words_on_one_line(text: &str, limit: usize) -> (line: Option<String>)
    ensures
        line is Some == one_line(text@, limit as nat) is Some,
        line matches Some(kept) ==> one_line(text@, limit as nat) == Some(kept@),
{
    let chars: Vec<char> = chars_of(text);
    let ghost plain = without_controls(text@);
    let mut line: Vec<char> = Vec::new();
    let mut in_word = false;
    let mut index: usize = 0;
    assert(words_of(plain.take(0)) =~= Seq::<Seq<char>>::empty());
    while index < chars.len()
        invariant
            index <= chars@.len(),
            chars@ == text@,
            plain == without_controls(text@),
            line@ == text::joined(words_of(plain.take(index as int)), " "@),
            in_word == (index > 0 && !is_space(plain[index - 1])),
        decreases chars@.len() - index,
    {
        let c: char = if char_is_control(chars[index]) {
            ' '
        } else {
            chars[index]
        };
        let ghost before = plain.take(index as int);
        let ghost after = plain.take(index + 1);
        proof {
            reveal_strlit(" ");
            assert(after.drop_last() =~= before);
            assert(after.last() == c);
            lemma_words_are_not_empty(before);
        }
        if char_is_space(c) {
            in_word = false;
        } else {
            proof {
                if index > 0 {
                    assert(before.last() == plain[index - 1]);
                }
                if in_word {
                    lemma_joined_grows(words_of(before), " "@, c);
                } else {
                    lemma_joined_extends(words_of(before), " "@, seq![c]);
                }
            }
            if !in_word && line.len() > 0 {
                line.push(' ');
            }
            line.push(c);
            in_word = true;
            assert(line@ =~= text::joined(words_of(after), " "@));
        }
        index += 1;
    }
    assert(plain.take(index as int) =~= plain);
    let kept: String = first_of(&line, limit);
    if kept.unicode_len() == 0 {
        None
    } else {
        Some(kept)
    }
}

/// The first characters of a list as text.
fn first_of(chars: &Vec<char>, limit: usize) -> (kept: String)
    ensures
        kept@ == first_chars(chars@, limit as nat),
{
    let mut kept = String::new();
    let mut index: usize = 0;
    while index < chars.len() && index < limit
        invariant
            index <= chars@.len(),
            index <= limit,
            kept@ == chars@.take(index as int),
        decreases chars@.len() - index,
    {
        kept.push(chars[index]);
        assert(kept@ =~= chars@.take(index + 1));
        index += 1;
    }
    kept
}

/// The first characters of a text.
pub fn first_characters(text: &str, limit: usize) -> (kept: String)
    ensures
        kept@ == first_chars(text@, limit as nat),
{
    first_of(&chars_of(text), limit)
}

/// Skipping white space at the start leaves the trimmed text as it is.
pub(crate) proof fn lemma_trimmed_start_skips(text: Seq<char>, count: int)
    requires
        0 <= count <= text.len(),
        forall|i: int| 0 <= i < count ==> is_space(#[trigger] text[i]),
    ensures
        trimmed_start(text) == trimmed_start(text.skip(count)),
    decreases count,
{
    if count > 0 {
        let rest = text.skip(1);
        assert forall|i: int| 0 <= i < count - 1 implies is_space(#[trigger] rest[i]) by {
            assert(rest[i] == text[i + 1]);
        }
        lemma_trimmed_start_skips(rest, count - 1);
        assert(rest.skip(count - 1) =~= text.skip(count));
    } else {
        assert(text.skip(0) =~= text);
    }
}

/// A text without the white space around it.
pub fn trim(text: &str) -> (inner: String)
    ensures
        inner@ == trimmed(text@),
{
    let chars: Vec<char> = chars_of(text);
    let mut start: usize = 0;
    while start < chars.len() && char_is_space(chars[start])
        invariant
            start <= chars@.len(),
            forall|i: int| 0 <= i < start ==> is_space(#[trigger] chars@[i]),
        decreases chars@.len() - start,
    {
        start += 1;
    }
    let ghost rest = chars@.skip(start as int);
    proof {
        lemma_trimmed_start_skips(chars@, start as int);
        if start < chars@.len() {
            assert(rest[0] == chars@[start as int]);
        }
        assert(trimmed_start(text@) == rest);
    }
    let mut end: usize = chars.len();
    assert(chars@.subrange(start as int, end as int) =~= rest);
    while end > start && char_is_space(chars[end - 1])
        invariant
            start <= end <= chars@.len(),
            trimmed_end(rest) == trimmed_end(chars@.subrange(start as int, end as int)),
        decreases end,
    {
        let ghost kept = chars@.subrange(start as int, end as int);
        assert(kept.last() == chars@[end - 1]);
        assert(kept.drop_last() =~= chars@.subrange(start as int, end - 1));
        end -= 1;
    }
    let ghost kept = chars@.subrange(start as int, end as int);
    proof {
        if end > start {
            assert(kept.last() == chars@[end - 1]);
        }
    }
    let mut inner = String::new();
    let mut index: usize = start;
    while index < end
        invariant
            start <= index <= end <= chars@.len(),
            inner@ == chars@.subrange(start as int, index as int),
        decreases end - index,
    {
        inner.push(chars[index]);
        index += 1;
        assert(inner@ =~= chars@.subrange(start as int, index as int));
    }
    inner
}

/// Whether two texts have the same characters.
pub fn same_text(a: &str, b: &str) -> (same: bool)
    ensures
        same == (a@ == b@),
{
    let left: Vec<char> = chars_of(a);
    let right: Vec<char> = chars_of(b);
    if left.len() != right.len() {
        return false;
    }
    let mut index: usize = 0;
    while index < left.len()
        invariant
            index <= left@.len(),
            left@.len() == right@.len(),
            left@ == a@,
            right@ == b@,
            forall|i: int| 0 <= i < index ==> left@[i] == right@[i],
        decreases left@.len() - index,
    {
        if left[index] != right[index] {
            return false;
        }
        index += 1;
    }
    assert(left@ =~= right@);
    true
}

/// A character that may stand in a line: no control character, and no other
/// white space than the space.
pub open spec fn is_plain(c: char) -> bool {
    !is_control(c) && (is_space(c) ==> c == ' ')
}

/// Every character of a text may stand in a line.
pub open spec fn all_plain(text: Seq<char>) -> bool {
    forall|i: int| 0 <= i < text.len() ==> is_plain(#[trigger] text[i])
}

/// The words of a text without control characters are plain.
proof fn lemma_words_are_plain(text: Seq<char>)
    requires
        forall|i: int| 0 <= i < text.len() ==> !is_control(#[trigger] text[i]),
    ensures
        forall|k: int| 0 <= k < words_of(text).len() ==> all_plain(#[trigger] words_of(text)[k]),
    decreases text.len(),
{
    if text.len() > 0 {
        let head = text.drop_last();
        let before = words_of(head);
        let c = text.last();
        lemma_words_are_plain(head);
        lemma_words_are_not_empty(head);
        assert(!is_control(c));
        assert forall|k: int| 0 <= k < words_of(text).len() implies all_plain(
            #[trigger] words_of(text)[k],
        ) by {
            if k < before.len() {
                assert(all_plain(before[k]));
            }
        }
    }
}

/// Plain pieces make a plain line.
proof fn lemma_joined_is_plain(pieces: Seq<Seq<char>>)
    requires
        forall|k: int| 0 <= k < pieces.len() ==> all_plain(#[trigger] pieces[k]),
    ensures
        all_plain(text::joined(pieces, " "@)),
    decreases pieces.len(),
{
    reveal_strlit(" ");
    if pieces.len() > 1 {
        assert(all_plain(pieces.last()));
        lemma_joined_is_plain(pieces.drop_last());
    } else if pieces.len() == 1 {
        assert(all_plain(pieces[0]));
    }
}

/// The words of a text on one line hold no control character, no white space
/// other than spaces, and at most `limit` characters.
pub proof fn lines_are_plain_and_short(text: Seq<char>, limit: nat)
    ensures
        one_line(text, limit) matches Some(line) ==> all_plain(line) && 0 < line.len() <= limit,
{
    let plain = without_controls(text);
    assert forall|i: int| 0 <= i < plain.len() implies !is_control(#[trigger] plain[i]) by {}
    lemma_words_are_plain(plain);
    lemma_joined_is_plain(words_of(plain));
}

/// Trimming takes away the white space at both ends and nothing else: what is left is
/// a stretch of the text that neither begins nor ends with white space, and around
/// it there was only white space.
pub proof fn trimming_takes_the_ends_away(text: Seq<char>)
    ensures
        ({
            let inner = trimmed(text);
            &&& inner.len() > 0 ==> !is_space(inner[0]) && !is_space(inner.last())
            &&& exists|start: int, end: int|
                0 <= start <= end <= text.len() && #[trigger] text.subrange(start, end) == inner && (
                forall|i: int|
                    0 <= i < text.len() && !(start <= i < end) ==> is_space(#[trigger] text[i]))
        }),
{
    lemma_trimmed_start_is_a_suffix(text);
    let rest = trimmed_start(text);
    lemma_trimmed_end_is_a_prefix(rest);
    let inner = trimmed(text);
    let start = text.len() - rest.len();
    let end = start + inner.len();
    assert(text.subrange(start, end) =~= inner);
    assert forall|i: int| 0 <= i < text.len() && !(start <= i < end) implies is_space(
        #[trigger] text[i],
    ) by {
        if i >= end {
            assert(rest[i - start] == text[i]);
        }
    }
    if inner.len() > 0 {
        assert(inner[0] == rest[0]);
    }
}

proof fn lemma_trimmed_start_is_a_suffix(text: Seq<char>)
    ensures
        trimmed_start(text).len() <= text.len(),
        trimmed_start(text) == text.skip(text.len() - trimmed_start(text).len()),
        forall|i: int|
            0 <= i < text.len() - trimmed_start(text).len() ==> is_space(#[trigger] text[i]),
        trimmed_start(text).len() > 0 ==> !is_space(trimmed_start(text)[0]),
    decreases text.len(),
{
    if text.len() > 0 && is_space(text[0]) {
        let rest = text.skip(1);
        lemma_trimmed_start_is_a_suffix(rest);
        let kept = trimmed_start(text);
        assert(kept =~= text.skip(text.len() - kept.len()));
        assert forall|i: int| 0 <= i < text.len() - kept.len() implies is_space(
            #[trigger] text[i],
        ) by {
            if i > 0 {
                assert(rest[i - 1] == text[i]);
            }
        }
    } else {
        assert(text.skip(0) =~= text);
    }
}

proof fn lemma_trimmed_end_is_a_prefix(text: Seq<char>)
    ensures
        trimmed_end(text).len() <= text.len(),
        trimmed_end(text) == text.take(trimmed_end(text).len() as int),
        forall|i: int|
            trimmed_end(text).len() <= i < text.len() ==> is_space(#[trigger] text[i]),
        trimmed_end(text).len() > 0 ==> !is_space(trimmed_end(text).last()),
    decreases text.len(),
{
    if text.len() > 0 && is_space(text.last()) {
        let head = text.drop_last();
        lemma_trimmed_end_is_a_prefix(head);
        let kept = trimmed_end(text);
        assert(kept =~= text.take(kept.len() as int));
        assert forall|i: int| kept.len() <= i < text.len() implies is_space(#[trigger] text[i]) by {
            if i < head.len() {
                assert(head[i] == text[i]);
            }
        }
    } else {
        assert(text.take(text.len() as int) =~= text);
    }
}

/// The characters of a text without its white space.
pub open spec fn without_spaces(text: Seq<char>) -> Seq<char>
    decreases text.len(),
{
    if text.len() == 0 {
        Seq::empty()
    } else if is_space(text.last()) {
        without_spaces(text.drop_last())
    } else {
        without_spaces(text.drop_last()).push(text.last())
    }
}

/// The pieces one after another.
pub open spec fn concatenated(pieces: Seq<Seq<char>>) -> Seq<char>
    decreases pieces.len(),
{
    if pieces.len() == 0 {
        Seq::empty()
    } else {
        concatenated(pieces.drop_last()) + pieces.last()
    }
}

/// The words of a text are all of its characters but the white space, in their order;
/// no word is empty or holds white space, and characters that stand next to each
/// other share a word.
pub proof fn words_keep_every_character(text: Seq<char>)
    ensures
        concatenated(words_of(text)) == without_spaces(text),
        forall|k: int|
            0 <= k < words_of(text).len() ==> (#[trigger] words_of(text)[k]).len() > 0 && (forall|
                i: int,
            |
                0 <= i < words_of(text)[k].len() ==> !is_space(#[trigger] words_of(text)[k][i])),
        text.len() > 0 && !is_space(text.last()) ==> words_of(text).len() > 0,
    decreases text.len(),
{
    if text.len() > 0 {
        let head = text.drop_last();
        let c = text.last();
        let before = words_of(head);
        let words = words_of(text);
        words_keep_every_character(head);
        if !is_space(c) {
            if head.len() == 0 || is_space(head.last()) {
                assert(words.drop_last() =~= before);
                assert(concatenated(words) =~= without_spaces(text));
            } else {
                assert(words.drop_last() =~= before.drop_last());
                assert(words.last() == before.last().push(c));
                assert(concatenated(words) =~= without_spaces(text));
            }
            assert forall|k: int| 0 <= k < words.len() implies (#[trigger] words[k]).len() > 0 && (
            forall|i: int| 0 <= i < words[k].len() ==> !is_space(#[trigger] words[k][i])) by {
                if k < before.len() {
                    assert(before[k].len() > 0);
                    assert forall|i: int| 0 <= i < words[k].len() implies !is_space(
                        #[trigger] words[k][i],
                    ) by {
                        if i < before[k].len() {
                            assert(words[k][i] == before[k][i]);
                        }
                    }
                }
            }
        }
    }
}

/// A text that is one word already, or that ends one, shows how words are told apart:
/// white space ends a word, a further character grows the last word, and a character
/// after white space begins another.
pub proof fn white_space_tells_words_apart(text: Seq<char>, c: char)
    ensures
        is_space(c) ==> words_of(text.push(c)) == words_of(text),
        !is_space(c) && (text.len() == 0 || is_space(text.last())) ==> words_of(text.push(c)).len()
            == words_of(text).len() + 1,
        !is_space(c) && text.len() > 0 && !is_space(text.last()) ==> words_of(text.push(c)).len()
            == words_of(text).len(),
{
    assert(text.push(c).drop_last() =~= text);
    words_keep_every_character(text);
}

/// What is kept of a text are its first characters: all of them, up to the limit.
pub proof fn texts_keep_their_first_characters(text: Seq<char>, limit: nat)
    ensures
        text.len() <= limit ==> first_chars(text, limit) == text,
        text.len() > limit ==> first_chars(text, limit) == text.subrange(0, limit as int),
{
    if text.len() <= limit {
        assert(first_chars(text, limit) =~= text);
    }
}

/// A text has a line exactly if it has a word: control characters count as white
/// space, and a text of nothing else gives no line.
pub proof fn texts_without_words_have_no_line(text: Seq<char>, limit: nat)
    requires
        limit > 0,
        forall|i: int| 0 <= i < text.len() ==> is_control(#[trigger] text[i]) || is_space(text[i]),
    ensures
        one_line(text, limit) is None,
{
    let plain = without_controls(text);
    assert forall|i: int| 0 <= i < plain.len() implies is_space(#[trigger] plain[i]) by {
        assert(is_control(text[i]) || is_space(text[i]));
    }
    lemma_no_words(plain);
    assert(text::joined(words_of(plain), " "@).len() == 0);
}

proof fn lemma_no_words(text: Seq<char>)
    requires
        forall|i: int| 0 <= i < text.len() ==> is_space(#[trigger] text[i]),
    ensures
        words_of(text).len() == 0,
    decreases text.len(),
{
    if text.len() > 0 {
        assert(is_space(text[text.len() - 1]));
        let head = text.drop_last();
        assert forall|i: int| 0 <= i < head.len() implies is_space(#[trigger] head[i]) by {
            assert(head[i] == text[i]);
        }
        lemma_no_words(head);
    }
}

/// Control characters are replaced by spaces, one by one, and no other character is.
pub proof fn control_characters_become_spaces(text: Seq<char>, index: int)
    requires
        0 <= index < text.len(),
    ensures
        without_controls(text).len() == text.len(),
        is_control(text[index]) ==> without_controls(text)[index] == ' ',
        !is_control(text[index]) ==> without_controls(text)[index] == text[index],
{
}

/// Which characters count as white space, and which as controls: of the printable ASCII
/// characters only the space is white space, and none is a control.
pub proof fn printable_characters_stay(c: char)
    ensures
        '!' <= c <= '~' ==> !is_space(c) && !is_control(c),
        is_space(' ') && is_space('\t') && is_space('\n') && is_space('\r'),
        is_control('\t') && is_control('\n') && is_control('\r') && !is_control(' '),
        c < ' ' ==> is_control(c),
        is_space('\u{a0}') && is_space('\u{3000}') && is_space('\u{2028}'),
        is_control('\u{7f}') && is_control('\u{85}'),
{
}

} // verus!
