//! The fields that the text of a shader declares for the uniform block.
use vstd::prelude::*;
use vstd::string::StringExecFns;

use crate::presentation;
use crate::presentation::{PresentationParams, presentation_field_names, words_of};
use crate::text;
use crate::words;
use crate::words::{chars_of, first_characters, same_text, trim};

verus! {

/// A piece of text stands at a place of a text.
pub open spec fn stands_at(text: Seq<char>, piece: Seq<char>, place: int) -> bool {
    &&& 0 <= place
    &&& place + piece.len() <= text.len()
    &&& text.subrange(place, place + piece.len()) == piece
}

/// The first place, from a given one on, at which a piece of text stands.
pub open spec fn place_from(text: Seq<char>, piece: Seq<char>, from: int) -> Option<int>
    decreases text.len() + 1 - from,
{
    if from + piece.len() > text.len() {
        None
    } else if stands_at(text, piece, from) {
        Some(from)
    } else {
        place_from(text, piece, from + 1)
    }
}

/// The first place at which a piece of text stands.
pub open spec fn first_place(text: Seq<char>, piece: Seq<char>) -> Option<int> {
    place_from(text, piece, 0)
}

/// The lines of a text: the stretches between its line feeds.
pub open spec fn lines_of(text: Seq<char>) -> Seq<Seq<char>>
    decreases text.len(),
{
    if text.len() == 0 {
        seq![Seq::empty()]
    } else {
        let before = lines_of(text.drop_last());
        if text.last() == '\n' {
            before.push(Seq::empty())
        } else {
            before.update(before.len() - 1, before.last().push(text.last()))
        }
    }
}

/// The field that a line declares: a name, a colon and a type, and a comma at
/// the end, with white space around each.
pub open spec fn line_field(line: Seq<char>) -> Option<Seq<char>> {
    let declaration = words::trimmed(line);
    if declaration.len() > 0 && declaration.last() == ',' {
        match first_place(declaration.drop_last(), ":"@) {
            Some(place) => Some(words::trimmed(declaration.take(place))),
            None => None,
        }
    } else {
        None
    }
}

/// The fields that lines declare, in their order.
pub open spec fn fields_of(lines: Seq<Seq<char>>) -> Seq<Seq<char>>
    decreases lines.len(),
{
    if lines.len() == 0 {
        Seq::empty()
    } else {
        let before = fields_of(lines.drop_last());
        match line_field(lines.last()) {
            Some(name) => before.push(name),
            None => before,
        }
    }
}

/// The text between the braces of the declaration of `Params`, if a shader has
/// one that is closed.
pub open spec fn params_body(shader: Seq<char>) -> Option<Seq<char>> {
    match first_place(shader, "struct Params {"@) {
        Some(place) => {
            let rest = shader.skip(place + "struct Params {"@.len());
            match first_place(rest, "}"@) {
                Some(end) => Some(rest.take(end)),
                None => None,
            }
        },
        None => None,
    }
}

/// The fields that a shader declares for `Params`, one to a line.
pub open spec fn params_fields(shader: Seq<char>) -> Option<Seq<Seq<char>>> {
    match params_body(shader) {
        Some(body) => Some(fields_of(lines_of(body))),
        None => None,
    }
}

/// Looks for the first place at which a piece of text stands.
fn find(chars: &Vec<char>, piece: &Vec<char>) -> (place: Option<usize>)
    ensures
        match place {
            Some(at) => first_place(chars@, piece@) == Some(at as int),
            None => first_place(chars@, piece@) is None,
        },
        place matches Some(at) ==> at + piece@.len() <= chars@.len(),
{
    if piece.len() > chars.len() {
        return None;
    }
    let last: usize = chars.len() - piece.len();
    let mut from: usize = 0;
    loop
        invariant
            from <= last,
            last + piece.len() == chars.len(),
            first_place(chars@, piece@) == place_from(chars@, piece@, from as int),
        decreases last - from,
    {
        let mut index: usize = 0;
        while index < piece.len() && chars[from + index] == piece[index]
            invariant
                from <= last,
                last + piece.len() == chars.len(),
                index <= piece@.len(),
                forall|i: int| 0 <= i < index ==> chars@[from + i] == #[trigger] piece@[i],
            decreases piece@.len() - index,
        {
            index += 1;
        }
        let ghost here = chars@.subrange(from as int, from + piece@.len());
        if index == piece.len() {
            assert(here =~= piece@);
            return Some(from);
        }
        assert(here[index as int] != piece@[index as int]);
        if from == last {
            assert(place_from(chars@, piece@, from + 1) is None);
            return None;
        }
        from += 1;
    }
}

/// The characters from a place on.
fn chars_from(chars: &Vec<char>, start: usize) -> (rest: Vec<char>)
    requires
        start <= chars@.len(),
    ensures
        rest@ == chars@.skip(start as int),
{
    let mut rest: Vec<char> = Vec::new();
    let mut index: usize = start;
    while index < chars.len()
        invariant
            start <= index <= chars@.len(),
            rest@ == chars@.subrange(start as int, index as int),
        decreases chars@.len() - index,
    {
        rest.push(chars[index]);
        index += 1;
        assert(rest@ =~= chars@.subrange(start as int, index as int));
    }
    assert(rest@ =~= chars@.skip(start as int));
    rest
}

/// The field that a line declares.
fn declared_field(line: &str) -> (name: Option<String>)
    ensures
        text::option_view(name) == line_field(line@),
{
    let declaration: String = trim(line);
    let mut chars: Vec<char> = chars_of(declaration.as_str());
    match chars.pop() {
        Some(',') => {
            assert(chars@ =~= declaration@.drop_last());
            match find(&chars, &chars_of(":")) {
                Some(place) => {
                    let name: String = first_characters(declaration.as_str(), place);
                    Some(trim(name.as_str()))
                },
                None => None,
            }
        },
        _ => None,
    }
}

/// A further character ends the last line, or belongs to it.
proof fn lemma_lines_grow(text: Seq<char>, count: int)
    requires
        0 <= count < text.len(),
    ensures
        lines_of(text.take(count + 1)) == if text[count] == '\n' {
            lines_of(text.take(count)).push(Seq::empty())
        } else {
            let before = lines_of(text.take(count));
            before.update(before.len() - 1, before.last().push(text[count]))
        },
{
    assert(text.take(count + 1).drop_last() =~= text.take(count));
}

/// A text has at least one line.
proof fn lemma_lines_are_not_empty(text: Seq<char>)
    ensures
        lines_of(text).len() > 0,
    decreases text.len(),
{
    if text.len() > 0 {
        lemma_lines_are_not_empty(text.drop_last());
    }
}

/// Lists the fields that the lines before a place of a text declare.
fn list_fields(chars: &Vec<char>, end: usize) -> (names: Vec<String>)
    requires
        end <= chars@.len(),
    ensures
        text::views(names@) == fields_of(lines_of(chars@.take(end as int))),
{
    let mut names: Vec<String> = Vec::new();
    let mut line = String::new();
    let mut index: usize = 0;
    proof {
        assert(chars@.take(0) =~= Seq::empty());
        assert(lines_of(chars@.take(0)).drop_last() =~= Seq::empty());
        assert(text::views(names@) =~= Seq::empty());
    }
    while index < end
        invariant
            index <= end <= chars@.len(),
            line@ == lines_of(chars@.take(index as int)).last(),
            text::views(names@) == fields_of(lines_of(chars@.take(index as int)).drop_last()),
        decreases end - index,
    {
        let c: char = chars[index];
        let ghost before = lines_of(chars@.take(index as int));
        let ghost after = lines_of(chars@.take(index + 1));
        proof {
            lemma_lines_grow(chars@, index as int);
            lemma_lines_are_not_empty(chars@.take(index as int));
        }
        if c == '\n' {
            assert(after.drop_last() =~= before);
            add_field(&mut names, line.as_str());
            line = String::new();
        } else {
            assert(after.drop_last() =~= before.drop_last());
            line.push(c);
        }
        index += 1;
    }
    proof {
        lemma_lines_are_not_empty(chars@.take(end as int));
    }
    add_field(&mut names, line.as_str());
    names
}

/// Adds the field that a line declares, if it declares one.
fn add_field(names: &mut Vec<String>, line: &str)
    ensures
        text::views(final(names)@) == match line_field(line@) {
            Some(name) => text::views(old(names)@).push(name),
            None => text::views(old(names)@),
        },
{
    match declared_field(line) {
        Some(name) => {
            names.push(name);
            assert(text::views(names@) =~= text::views(old(names)@).push(name@));
        },
        None => {},
    }
}

/// The names of the fields that a shader declares for its uniform block, in their
/// order. A shader that does not declare the block, or does not close it, has
/// none.
pub fn declared_field_names(shader: &str) -> (names: Option<Vec<String>>)
    ensures
        match names {
            Some(found) => params_fields(shader@) == Some(text::views(found@)),
            None => params_fields(shader@) is None,
        },
{
    let chars: Vec<char> = chars_of(shader);
    let opening: Vec<char> = chars_of("struct Params {");
    match find(&chars, &opening) {
        Some(place) => {
            assert(chars@.len() == chars.len());
            let rest: Vec<char> = chars_from(&chars, place + opening.len());
            match find(&rest, &chars_of("}")) {
                Some(end) => Some(list_fields(&rest, end)),
                None => None,
            }
        },
        None => None,
    }
}

/// Whether a shader declares the fields of the uniform block that the
/// parameters are serialized to.
pub fn declares_parameters(shader: &str) -> (declares: bool)
    ensures
        declares == (params_fields(shader@) == Some(presentation::field_names())),
{
    let expected: [&'static str; 28] = presentation_field_names();
    match declared_field_names(shader) {
        Some(names) => {
            let ghost found = text::views(names@);
            if names.len() != 28 {
                assert(found.len() != presentation::field_names().len());
                return false;
            }
            let mut index: usize = 0;
            while index < 28
                invariant
                    index <= 28,
                    names@.len() == 28,
                    found == text::views(names@),
                    params_fields(shader@) == Some(found),
                    forall|i: int|
                        0 <= i < 28 ==> (#[trigger] expected@[i])@ == presentation::field_names()[i],
                    forall|i: int|
                        0 <= i < index ==> #[trigger] found[i] == presentation::field_names()[i],
                decreases 28 - index,
            {
                if !same_text(names[index].as_str(), expected[index]) {
                    assert(found[index as int] != presentation::field_names()[index as int]);
                    return false;
                }
                assert(found[index as int] == expected@[index as int]@);
                index += 1;
            }
            assert(found =~= presentation::field_names());
            true
        },
        None => false,
    }
}

/// A shader that declares the fields of the uniform block reads each word of it
/// as the parameter that was put there.
pub proof fn declared_fields_get_their_words(
    shader: Seq<char>,
    params: PresentationParams,
    index: int,
)
    requires
        params_fields(shader) == Some(presentation::field_names()),
        0 <= index < 28,
    ensures
        params_fields(shader)->0.len() == words_of(params).len(),
        words_of(params)[index] == presentation::field_word(
            params,
            params_fields(shader)->0[index],
        ),
{
    presentation::words_follow_the_field_names(params, index);
}

/// What it means that a place is the first one.
proof fn lemma_first_place(text: Seq<char>, piece: Seq<char>, from: int)
    requires
        0 <= from,
    ensures
        match place_from(text, piece, from) {
            Some(place) => {
                &&& from <= place
                &&& stands_at(text, piece, place)
                &&& forall|at: int| from <= at < place ==> !#[trigger] stands_at(text, piece, at)
            },
            None => forall|at: int| from <= at ==> !#[trigger] stands_at(text, piece, at),
        },
    decreases text.len() + 1 - from,
{
    if from + piece.len() <= text.len() && !stands_at(text, piece, from) {
        lemma_first_place(text, piece, from + 1);
    }
}

/// There is only one first place.
proof fn lemma_same_first_place(text: Seq<char>, piece: Seq<char>, place: int)
    requires
        stands_at(text, piece, place),
        forall|at: int| 0 <= at < place ==> !#[trigger] stands_at(text, piece, at),
    ensures
        first_place(text, piece) == Some(place),
{
    lemma_first_place(text, piece, 0);
}

/// A piece of one line that does not stand in a text stands in the text and a
/// further one below it where it stands in the further one.
proof fn lemma_place_below(upper: Seq<char>, lower: Seq<char>, piece: Seq<char>)
    requires
        piece.len() > 0,
        !piece.contains('\n'),
        first_place(upper, piece) is None,
    ensures
        first_place(upper + "\n"@ + lower, piece) == match first_place(lower, piece) {
            Some(place) => Some(upper.len() + 1 + place),
            None => None,
        },
{
    reveal_strlit("\n");
    let whole = upper + "\n"@ + lower;
    let shift = upper.len() + 1;
    lemma_first_place(upper, piece, 0);
    lemma_first_place(lower, piece, 0);
    assert(whole[upper.len() as int] == '\n');
    assert forall|at: int| 0 <= at && #[trigger] stands_at(whole, piece, at) implies at >= shift
        && stands_at(lower, piece, at - shift) by {
        let here = whole.subrange(at, at + piece.len());
        if at + piece.len() <= upper.len() {
            assert(upper.subrange(at, at + piece.len()) =~= here);
            assert(stands_at(upper, piece, at));
        } else if at <= upper.len() {
            assert(here[upper.len() - at] == '\n');
            assert(piece.contains('\n'));
        } else {
            assert(lower.subrange(at - shift, at - shift + piece.len()) =~= here);
        }
    }
    match first_place(lower, piece) {
        Some(place) => {
            assert(whole.subrange(shift + place, shift + place + piece.len()) =~= lower.subrange(
                place,
                place + piece.len(),
            ));
            lemma_same_first_place(whole, piece, shift + place);
        },
        None => {
            lemma_first_place(whole, piece, 0);
        },
    }
}

/// The shader that is put together declares what the presentation's own part
/// declares, unless one of the other parts declares the block itself.
pub proof fn shader_sources_keep_the_declaration(
    color_transform: Seq<char>,
    test_pattern: Seq<char>,
    dither: Seq<char>,
    presentation: Seq<char>,
)
    requires
        first_place(color_transform, "struct Params {"@) is None,
        first_place(test_pattern, "struct Params {"@) is None,
        first_place(dither, "struct Params {"@) is None,
    ensures
        params_fields(
            text::joined(seq![color_transform, test_pattern, dither, presentation], "\n"@),
        ) == params_fields(presentation),
{
    let opening = "struct Params {"@;
    reveal_strlit("struct Params {");
    reveal_strlit("\n");
    let pieces = seq![color_transform, test_pattern, dither, presentation];
    assert(pieces.drop_last() =~= seq![color_transform, test_pattern, dither]);
    assert(pieces.drop_last().drop_last() =~= seq![color_transform, test_pattern]);
    assert(pieces.drop_last().drop_last().drop_last() =~= seq![color_transform]);
    reveal_with_fuel(text::joined, 4);
    let two = color_transform + "\n"@ + test_pattern;
    let three = two + "\n"@ + dither;
    let whole = three + "\n"@ + presentation;
    assert(text::joined(pieces, "\n"@) == whole);
    lemma_place_below(color_transform, test_pattern, opening);
    lemma_place_below(two, dither, opening);
    lemma_place_below(three, presentation, opening);
    match first_place(presentation, opening) {
        Some(place) => {
            lemma_first_place(presentation, opening, 0);
            assert(whole.skip(three.len() + 1 + place + opening.len()) =~= presentation.skip(
                place + opening.len(),
            ));
        },
        None => {},
    }
}

/// A name as fields have it: not empty, without white space, without a colon and
/// without a brace that closes.
pub open spec fn is_field_name(name: Seq<char>) -> bool {
    &&& name.len() > 0
    &&& forall|i: int|
        0 <= i < name.len() ==> !words::is_space(#[trigger] name[i]) && name[i] != ':' && name[i]
            != '}'
}

/// A type as fields have it: on one line, and without a brace that closes.
pub open spec fn is_field_type(kind: Seq<char>) -> bool {
    forall|i: int| 0 <= i < kind.len() ==> #[trigger] kind[i] != '\n' && kind[i] != '}'
}

/// The declaration of a field on its line.
pub open spec fn field_line(name: Seq<char>, kind: Seq<char>) -> Seq<char> {
    "    "@ + (name + ": "@ + kind + ","@)
}

/// The text that declares fields, given by their names and types, one to a line.
pub open spec fn field_lines(fields: Seq<(Seq<char>, Seq<char>)>) -> Seq<char>
    decreases fields.len(),
{
    if fields.len() == 0 {
        "\n"@
    } else {
        field_lines(fields.drop_last()) + field_line(fields.last().0, fields.last().1) + "\n"@
    }
}

/// The line of a field declares its name.
proof fn lemma_line_field(name: Seq<char>, kind: Seq<char>)
    requires
        is_field_name(name),
    ensures
        line_field(field_line(name, kind)) == Some(name),
{
    reveal_strlit("    ");
    reveal_strlit(": ");
    reveal_strlit(",");
    reveal_strlit(":");
    let line = field_line(name, kind);
    let declaration = name + ": "@ + kind + ","@;
    words::lemma_trimmed_start_skips(line, 4);
    assert(line.skip(4) =~= declaration);
    assert(declaration[0] == name[0]);
    assert(words::trimmed(line) == declaration);
    let open = declaration.drop_last();
    assert(open.subrange(name.len() as int, name.len() as int + 1) =~= ":"@);
    assert forall|at: int| 0 <= at < name.len() implies !#[trigger] stands_at(open, ":"@, at) by {
        assert(open.subrange(at, at + 1)[0] == name[at]);
    }
    lemma_same_first_place(open, ":"@, name.len() as int);
    assert(declaration.take(name.len() as int) =~= name);
    assert(!words::is_space(name[0]) && !words::is_space(name.last()));
}

/// Text without a line feed belongs to the last line.
proof fn lemma_last_line_extends(text: Seq<char>, piece: Seq<char>)
    requires
        !piece.contains('\n'),
    ensures
        lines_of(text + piece) == lines_of(text).drop_last().push(lines_of(text).last() + piece),
    decreases piece.len(),
{
    let before = lines_of(text);
    lemma_lines_are_not_empty(text);
    if piece.len() == 0 {
        assert(text + piece =~= text);
        assert(before.last() + piece =~= before.last());
        assert(before.drop_last().push(before.last()) =~= before);
    } else {
        let shorter = piece.drop_last();
        assert forall|i: int| 0 <= i < shorter.len() implies shorter[i] != '\n' by {
            assert(piece.contains(piece[i]));
        }
        assert(piece.contains(piece.last()));
        lemma_last_line_extends(text, shorter);
        assert((text + piece).drop_last() =~= text + shorter);
        assert((text + piece).last() == piece.last());
        assert((before.last() + shorter).push(piece.last()) =~= before.last() + piece);
        assert(lines_of(text + piece) =~= before.drop_last().push(before.last() + piece));
    }
}

/// The lines that declare fields declare their names, and the last of them is
/// complete.
proof fn lemma_field_lines(fields: Seq<(Seq<char>, Seq<char>)>)
    requires
        forall|i: int|
            0 <= i < fields.len() ==> is_field_name((#[trigger] fields[i]).0) && is_field_type(
                fields[i].1,
            ),
    ensures
        lines_of(field_lines(fields)).last().len() == 0,
        fields_of(lines_of(field_lines(fields))) == fields.map_values(
            |field: (Seq<char>, Seq<char>)| field.0,
        ),
        !field_lines(fields).contains('}'),
    decreases fields.len(),
{
    let names = fields.map_values(|field: (Seq<char>, Seq<char>)| field.0);
    let whole = field_lines(fields);
    reveal_strlit("\n");
    if fields.len() == 0 {
        let line = Seq::<char>::empty();
        reveal_with_fuel(lines_of, 2);
        reveal_with_fuel(fields_of, 3);
        assert("\n"@.drop_last() =~= line);
        assert(lines_of("\n"@) =~= seq![line, line]);
        assert(lines_of("\n"@).drop_last() =~= seq![line]);
        assert(words::trimmed(line).len() == 0);
        assert(fields_of(lines_of("\n"@)) =~= names);
    } else {
        let shorter = fields.drop_last();
        let upper = field_lines(shorter);
        let (name, kind) = fields.last();
        let line = field_line(name, kind);
        lemma_field_lines(shorter);
        assert(is_field_name(fields[fields.len() - 1].0));
        lemma_line_field(name, kind);
        reveal_strlit("    ");
        reveal_strlit(": ");
        reveal_strlit(",");
        assert forall|i: int| 0 <= i < line.len() implies line[i] != '\n' && line[i] != '}' by {
            if 4 <= i < 4 + name.len() {
                assert(line[i] == name[i - 4]);
                assert(!words::is_space(name[i - 4]));
            } else if 6 + name.len() <= i < 6 + name.len() + kind.len() {
                assert(line[i] == kind[i - 6 - name.len()]);
            }
        }
        let before = lines_of(upper);
        lemma_lines_are_not_empty(upper);
        lemma_last_line_extends(upper, line);
        let after = lines_of(upper + line);
        assert(before.last() + line =~= line);
        assert(whole.drop_last() =~= upper + line);
        assert(whole.last() == '\n');
        assert(lines_of(whole) == after.push(Seq::empty()));
        assert(after.push(Seq::empty()).drop_last() =~= after);
        assert(after.drop_last() =~= before.drop_last());
        assert(words::trimmed(Seq::<char>::empty()).len() == 0);
        assert(before.last() =~= Seq::empty());
        assert(fields_of(before) == fields_of(before.drop_last()));
        assert(fields_of(lines_of(whole)) == fields_of(after));
        assert(fields_of(after) == fields_of(before).push(name));
        assert(names =~= shorter.map_values(|field: (Seq<char>, Seq<char>)| field.0).push(name));
        assert forall|i: int| 0 <= i < whole.len() implies whole[i] != '}' by {
            if i < upper.len() {
                assert(upper.contains(upper[i]));
            } else if i < upper.len() + line.len() {
                assert(whole[i] == line[i - upper.len()]);
            }
        }
    }
}

/// A piece of text stands first where it was put, if it does not stand in the
/// text before and its last character ends it only.
proof fn lemma_put_place(before: Seq<char>, piece: Seq<char>, rest: Seq<char>)
    requires
        piece.len() > 0,
        forall|i: int| 0 <= i < piece.len() - 1 ==> #[trigger] piece[i] != piece.last(),
        first_place(before, piece) is None,
    ensures
        first_place(before + piece + rest, piece) == Some(before.len() as int),
{
    let whole = before + piece + rest;
    let size = piece.len() as int;
    lemma_first_place(before, piece, 0);
    assert(whole.subrange(before.len() as int, before.len() + size) =~= piece);
    assert forall|at: int| 0 <= at < before.len() implies !#[trigger] stands_at(
        whole,
        piece,
        at,
    ) by {
        let here = whole.subrange(at, at + size);
        if stands_at(whole, piece, at) {
            if at + size <= before.len() {
                assert(before.subrange(at, at + size) =~= here);
                assert(stands_at(before, piece, at));
            } else {
                assert(here[size - 1] == piece[at + size - 1 - before.len()]);
            }
        }
    }
    lemma_same_first_place(whole, piece, before.len() as int);
}

/// A brace stands first behind a text that holds none.
proof fn lemma_closing_place(body: Seq<char>, after: Seq<char>)
    requires
        !body.contains('}'),
    ensures
        first_place(body + "}"@ + after, "}"@) == Some(body.len() as int),
{
    reveal_strlit("}");
    let rest = body + "}"@ + after;
    assert(rest.subrange(body.len() as int, body.len() as int + 1) =~= "}"@);
    assert forall|at: int| 0 <= at < body.len() implies !#[trigger] stands_at(rest, "}"@, at) by {
        assert(body.contains(body[at]));
        assert(rest.subrange(at, at + 1)[0] == body[at]);
    }
    lemma_same_first_place(rest, "}"@, body.len() as int);
}

/// Whatever stands around it, a declaration with one field to a line declares
/// these fields: their names are read back in their order.
pub proof fn declarations_are_read_back(
    before: Seq<char>,
    fields: Seq<(Seq<char>, Seq<char>)>,
    after: Seq<char>,
)
    requires
        first_place(before, "struct Params {"@) is None,
        forall|i: int|
            0 <= i < fields.len() ==> is_field_name((#[trigger] fields[i]).0) && is_field_type(
                fields[i].1,
            ),
    ensures
        params_fields(before + "struct Params {"@ + (field_lines(fields) + "}"@ + after)) == Some(
            fields.map_values(|field: (Seq<char>, Seq<char>)| field.0),
        ),
{
    let body = field_lines(fields);
    let rest = body + "}"@ + after;
    let opening = "struct Params {"@;
    let shader = before + opening + rest;
    lemma_field_lines(fields);
    assert(opening.len() > 0 && forall|i: int|
        0 <= i < opening.len() - 1 ==> #[trigger] opening[i] != opening.last()) by {
        reveal_strlit("struct Params {");
    }
    lemma_put_place(before, opening, rest);
    lemma_closing_place(body, after);
    assert(shader.skip(before.len() as int + opening.len()) =~= rest);
    assert(rest.take(body.len() as int) =~= body);
}

/// The fields of the uniform block have names as fields have them.
proof fn lemma_field_names()
    ensures
        forall|i: int| 0 <= i < 28 ==> is_field_name(#[trigger] presentation::field_names()[i]),
{
    assert(is_field_name("mode"@)) by {
        reveal_strlit("mode");
    }
    assert(is_field_name("encode_srgb"@)) by {
        reveal_strlit("encode_srgb");
    }
    assert(is_field_name("dither_bits"@)) by {
        reveal_strlit("dither_bits");
    }
    assert(is_field_name("content_mode"@)) by {
        reveal_strlit("content_mode");
    }
    assert(is_field_name("hdr_reference_white_nits"@)) by {
        reveal_strlit("hdr_reference_white_nits");
    }
    assert(is_field_name("source_peak_nits"@)) by {
        reveal_strlit("source_peak_nits");
    }
    assert(is_field_name("output_peak_nits"@)) by {
        reveal_strlit("output_peak_nits");
    }
    assert(is_field_name("exposure_stops"@)) by {
        reveal_strlit("exposure_stops");
    }
    assert(is_field_name("viewport_width"@)) by {
        reveal_strlit("viewport_width");
    }
    assert(is_field_name("viewport_height"@)) by {
        reveal_strlit("viewport_height");
    }
    assert(is_field_name("image_width"@)) by {
        reveal_strlit("image_width");
    }
    assert(is_field_name("image_height"@)) by {
        reveal_strlit("image_height");
    }
    assert(is_field_name("ui_white_nits"@)) by {
        reveal_strlit("ui_white_nits");
    }
    assert(is_field_name("view_center_x"@)) by {
        reveal_strlit("view_center_x");
    }
    assert(is_field_name("view_center_y"@)) by {
        reveal_strlit("view_center_y");
    }
    assert(is_field_name("view_scale"@)) by {
        reveal_strlit("view_scale");
    }
    assert(is_field_name("background_mode"@)) by {
        reveal_strlit("background_mode");
    }
    assert(is_field_name("center_ui"@)) by {
        reveal_strlit("center_ui");
    }
    assert(is_field_name("source_dynamic_range"@)) by {
        reveal_strlit("source_dynamic_range");
    }
    assert(is_field_name("_padding_0"@)) by {
        reveal_strlit("_padding_0");
    }
    assert(is_field_name("tiled_image"@)) by {
        reveal_strlit("tiled_image");
    }
    assert(is_field_name("tile_size"@)) by {
        reveal_strlit("tile_size");
    }
    assert(is_field_name("tile_columns"@)) by {
        reveal_strlit("tile_columns");
    }
    assert(is_field_name("tile_gutter"@)) by {
        reveal_strlit("tile_gutter");
    }
    assert(is_field_name("resampled_viewport"@)) by {
        reveal_strlit("resampled_viewport");
    }
    assert(is_field_name("_padding_1"@)) by {
        reveal_strlit("_padding_1");
    }
    assert(is_field_name("_padding_2"@)) by {
        reveal_strlit("_padding_2");
    }
    assert(is_field_name("_padding_3"@)) by {
        reveal_strlit("_padding_3");
    }
}

/// The serializer follows the declaration: a shader that declares the fields of
/// the uniform block one to a line, of whatever types and whatever stands around
/// them, reads each word as the parameter that was put there.
pub proof fn serializer_follows_the_declaration(
    before: Seq<char>,
    kinds: Seq<Seq<char>>,
    after: Seq<char>,
    params: PresentationParams,
    index: int,
)
    requires
        first_place(before, "struct Params {"@) is None,
        kinds.len() == 28,
        forall|i: int| 0 <= i < 28 ==> is_field_type(#[trigger] kinds[i]),
        0 <= index < 28,
    ensures
        ({
            let fields = Seq::new(28, |i: int| (presentation::field_names()[i], kinds[i]));
            let shader = before + "struct Params {"@ + (field_lines(fields) + "}"@ + after);
            &&& params_fields(shader) == Some(presentation::field_names())
            &&& words_of(params)[index] == presentation::field_word(
                params,
                params_fields(shader)->0[index],
            )
        }),
{
    let fields = Seq::new(28, |i: int| (presentation::field_names()[i], kinds[i]));
    lemma_field_names();
    declarations_are_read_back(before, fields, after);
    assert(fields.map_values(|field: (Seq<char>, Seq<char>)| field.0)
        =~= presentation::field_names());
    presentation::words_follow_the_field_names(params, index);
}

} // verus!
