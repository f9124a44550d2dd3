//! Building text out of exactly specified pieces.
//!
//! Every message and report of the library is modelled as the sequence of its
//! characters; the functions here append one piece and say which characters
//! that piece has.
use vstd::prelude::*;
use vstd::string::StringExecFns;

verus! {

/// The character of one decimal digit.
pub open spec fn digit_char(digit: nat) -> char {
    if digit == 0 {
        '0'
    } else if digit == 1 {
        '1'
    } else if digit == 2 {
        '2'
    } else if digit == 3 {
        '3'
    } else if digit == 4 {
        '4'
    } else if digit == 5 {
        '5'
    } else if digit == 6 {
        '6'
    } else if digit == 7 {
        '7'
    } else if digit == 8 {
        '8'
    } else {
        '9'
    }
}

/// A number in decimal notation, without leading zeros.
pub open spec fn decimal(value: nat) -> Seq<char>
    decreases value,
{
    if value < 10 {
        seq![digit_char(value)]
    } else {
        decimal(value / 10).push(digit_char(value % 10))
    }
}

/// `numerator / denominator` rounded to the nearest integer; a tie goes to the
/// even neighbour.
pub open spec fn round_half_even(numerator: nat, denominator: nat) -> nat
    recommends
        denominator > 0,
{
    let quotient = numerator / denominator;
    let twice = 2 * (numerator % denominator);
    if twice > denominator || (twice == denominator && quotient % 2 == 1) {
        quotient + 1
    } else {
        quotient
    }
}

/// A count of tenths in decimal notation with one fraction digit.
pub open spec fn one_fraction_digit(tenths: nat) -> Seq<char> {
    decimal(tenths / 10).push('.').push(digit_char(tenths % 10))
}

/// A count of hundredths in decimal notation with two fraction digits.
pub open spec fn two_fraction_digits(hundredths: nat) -> Seq<char> {
    decimal(hundredths / 100).push('.').push(digit_char((hundredths / 10) % 10)).push(
        digit_char(hundredths % 10),
    )
}

/// The pieces one after another, each pair separated by `separator`.
pub open spec fn joined(pieces: Seq<Seq<char>>, separator: Seq<char>) -> Seq<char>
    decreases pieces.len(),
{
    if pieces.len() == 0 {
        Seq::empty()
    } else if pieces.len() == 1 {
        pieces[0]
    } else {
        joined(pieces.drop_last(), separator) + separator + pieces.last()
    }
}

/// The character sequences of a list of strings.
pub open spec fn views(strings: Seq<String>) -> Seq<Seq<char>> {
    strings.map_values(|text: String| text@)
}

/// The character sequence of a string that may be missing.
pub open spec fn option_view(string: Option<String>) -> Option<Seq<char>> {
    match string {
        Some(text) => Some(text@),
        None => None,
    }
}

/// `String::push` appends one character.
pub assume_specification[ String::push ](s: &mut String, c: char)
    ensures
        final(s)@ == old(s)@.push(c),
;

/// Appends a string slice.
pub fn push_text(out: &mut String, text: &str)
    ensures
        final(out)@ == old(out)@ + text@,
{
    out.append(text);
}

/// The character of a decimal digit.
pub fn digit(value: u64) -> (character: char)
    requires
        value < 10,
    ensures
        character == digit_char(value as nat),
{
    if value == 0 {
        '0'
    } else if value == 1 {
        '1'
    } else if value == 2 {
        '2'
    } else if value == 3 {
        '3'
    } else if value == 4 {
        '4'
    } else if value == 5 {
        '5'
    } else if value == 6 {
        '6'
    } else if value == 7 {
        '7'
    } else if value == 8 {
        '8'
    } else {
        '9'
    }
}

/// Appends a number in decimal notation.
pub fn push_decimal(out: &mut String, value: u64)
    ensures
        final(out)@ == old(out)@ + decimal(value as nat),
    decreases value,
{
    if value >= 10 {
        push_decimal(out, value / 10);
    }
    out.push(digit(value % 10));
    assert(final(out)@ =~= old(out)@ + decimal(value as nat));
}

/// Appends a number that counts tenths, with one fraction digit.
pub fn push_one_fraction_digit(out: &mut String, tenths: u64)
    ensures
        final(out)@ == old(out)@ + one_fraction_digit(tenths as nat),
{
    push_decimal(out, tenths / 10);
    out.push('.');
    out.push(digit(tenths % 10));
    assert(final(out)@ =~= old(out)@ + one_fraction_digit(tenths as nat));
}

/// Appends a number that counts hundredths, with two fraction digits.
pub fn push_two_fraction_digits(out: &mut String, hundredths: u64)
    ensures
        final(out)@ == old(out)@ + two_fraction_digits(hundredths as nat),
{
    push_decimal(out, hundredths / 100);
    out.push('.');
    out.push(digit((hundredths / 10) % 10));
    out.push(digit(hundredths % 10));
    assert(final(out)@ =~= old(out)@ + two_fraction_digits(hundredths as nat));
}

/// Rounds a quotient to the nearest integer, ties to even.
pub fn rounded_quotient(numerator: u64, denominator: u64) -> (rounded: u64)
    requires
        denominator > 0,
        numerator <= u32::MAX * 100,
        denominator <= u32::MAX,
    ensures
        rounded == round_half_even(numerator as nat, denominator as nat),
{
    let quotient: u64 = numerator / denominator;
    let remainder: u64 = numerator % denominator;
    assert(quotient <= numerator) by (nonlinear_arith)
        requires
            quotient == numerator / denominator,
            denominator > 0,
    ;
    let twice: u64 = 2 * remainder;
    if twice > denominator || (twice == denominator && quotient % 2 == 1) {
        quotient + 1
    } else {
        quotient
    }
}

/// The number that a digit stands for.
pub open spec fn digit_value(c: char) -> int {
    c as int - '0' as int
}

/// The number that a sequence of decimal digits stands for.
pub open spec fn number_of(digits: Seq<char>) -> int
    decreases digits.len(),
{
    if digits.len() == 0 {
        0
    } else {
        number_of(digits.drop_last()) * 10 + digit_value(digits.last())
    }
}

/// A number is read back from its decimal notation, which has digits only, and no
/// leading zero but for the number zero itself.
pub proof fn decimals_are_read_back(value: nat)
    ensures
        number_of(decimal(value)) == value,
        decimal(value).len() >= 1,
        forall|i: int|
            0 <= i < decimal(value).len() ==> '0' <= #[trigger] decimal(value)[i] <= '9',
        value > 0 ==> decimal(value)[0] != '0',
        value == 0 ==> decimal(value).len() == 1,
    decreases value,
{
    if value >= 10 {
        decimals_are_read_back(value / 10);
        let head = decimal(value / 10);
        let last = digit_char(value % 10);
        assert(decimal(value) == head.push(last));
        assert(head.push(last).drop_last() =~= head);
        assert(decimal(value)[0] == head[0]);
        assert forall|i: int| 0 <= i < decimal(value).len() implies '0' <= #[trigger] decimal(
            value,
        )[i] <= '9' by {
            if i < head.len() {
                assert(decimal(value)[i] == head[i]);
            }
        }
    } else {
        let digits = seq![digit_char(value)];
        assert(digits.drop_last() =~= Seq::<char>::empty());
        assert(number_of(Seq::<char>::empty()) == 0);
        assert(number_of(digits) == digit_value(digit_char(value)));
    }
}

/// A number of tenths or hundredths is shown with its whole part, a point, and one or
/// two digits: without the point the digits are read back as that number.
pub proof fn fractions_are_read_back(value: nat)
    ensures
        ({
            let whole = decimal(value / 10);
            let shown = one_fraction_digit(value);
            &&& shown.len() == whole.len() + 2
            &&& shown.take(whole.len() as int) == whole
            &&& shown[whole.len() as int] == '.'
            &&& number_of(whole) * 10 + digit_value(shown.last()) == value
            &&& '0' <= shown.last() <= '9'
        }),
        ({
            let whole = decimal(value / 100);
            let shown = two_fraction_digits(value);
            &&& shown.len() == whole.len() + 3
            &&& shown.take(whole.len() as int) == whole
            &&& shown[whole.len() as int] == '.'
            &&& number_of(whole) * 100 + digit_value(shown[whole.len() as int + 1]) * 10 + digit_value(
                shown.last(),
            ) == value
            &&& '0' <= shown[whole.len() as int + 1] <= '9'
            &&& '0' <= shown.last() <= '9'
        }),
{
    decimals_are_read_back(value / 10);
    decimals_are_read_back(value / 100);
    assert(one_fraction_digit(value).take(decimal(value / 10).len() as int) =~= decimal(
        value / 10,
    ));
    assert(two_fraction_digits(value).take(decimal(value / 100).len() as int) =~= decimal(
        value / 100,
    ));
    assert(value / 100 * 100 + (value / 10) % 10 * 10 + value % 10 == value);
}

/// A rounded quotient is a nearest integer, and of two nearest ones the even.
pub proof fn quotients_are_rounded_to_the_nearest(numerator: nat, denominator: nat)
    requires
        denominator > 0,
    ensures
        ({
            let rounded = round_half_even(numerator, denominator) as int;
            let error = 2 * (rounded * denominator - numerator);
            &&& -(denominator as int) <= error <= denominator
            &&& error == denominator || error == -(denominator as int) ==> rounded % 2 == 0
        }),
{
    let quotient = numerator / denominator;
    let remainder = numerator % denominator;
    vstd::arithmetic::div_mod::lemma_fundamental_div_mod(numerator as int, denominator as int);
    assert((quotient + 1) * denominator == denominator * quotient + denominator)
        by (nonlinear_arith);
    assert(quotient * denominator == denominator * quotient) by (nonlinear_arith);
}

/// Pieces are joined in their order, with the separator between any two and nowhere
/// else.
pub proof fn pieces_are_joined_in_order(
    pieces: Seq<Seq<char>>,
    piece: Seq<char>,
    separator: Seq<char>,
)
    ensures
        joined(Seq::<Seq<char>>::empty(), separator).len() == 0,
        joined(seq![piece], separator) == piece,
        pieces.len() > 0 ==> joined(pieces.push(piece), separator) == joined(pieces, separator)
            + separator + piece,
{
    assert(pieces.push(piece).drop_last() =~= pieces);
}

/// A fragment stands somewhere in a text.
pub open spec fn mentions(text: Seq<char>, fragment: Seq<char>) -> bool {
    exists|at: int|
        0 <= at && at + fragment.len() <= text.len() && #[trigger] text.subrange(
            at,
            at + fragment.len(),
        ) == fragment
}

/// A text that is put together of three parts mentions the middle one.
pub proof fn lemma_mentions(before: Seq<char>, fragment: Seq<char>, after: Seq<char>)
    ensures
        mentions(before + fragment + after, fragment),
{
    let text = before + fragment + after;
    let at = before.len() as int;
    assert(text.subrange(at, at + fragment.len()) =~= fragment);
}

/// What mentions a fragment mentions it with more text around it, too.
pub proof fn lemma_mentions_within(
    before: Seq<char>,
    text: Seq<char>,
    after: Seq<char>,
    fragment: Seq<char>,
)
    requires
        mentions(text, fragment),
    ensures
        mentions(before + text + after, fragment),
{
    let at = choose|at: int|
        0 <= at && at + fragment.len() <= text.len() && #[trigger] text.subrange(
            at,
            at + fragment.len(),
        ) == fragment;
    let whole = before + text + after;
    let place = before.len() + at;
    assert(whole.subrange(place, place + fragment.len()) =~= text.subrange(
        at,
        at + fragment.len(),
    ));
}

/// A text that a piece is appended to mentions the piece, and what it mentioned before.
pub proof fn lemma_appended(before: Seq<char>, piece: Seq<char>)
    ensures
        mentions(before + piece, piece),
        forall|fragment: Seq<char>|
            #![trigger mentions(before + piece, fragment)]
            mentions(before, fragment) ==> mentions(before + piece, fragment),
{
    let none = Seq::<char>::empty();
    lemma_mentions(before, piece, none);
    assert(before + piece + none =~= before + piece);
    assert forall|fragment: Seq<char>|
        #![trigger mentions(before + piece, fragment)]
        mentions(before, fragment) implies mentions(before + piece, fragment) by {
        lemma_mentions_within(none, before, piece, fragment);
        assert(none + before + piece =~= before + piece);
    }
}

/// Pieces that are appended one by one are appended as one.
pub proof fn lemma_grouped(before: Seq<char>, a: Seq<char>, b: Seq<char>, c: Seq<char>)
    ensures
        before + a + b == before + (a + b),
        before + a + b + c == before + (a + b + c),
{
    assert(before + a + b =~= before + (a + b));
    assert(before + a + b + c =~= before + (a + b + c));
}

/// A selected pair is told behind its range, in brackets.
pub proof fn lemma_told_pair(range: Seq<char>, format: Seq<char>, color_space: Seq<char>)
    requires
        mentions(range, range),
    ensures
        ({
            let told = range + " selected ("@ + format + "/"@ + color_space + ")"@;
            &&& mentions(told, range)
            &&& mentions(told, format + "/"@ + color_space)
        }),
{
    let start = range + " selected ("@;
    let pair = format + "/"@ + color_space;
    lemma_grouped(start, format, "/"@, color_space);
    lemma_appended(range, " selected ("@);
    lemma_appended(start, pair);
    lemma_appended(start + pair, ")"@);
}

} // verus!
