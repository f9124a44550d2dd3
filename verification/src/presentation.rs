//! The uniform block and the shader text of the presentation pass.
use vstd::prelude::*;

use crate::text;
use crate::text::push_text;

verus! {

/// The 32-bit words of the presentation's uniform block.
pub const PRESENTATION_PARAM_WORD_COUNT: usize = 28;

/// Named CPU representation of the WGSL `Params` uniform.
///
/// [`PresentationParams::to_words`] is the single source of truth for the
/// cross-language field order and inserts the padding required by the shader
/// layout. Numbers that the shader reads as `f32` are single-precision bits.
#[derive(Clone, Copy, Debug, PartialEq, Eq, Structural)]
pub struct PresentationParams {
    pub mode: u32,
    pub encode_srgb: bool,
    pub dither_bits: u32,
    pub content_mode: u32,
    pub hdr_reference_white_nits: u32,
    pub source_peak_nits: u32,
    pub output_peak_nits: u32,
    pub exposure_stops: u32,
    pub viewport_width: u32,
    pub viewport_height: u32,
    pub image_width: u32,
    pub image_height: u32,
    pub ui_white_nits: u32,
    pub view_center_x: u32,
    pub view_center_y: u32,
    pub view_scale: u32,
    pub background_mode: u32,
    pub center_ui: bool,
    pub source_dynamic_range: u32,
    pub tiled_image: bool,
    pub tile_size: u32,
    pub tile_columns: u32,
    pub tile_gutter: u32,
    pub resampled_viewport: bool,
}

/// A flag as the shader reads it.
pub open spec fn flag_word(flag: bool) -> u32 {
    if flag {
        1
    } else {
        0
    }
}

fn word_of_flag(flag: bool) -> (word: u32)
    ensures
        word == flag_word(flag),
{
    if flag {
        1
    } else {
        0
    }
}

/// The words of the uniform block.
pub open spec fn words_of(params: PresentationParams) -> Seq<u32> {
    seq![
        params.mode,
        flag_word(params.encode_srgb),
        params.dither_bits,
        params.content_mode,
        params.hdr_reference_white_nits,
        params.source_peak_nits,
        params.output_peak_nits,
        params.exposure_stops,
        params.viewport_width,
        params.viewport_height,
        params.image_width,
        params.image_height,
        params.ui_white_nits,
        params.view_center_x,
        params.view_center_y,
        params.view_scale,
        params.background_mode,
        flag_word(params.center_ui),
        params.source_dynamic_range,
        0u32,
        flag_word(params.tiled_image),
        params.tile_size,
        params.tile_columns,
        params.tile_gutter,
        flag_word(params.resampled_viewport),
        0u32,
        0u32,
        0u32,
    ]
}

/// The bytes of a word, from the lowest to the highest.
pub open spec fn word_bytes(word: u32) -> Seq<u8> {
    seq![
        (word as int % 256) as u8,
        (word as int / 256 % 256) as u8,
        (word as int / 65536 % 256) as u8,
        (word as int / 16777216) as u8,
    ]
}

/// The bytes are those of a word in the order of some machine: from the lowest
/// to the highest, or the reverse.
pub open spec fn is_native_word(bytes: Seq<u8>, word: u32) -> bool {
    bytes == word_bytes(word) || bytes == word_bytes(word).reverse()
}

/// `u32::to_ne_bytes`, the bytes of a word in the order of the machine that runs
/// the program: little-endian or big-endian.
#[verifier::external_body]
pub(crate) fn native_bytes(word: u32) -> (bytes: [u8; 4])
    ensures
        is_native_word(bytes@, word),
{
    word.to_ne_bytes()
}

/// The bytes of a word in a byte order: from the lowest to the highest where
/// `little` holds, the reverse where it does not.
pub open spec fn ordered_bytes(word: u32, little: bool) -> Seq<u8> {
    if little {
        word_bytes(word)
    } else {
        word_bytes(word).reverse()
    }
}

/// The bytes of words one after another, all in the same byte order.
pub open spec fn serialized(words: Seq<u32>, little: bool) -> Seq<u8>
    decreases words.len(),
{
    if words.len() == 0 {
        Seq::empty()
    } else {
        serialized(words.drop_last(), little) + ordered_bytes(words.last(), little)
    }
}

/// A word takes four bytes.
proof fn lemma_serialized_len(words: Seq<u32>, little: bool)
    ensures
        serialized(words, little).len() == words.len() * 4,
    decreases words.len(),
{
    if words.len() > 0 {
        lemma_serialized_len(words.drop_last(), little);
    }
}

/// The bytes of words in a byte order.
pub fn words_in_order(words: &[u32], little: bool) -> (bytes: Vec<u8>)
    ensures
        bytes@ == serialized(words@, little),
{
    let mut bytes: Vec<u8> = Vec::new();
    let mut index: usize = 0;
    while index < words.len()
        invariant
            index <= words@.len(),
            bytes@ == serialized(words@.take(index as int), little),
        decreases words@.len() - index,
    {
        let word: u32 = words[index];
        let ghost before = bytes@;
        let lowest: u8 = (word % 256) as u8;
        let low: u8 = (word / 256 % 256) as u8;
        let high: u8 = (word / 65536 % 256) as u8;
        let highest: u8 = (word / 16777216) as u8;
        if little {
            bytes.push(lowest);
            bytes.push(low);
            bytes.push(high);
            bytes.push(highest);
        } else {
            bytes.push(highest);
            bytes.push(high);
            bytes.push(low);
            bytes.push(lowest);
        }
        proof {
            let taken = words@.take(index + 1);
            assert(taken.drop_last() =~= words@.take(index as int));
            assert(bytes@ =~= before + ordered_bytes(word, little));
        }
        index = index + 1;
    }
    assert(words@.take(index as int) =~= words@);
    bytes
}

/// The bytes of words in the order of the machine, which is one order for all of
/// them. A word of known bytes shows which it is.
pub fn words_to_bytes(words: &[u32]) -> (bytes: Vec<u8>)
    ensures
        exists|little: bool| bytes@ == serialized(words@, little),
        bytes@.len() == words@.len() * 4,
{
    let one: [u8; 4] = native_bytes(1);
    let little: bool = one[0] == 1;
    proof {
        lemma_serialized_len(words@, little);
    }
    words_in_order(words, little)
}

impl PresentationParams {
    /// The words of the uniform block, in the order of the shader's fields.
    pub fn to_words(self) -> (words: [u32; 28])
        ensures
            words@ == words_of(self),
    {
        let words: [u32; 28] = [
            self.mode,
            word_of_flag(self.encode_srgb),
            self.dither_bits,
            self.content_mode,
            self.hdr_reference_white_nits,
            self.source_peak_nits,
            self.output_peak_nits,
            self.exposure_stops,
            self.viewport_width,
            self.viewport_height,
            self.image_width,
            self.image_height,
            self.ui_white_nits,
            self.view_center_x,
            self.view_center_y,
            self.view_scale,
            self.background_mode,
            word_of_flag(self.center_ui),
            self.source_dynamic_range,
            0,
            word_of_flag(self.tiled_image),
            self.tile_size,
            self.tile_columns,
            self.tile_gutter,
            word_of_flag(self.resampled_viewport),
            0,
            0,
            0,
        ];
        assert(words@ =~= words_of(self));
        words
    }

    /// The bytes of the uniform block, every word in the order of the machine.
    pub fn to_ne_bytes(self) -> (bytes: Vec<u8>)
        ensures
            exists|little: bool| bytes@ == serialized(words_of(self), little),
            bytes@.len() == 112,
    {
        let words: [u32; 28] = self.to_words();
        words_to_bytes(words.as_slice())
    }
}

/// The uniform block is unambiguous: from its words every parameter can be read
/// back, so different parameters never serialize alike.
pub proof fn words_determine_the_parameters(a: PresentationParams, b: PresentationParams)
    requires
        words_of(a) == words_of(b),
    ensures
        a == b,
{
    let x = words_of(a);
    let y = words_of(b);
    assert(x[0] == y[0] && x[1] == y[1] && x[2] == y[2] && x[3] == y[3]);
    assert(x[4] == y[4] && x[5] == y[5] && x[6] == y[6] && x[7] == y[7]);
    assert(x[8] == y[8] && x[9] == y[9] && x[10] == y[10] && x[11] == y[11]);
    assert(x[12] == y[12] && x[13] == y[13] && x[14] == y[14] && x[15] == y[15]);
    assert(x[16] == y[16] && x[17] == y[17] && x[18] == y[18]);
    assert(x[20] == y[20] && x[21] == y[21] && x[22] == y[22] && x[23] == y[23]);
    assert(x[24] == y[24]);
}

/// The bytes of a word tell the word.
proof fn lemma_bytes_determine_the_word(a: u32, b: u32, little: bool)
    requires
        ordered_bytes(a, little) == ordered_bytes(b, little),
    ensures
        a == b,
{
    let x = ordered_bytes(a, little);
    let y = ordered_bytes(b, little);
    assert(x[0] == y[0] && x[1] == y[1] && x[2] == y[2] && x[3] == y[3]);
    assert(a as int / 256 / 256 == a as int / 65536);
    assert(a as int / 65536 / 256 == a as int / 16777216);
    assert(b as int / 256 / 256 == b as int / 65536);
    assert(b as int / 65536 / 256 == b as int / 16777216);
}

/// Equally many words with the same bytes are the same words.
proof fn lemma_bytes_determine_the_words(a: Seq<u32>, b: Seq<u32>, little: bool)
    requires
        a.len() == b.len(),
        serialized(a, little) == serialized(b, little),
    ensures
        a == b,
    decreases a.len(),
{
    if a.len() > 0 {
        let x = serialized(a.drop_last(), little);
        let y = serialized(b.drop_last(), little);
        lemma_serialized_len(a.drop_last(), little);
        lemma_serialized_len(b.drop_last(), little);
        let whole = serialized(a, little);
        assert(x =~= whole.take(x.len() as int));
        assert(y =~= whole.take(x.len() as int));
        lemma_bytes_determine_the_words(a.drop_last(), b.drop_last(), little);
        assert(ordered_bytes(a.last(), little) =~= whole.skip(x.len() as int));
        assert(ordered_bytes(b.last(), little) =~= whole.skip(x.len() as int));
        lemma_bytes_determine_the_word(a.last(), b.last(), little);
        assert(a =~= a.drop_last().push(a.last()));
        assert(b =~= b.drop_last().push(b.last()));
    } else {
        assert(a =~= b);
    }
}

/// The bytes of the uniform block are unambiguous as well, in either byte order:
/// different parameters never have the same bytes on one machine.
pub proof fn bytes_determine_the_parameters(
    a: PresentationParams,
    b: PresentationParams,
    little: bool,
)
    requires
        serialized(words_of(a), little) == serialized(words_of(b), little),
    ensures
        a == b,
{
    lemma_bytes_determine_the_words(words_of(a), words_of(b), little);
    words_determine_the_parameters(a, b);
}

/// The names of the shader's fields, one for each word of the uniform block.
pub open spec fn field_names() -> Seq<Seq<char>> {
    seq![
        "mode"@,
        "encode_srgb"@,
        "dither_bits"@,
        "content_mode"@,
        "hdr_reference_white_nits"@,
        "source_peak_nits"@,
        "output_peak_nits"@,
        "exposure_stops"@,
        "viewport_width"@,
        "viewport_height"@,
        "image_width"@,
        "image_height"@,
        "ui_white_nits"@,
        "view_center_x"@,
        "view_center_y"@,
        "view_scale"@,
        "background_mode"@,
        "center_ui"@,
        "source_dynamic_range"@,
        "_padding_0"@,
        "tiled_image"@,
        "tile_size"@,
        "tile_columns"@,
        "tile_gutter"@,
        "resampled_viewport"@,
        "_padding_1"@,
        "_padding_2"@,
        "_padding_3"@,
    ]
}

/// The word that a field of the shader gets, by the field's name: a parameter, or
/// nothing where the field is padding.
pub open spec fn field_word(params: PresentationParams, name: Seq<char>) -> u32 {
    if name == "mode"@ {
        params.mode
    } else if name == "encode_srgb"@ {
        flag_word(params.encode_srgb)
    } else if name == "dither_bits"@ {
        params.dither_bits
    } else if name == "content_mode"@ {
        params.content_mode
    } else if name == "hdr_reference_white_nits"@ {
        params.hdr_reference_white_nits
    } else if name == "source_peak_nits"@ {
        params.source_peak_nits
    } else if name == "output_peak_nits"@ {
        params.output_peak_nits
    } else if name == "exposure_stops"@ {
        params.exposure_stops
    } else if name == "viewport_width"@ {
        params.viewport_width
    } else if name == "viewport_height"@ {
        params.viewport_height
    } else if name == "image_width"@ {
        params.image_width
    } else if name == "image_height"@ {
        params.image_height
    } else if name == "ui_white_nits"@ {
        params.ui_white_nits
    } else if name == "view_center_x"@ {
        params.view_center_x
    } else if name == "view_center_y"@ {
        params.view_center_y
    } else if name == "view_scale"@ {
        params.view_scale
    } else if name == "background_mode"@ {
        params.background_mode
    } else if name == "center_ui"@ {
        flag_word(params.center_ui)
    } else if name == "source_dynamic_range"@ {
        params.source_dynamic_range
    } else if name == "tiled_image"@ {
        flag_word(params.tiled_image)
    } else if name == "tile_size"@ {
        params.tile_size
    } else if name == "tile_columns"@ {
        params.tile_columns
    } else if name == "tile_gutter"@ {
        params.tile_gutter
    } else if name == "resampled_viewport"@ {
        flag_word(params.resampled_viewport)
    } else {
        0
    }
}

/// Every word of the uniform block is the one that its field's name asks for.
pub proof fn words_follow_the_field_names(params: PresentationParams, index: int)
    requires
        0 <= index < 28,
    ensures
        words_of(params)[index] == field_word(params, field_names()[index]),
{
    reveal_strlit("mode");
    reveal_strlit("encode_srgb");
    reveal_strlit("dither_bits");
    reveal_strlit("content_mode");
    reveal_strlit("hdr_reference_white_nits");
    reveal_strlit("source_peak_nits");
    reveal_strlit("output_peak_nits");
    reveal_strlit("exposure_stops");
    reveal_strlit("viewport_width");
    reveal_strlit("viewport_height");
    reveal_strlit("image_width");
    reveal_strlit("image_height");
    reveal_strlit("ui_white_nits");
    reveal_strlit("view_center_x");
    reveal_strlit("view_center_y");
    reveal_strlit("view_scale");
    reveal_strlit("background_mode");
    reveal_strlit("center_ui");
    reveal_strlit("source_dynamic_range");
    reveal_strlit("_padding_0");
    reveal_strlit("tiled_image");
    reveal_strlit("tile_size");
    reveal_strlit("tile_columns");
    reveal_strlit("tile_gutter");
    reveal_strlit("resampled_viewport");
    reveal_strlit("_padding_1");
    reveal_strlit("_padding_2");
    reveal_strlit("_padding_3");
    // Most names differ in their lengths,
    assert("mode"@.len() == 4);
    assert("encode_srgb"@.len() == 11);
    assert("dither_bits"@.len() == 11);
    assert("content_mode"@.len() == 12);
    assert("hdr_reference_white_nits"@.len() == 24);
    assert("source_peak_nits"@.len() == 16);
    assert("output_peak_nits"@.len() == 16);
    assert("exposure_stops"@.len() == 14);
    assert("viewport_width"@.len() == 14);
    assert("viewport_height"@.len() == 15);
    assert("image_width"@.len() == 11);
    assert("image_height"@.len() == 12);
    assert("ui_white_nits"@.len() == 13);
    assert("view_center_x"@.len() == 13);
    assert("view_center_y"@.len() == 13);
    assert("view_scale"@.len() == 10);
    assert("background_mode"@.len() == 15);
    assert("center_ui"@.len() == 9);
    assert("source_dynamic_range"@.len() == 20);
    assert("_padding_0"@.len() == 10);
    assert("tiled_image"@.len() == 11);
    assert("tile_size"@.len() == 9);
    assert("tile_columns"@.len() == 12);
    assert("tile_gutter"@.len() == 11);
    assert("resampled_viewport"@.len() == 18);
    assert("_padding_1"@.len() == 10);
    assert("_padding_2"@.len() == 10);
    assert("_padding_3"@.len() == 10);
    // and the others in a character.
    assert("center_ui"@[0] != "tile_size"@[0]);
    assert("view_scale"@[0] != "_padding_0"@[0]);
    assert("view_scale"@[0] != "_padding_1"@[0]);
    assert("view_scale"@[0] != "_padding_2"@[0]);
    assert("view_scale"@[0] != "_padding_3"@[0]);
    assert("encode_srgb"@[0] != "dither_bits"@[0]);
    assert("encode_srgb"@[0] != "image_width"@[0]);
    assert("dither_bits"@[0] != "image_width"@[0]);
    assert("encode_srgb"@[0] != "tiled_image"@[0]);
    assert("dither_bits"@[0] != "tiled_image"@[0]);
    assert("image_width"@[0] != "tiled_image"@[0]);
    assert("encode_srgb"@[0] != "tile_gutter"@[0]);
    assert("dither_bits"@[0] != "tile_gutter"@[0]);
    assert("image_width"@[0] != "tile_gutter"@[0]);
    assert("tiled_image"@[4] != "tile_gutter"@[4]);
    assert("content_mode"@[0] != "image_height"@[0]);
    assert("content_mode"@[0] != "tile_columns"@[0]);
    assert("image_height"@[0] != "tile_columns"@[0]);
    assert("ui_white_nits"@[0] != "view_center_x"@[0]);
    assert("ui_white_nits"@[0] != "view_center_y"@[0]);
    assert("view_center_x"@[12] != "view_center_y"@[12]);
    assert("exposure_stops"@[0] != "viewport_width"@[0]);
    assert("viewport_height"@[0] != "background_mode"@[0]);
    assert("source_peak_nits"@[0] != "output_peak_nits"@[0]);
}

/// The names of the shader's fields, one for each word of the uniform block.
pub fn presentation_field_names() -> (names: [&'static str; 28])
    ensures
        forall|i: int| 0 <= i < 28 ==> (#[trigger] names@[i])@ == field_names()[i],
{
    [
        "mode",
        "encode_srgb",
        "dither_bits",
        "content_mode",
        "hdr_reference_white_nits",
        "source_peak_nits",
        "output_peak_nits",
        "exposure_stops",
        "viewport_width",
        "viewport_height",
        "image_width",
        "image_height",
        "ui_white_nits",
        "view_center_x",
        "view_center_y",
        "view_scale",
        "background_mode",
        "center_ui",
        "source_dynamic_range",
        "_padding_0",
        "tiled_image",
        "tile_size",
        "tile_columns",
        "tile_gutter",
        "resampled_viewport",
        "_padding_1",
        "_padding_2",
        "_padding_3",
    ]
}

/// The presentation shader: the color transform, the test pattern, the dither,
/// and the presentation itself, one after another.
pub fn presentation_shader_source(
    color_transform: &str,
    test_pattern: &str,
    dither: &str,
    presentation: &str,
) -> (source: String)
    ensures
        source@ == text::joined(
            seq![color_transform@, test_pattern@, dither@, presentation@],
            "\n"@,
        ),
{
    let mut source = String::new();
    push_text(&mut source, color_transform);
    push_text(&mut source, "\n");
    push_text(&mut source, test_pattern);
    push_text(&mut source, "\n");
    push_text(&mut source, dither);
    push_text(&mut source, "\n");
    push_text(&mut source, presentation);
    proof {
        let pieces = seq![color_transform@, test_pattern@, dither@, presentation@];
        assert(pieces.drop_last() =~= seq![color_transform@, test_pattern@, dither@]);
        assert(pieces.drop_last().drop_last() =~= seq![color_transform@, test_pattern@]);
        assert(pieces.drop_last().drop_last().drop_last() =~= seq![color_transform@]);
        reveal_with_fuel(text::joined, 4);
        assert(source@ =~= text::joined(pieces, "\n"@));
    }
    source
}

/// The bytes of a word in either order make up the word: the lowest byte counts once,
/// each further one 256 times as much as the one before.
pub proof fn bytes_make_up_their_word(word: u32)
    ensures
        ({
            let low_first = ordered_bytes(word, true);
            let high_first = ordered_bytes(word, false);
            &&& low_first.len() == 4 && high_first.len() == 4
            &&& low_first[0] + 256 * low_first[1] + 65536 * low_first[2] + 16777216 * low_first[3]
                == word
            &&& high_first[3] + 256 * high_first[2] + 65536 * high_first[1] + 16777216
                * high_first[0] == word
        }),
{
    let value = word as int;
    assert(value / 256 / 256 == value / 65536);
    assert(value / 65536 / 256 == value / 16777216);
}

/// The bytes of words stand in the order of the words, four for each.
pub proof fn words_are_serialized_in_order(words: Seq<u32>, little: bool, index: int)
    requires
        0 <= index < words.len(),
    ensures
        serialized(words, little).len() == 4 * words.len(),
        serialized(words, little).subrange(4 * index, 4 * index + 4) == ordered_bytes(
            words[index],
            little,
        ),
    decreases words.len(),
{
    lemma_serialized_len(words, little);
    lemma_serialized_len(words.drop_last(), little);
    let whole = serialized(words, little);
    if index < words.len() - 1 {
        words_are_serialized_in_order(words.drop_last(), little, index);
        assert(whole.subrange(4 * index, 4 * index + 4) =~= serialized(
            words.drop_last(),
            little,
        ).subrange(4 * index, 4 * index + 4));
    } else {
        assert(whole.subrange(4 * index, 4 * index + 4) =~= ordered_bytes(words[index], little));
    }
}

/// A flag is one where it is set, and zero where it is not.
pub proof fn flags_are_one_or_zero(flag: bool)
    ensures
        flag ==> flag_word(flag) == 1,
        !flag ==> flag_word(flag) == 0,
{
}

} // verus!
