//! Normalized source metadata which is independent of the image decoder.
use vstd::prelude::*;
use vstd::slice::*;
use vstd::string::StringExecFns;
use vstd::utf8::*;

use crate::float_bits;
use crate::float_bits::is_less64;
use crate::numeric;
use crate::text;
use crate::text::{push_decimal, push_text};
use crate::units::{u64_from_usize, usize_from_u32};
use crate::words;
use crate::words::{same_text, trim, words_on_one_line};

verus! {

/// The most characters that a text field keeps.
pub const MAX_EXIF_TEXT_CHARACTERS: usize = 256;

/// The largest EXIF payload that is read.
pub const MAX_EXIF_BYTES: usize = 16_777_216;

/// The largest XMP payload that is read.
pub const MAX_XMP_BYTES: usize = 4_194_304;

/// The most nodes of an XMP document.
pub const MAX_XMP_NODES: u32 = 4_096;

/// The namespace of the basic XMP properties.
pub const XMP_BASIC_NAMESPACE: &'static str = "http://ns.adobe.com/xap/1.0/";

/// The directory family that gives a tag number its meaning.
#[derive(Clone, Copy, Debug, PartialEq, Eq, Structural)]
pub enum TagContext {
    Tiff,
    Exif,
}

/// The EXIF fields that the application shows.
#[derive(Clone, Copy, Debug, PartialEq, Eq, Structural)]
pub enum ExifTag {
    Make,
    Model,
    Software,
    DateTime,
    Artist,
    Copyright,
    ExposureTime,
    FNumber,
    PhotographicSensitivity,
    IsoSpeed,
    DateTimeOriginal,
    DateTimeDigitized,
    ExposureBiasValue,
    FocalLength,
    LensMake,
    LensModel,
}

/// The directory of the primary image.
pub const PRIMARY_IMAGE: u16 = 0;

impl ExifTag {
    /// The directory family and the number that identify this field.
    pub open spec fn key(self) -> (TagContext, u16) {
        match self {
            ExifTag::Make => (TagContext::Tiff, 0x010f),
            ExifTag::Model => (TagContext::Tiff, 0x0110),
            ExifTag::Software => (TagContext::Tiff, 0x0131),
            ExifTag::DateTime => (TagContext::Tiff, 0x0132),
            ExifTag::Artist => (TagContext::Tiff, 0x013b),
            ExifTag::Copyright => (TagContext::Tiff, 0x8298),
            ExifTag::ExposureTime => (TagContext::Exif, 0x829a),
            ExifTag::FNumber => (TagContext::Exif, 0x829d),
            ExifTag::PhotographicSensitivity => (TagContext::Exif, 0x8827),
            ExifTag::IsoSpeed => (TagContext::Exif, 0x8833),
            ExifTag::DateTimeOriginal => (TagContext::Exif, 0x9003),
            ExifTag::DateTimeDigitized => (TagContext::Exif, 0x9004),
            ExifTag::ExposureBiasValue => (TagContext::Exif, 0x9204),
            ExifTag::FocalLength => (TagContext::Exif, 0x920a),
            ExifTag::LensMake => (TagContext::Exif, 0xa433),
            ExifTag::LensModel => (TagContext::Exif, 0xa434),
        }
    }

    /// The directory family that holds this field.
    pub fn context(self) -> (context: TagContext)
        ensures
            context == self.key().0,
    {
        match self {
            ExifTag::Make | ExifTag::Model | ExifTag::Software | ExifTag::DateTime
            | ExifTag::Artist | ExifTag::Copyright => TagContext::Tiff,
            _ => TagContext::Exif,
        }
    }

    /// The number of this field.
    pub fn number(self) -> (number: u16)
        ensures
            number == self.key().1,
    {
        match self {
            ExifTag::Make => 0x010f,
            ExifTag::Model => 0x0110,
            ExifTag::Software => 0x0131,
            ExifTag::DateTime => 0x0132,
            ExifTag::Artist => 0x013b,
            ExifTag::Copyright => 0x8298,
            ExifTag::ExposureTime => 0x829a,
            ExifTag::FNumber => 0x829d,
            ExifTag::PhotographicSensitivity => 0x8827,
            ExifTag::IsoSpeed => 0x8833,
            ExifTag::DateTimeOriginal => 0x9003,
            ExifTag::DateTimeDigitized => 0x9004,
            ExifTag::ExposureBiasValue => 0x9204,
            ExifTag::FocalLength => 0x920a,
            ExifTag::LensMake => 0xa433,
            ExifTag::LensModel => 0xa434,
        }
    }
}

/// The value of an EXIF field, as far as the supported fields need it. A value
/// that is none of these counts as unsigned integers without an element.
#[derive(Debug)]
pub enum ExifValue {
    Ascii(Vec<Vec<u8>>),
    Unsigned(Vec<u32>),
    Rational(Vec<(u32, u32)>),
    SignedRational(Vec<(i32, i32)>),
}

/// The model of a field value.
pub ghost enum ExifContent {
    Ascii(Seq<Seq<u8>>),
    Unsigned(Seq<u32>),
    Rational(Seq<(u32, u32)>),
    SignedRational(Seq<(i32, i32)>),
}

/// The bytes of a list of byte strings.
pub open spec fn byte_views(values: Seq<Vec<u8>>) -> Seq<Seq<u8>> {
    values.map_values(|value: Vec<u8>| value@)
}

impl View for ExifValue {
    type V = ExifContent;

    open spec fn view(&self) -> ExifContent {
        match self {
            ExifValue::Ascii(values) => ExifContent::Ascii(byte_views(values@)),
            ExifValue::Unsigned(values) => ExifContent::Unsigned(values@),
            ExifValue::Rational(values) => ExifContent::Rational(values@),
            ExifValue::SignedRational(values) => ExifContent::SignedRational(values@),
        }
    }
}

/// The fields of an EXIF payload, each by the family and the number of its tag
/// and by the number of its directory.
pub type ExifFields = Map<(TagContext, u16, u16), ExifContent>;

/// The parsed EXIF attributes of the `exif` crate.
#[verifier::external_type_specification]
#[verifier::external_body]
pub struct ExExif(exif::Exif);

/// What reading an EXIF payload gives.
pub enum ExifReading {
    /// Every field was read.
    Complete(exif::Exif),
    /// The readable fields, and what was wrong with the others.
    Partial(exif::Exif, Vec<String>),
    /// Nothing was readable.
    Failed(String),
}

/// The model of a reading.
pub ghost enum ExifRead {
    Complete(ExifFields),
    Partial(ExifFields, Seq<Seq<char>>),
    Failed(Seq<char>),
}

/// The fields that parsed attributes hold.
pub uninterp spec fn exif_contents(exif: exif::Exif) -> Map<(TagContext, u16, u16), ExifContent>;

/// What `exif::Reader::read_raw` makes of TIFF data on a machine with addresses of
/// so many bits.
pub uninterp spec fn exif_read(
    data: Seq<u8>,
    continue_on_error: bool,
    address_bits: u32,
) -> ExifRead;

impl ExifReading {
    /// The model of this reading.
    pub open spec fn read(&self) -> ExifRead {
        match self {
            ExifReading::Complete(exif) => ExifRead::Complete(exif_contents(*exif)),
            ExifReading::Partial(exif, errors) => ExifRead::Partial(
                exif_contents(*exif),
                text::views(errors@),
            ),
            ExifReading::Failed(error) => ExifRead::Failed(error@),
        }
    }
}

/// `exif::Reader::read_raw` with the given `continue_on_error` option: the
/// reading depends on the data, the option and the width of addresses, by which
/// an oversized field is one error or another. Errors come as their messages.
#[verifier::external_body]
fn read_raw_exif(data: &[u8], continue_on_error: bool) -> (reading: ExifReading)
    ensures
        reading.read() == exif_read(data@, continue_on_error, usize::BITS),
{
    let mut reader = exif::Reader::new();
    reader.continue_on_error(continue_on_error);
    match reader.read_raw(data.to_vec()) {
        Ok(exif) => ExifReading::Complete(exif),
        Err(exif::Error::PartialResult(partial)) => {
            let (exif, errors) = partial.into_inner();
            ExifReading::Partial(exif, errors.iter().map(|error| error.to_string()).collect())
        },
        Err(error) => ExifReading::Failed(error.to_string()),
    }
}

/// `exif::Exif::get_field`: the value of the field with this tag in this
/// directory, if there is one. Integers of all three unsigned widths come as
/// `u32`.
#[verifier::external_body]
fn get_exif_field(
    exif: &exif::Exif,
    context: TagContext,
    number: u16,
    directory: u16,
) -> (value: Option<ExifValue>)
    ensures
        value is Some == exif_contents(*exif).contains_key((context, number, directory)),
        value matches Some(found) ==> found@ == exif_contents(*exif)[(context, number, directory)],
{
    let context = match context {
        TagContext::Tiff => exif::Context::Tiff,
        TagContext::Exif => exif::Context::Exif,
    };
    let field = exif.get_field(exif::Tag(context, number), exif::In(directory))?;
    Some(match &field.value {
        exif::Value::Ascii(v) => ExifValue::Ascii(v.clone()),
        exif::Value::Rational(v) => ExifValue::Rational(v.iter().map(|x| (x.num, x.denom)).collect()),
        exif::Value::SRational(v) => ExifValue::SignedRational(v.iter().map(|x| (x.num, x.denom)).collect()),
        other => ExifValue::Unsigned(other.iter_uint().into_iter().flatten().collect()),
    })
}

/// What `String::from_utf8_lossy` makes of bytes.
pub uninterp spec fn lossy_utf8(bytes: Seq<u8>) -> Seq<char>;

/// `String::from_utf8_lossy`: valid UTF-8 is decoded; of other bytes the text
/// depends on the bytes alone.
#[verifier::external_body]
fn lossy_text(bytes: &[u8]) -> (decoded: String)
    ensures
        decoded@ == lossy_utf8(bytes@),
        valid_utf8(bytes@) ==> decoded@ == decode_utf8(bytes@),
{
    String::from_utf8_lossy(bytes).into_owned()
}

/// The texts one after another. A space precedes each that does not come first
/// among the characters.
pub open spec fn spaced(texts: Seq<Seq<char>>) -> Seq<char>
    decreases texts.len(),
{
    if texts.len() == 0 {
        Seq::empty()
    } else {
        let before = spaced(texts.drop_last());
        if before.len() == 0 {
            texts.last()
        } else {
            before + " "@ + texts.last()
        }
    }
}

/// The text of a field: its strings on one line.
pub open spec fn field_text(content: Option<ExifContent>) -> Option<Seq<char>> {
    match content {
        Some(ExifContent::Ascii(values)) => words::one_line(
            spaced(values.map_values(|value: Seq<u8>| lossy_utf8(value))),
            MAX_EXIF_TEXT_CHARACTERS as nat,
        ),
        _ => None,
    }
}

/// The first unsigned integer of a field.
pub open spec fn field_unsigned(content: Option<ExifContent>) -> Option<u32> {
    match content {
        Some(ExifContent::Unsigned(values)) if values.len() > 0 => Some(values[0]),
        _ => None,
    }
}

/// The first fraction of a field, if it has a denominator to divide by.
pub open spec fn field_ratio(content: Option<ExifContent>) -> Option<(u32, u32)> {
    match content {
        Some(ExifContent::Rational(values)) if values.len() > 0 && values[0].1 != 0 => Some(
            values[0],
        ),
        _ => None,
    }
}

/// The first signed fraction of a field, if it has a denominator to divide by.
pub open spec fn field_signed_ratio(content: Option<ExifContent>) -> Option<(i32, i32)> {
    match content {
        Some(ExifContent::SignedRational(values)) if values.len() > 0 && values[0].1 != 0 => Some(
            values[0],
        ),
        _ => None,
    }
}

/// The first of two values that is there.
pub open spec fn first_of<T>(first: Option<T>, second: Option<T>) -> Option<T> {
    if first is Some {
        first
    } else {
        second
    }
}

/// The model of a field value that may be missing.
pub open spec fn content(value: Option<ExifValue>) -> Option<ExifContent> {
    match value {
        Some(value) => Some(value@),
        None => None,
    }
}

/// Joins texts by single spaces, skipping the space before the first
/// characters.
pub fn spaced_text(texts: &Vec<String>) -> (joined: String)
    ensures
        joined@ == spaced(text::views(texts@)),
{
    let mut joined = String::new();
    let mut index: usize = 0;
    assert(text::views(texts@).take(0) =~= Seq::<Seq<char>>::empty());
    while index < texts.len()
        invariant
            index <= texts@.len(),
            joined@ == spaced(text::views(texts@).take(index as int)),
        decreases texts@.len() - index,
    {
        let ghost before = text::views(texts@).take(index as int);
        let ghost after = text::views(texts@).take(index + 1);
        assert(after.drop_last() =~= before);
        assert(after.last() == texts@[index as int]@);
        let ghost start = joined@;
        if joined.unicode_len() > 0 {
            push_text(&mut joined, " ");
        }
        push_text(&mut joined, texts[index].as_str());
        proof {
            if start.len() == 0 {
                assert(joined@ =~= after.last());
            }
        }
        index += 1;
    }
    assert(text::views(texts@).take(index as int) =~= text::views(texts@));
    joined
}

/// The text of a field.
pub fn ascii(value: &Option<ExifValue>) -> (line: Option<String>)
    ensures
        text::option_view(line) == field_text(content(*value)),
{
    match value {
        Some(ExifValue::Ascii(values)) => {
            let mut texts: Vec<String> = Vec::new();
            let mut index: usize = 0;
            while index < values.len()
                invariant
                    index <= values@.len(),
                    texts@.len() == index,
                    forall|i: int|
                        0 <= i < index ==> #[trigger] texts@[i]@ == lossy_utf8(values@[i]@),
                decreases values@.len() - index,
            {
                texts.push(lossy_text(values[index].as_slice()));
                index += 1;
            }
            assert(text::views(texts@) =~= byte_views(values@).map_values(
                |value: Seq<u8>| lossy_utf8(value),
            ));
            let joined = spaced_text(&texts);
            words_on_one_line(joined.as_str(), MAX_EXIF_TEXT_CHARACTERS)
        },
        _ => None,
    }
}

/// The first unsigned integer of a field.
pub fn unsigned(value: &Option<ExifValue>) -> (number: Option<u32>)
    ensures
        number == field_unsigned(content(*value)),
{
    match value {
        Some(ExifValue::Unsigned(values)) => if values.len() > 0 {
            Some(values[0])
        } else {
            None
        },
        _ => None,
    }
}

/// The first fraction of a field, if its denominator is not zero.
pub fn unsigned_rational(value: &Option<ExifValue>) -> (ratio: Option<(u32, u32)>)
    ensures
        ratio == field_ratio(content(*value)),
{
    match value {
        Some(ExifValue::Rational(values)) => if values.len() > 0 && values[0].1 != 0 {
            Some(values[0])
        } else {
            None
        },
        _ => None,
    }
}

/// The first signed fraction of a field, if its denominator is not zero.
pub fn signed_rational(value: &Option<ExifValue>) -> (ratio: Option<(i32, i32)>)
    ensures
        ratio == field_signed_ratio(content(*value)),
{
    match value {
        Some(ExifValue::SignedRational(values)) => if values.len() > 0 && values[0].1 != 0 {
            Some(values[0])
        } else {
            None
        },
        _ => None,
    }
}

/// The values of the supported fields, as looked up.
#[derive(Debug)]
pub struct ExifFieldValues {
    pub make: Option<ExifValue>,
    pub model: Option<ExifValue>,
    pub software: Option<ExifValue>,
    pub date_time: Option<ExifValue>,
    pub artist: Option<ExifValue>,
    pub copyright: Option<ExifValue>,
    pub exposure_time: Option<ExifValue>,
    pub f_number: Option<ExifValue>,
    pub photographic_sensitivity: Option<ExifValue>,
    pub iso_speed: Option<ExifValue>,
    pub date_time_original: Option<ExifValue>,
    pub date_time_digitized: Option<ExifValue>,
    pub exposure_bias_value: Option<ExifValue>,
    pub focal_length: Option<ExifValue>,
    pub lens_make: Option<ExifValue>,
    pub lens_model: Option<ExifValue>,
}

impl ExifFieldValues {
    /// The value of a field.
    pub open spec fn value(self, tag: ExifTag) -> Option<ExifContent> {
        match tag {
            ExifTag::Make => content(self.make),
            ExifTag::Model => content(self.model),
            ExifTag::Software => content(self.software),
            ExifTag::DateTime => content(self.date_time),
            ExifTag::Artist => content(self.artist),
            ExifTag::Copyright => content(self.copyright),
            ExifTag::ExposureTime => content(self.exposure_time),
            ExifTag::FNumber => content(self.f_number),
            ExifTag::PhotographicSensitivity => content(self.photographic_sensitivity),
            ExifTag::IsoSpeed => content(self.iso_speed),
            ExifTag::DateTimeOriginal => content(self.date_time_original),
            ExifTag::DateTimeDigitized => content(self.date_time_digitized),
            ExifTag::ExposureBiasValue => content(self.exposure_bias_value),
            ExifTag::FocalLength => content(self.focal_length),
            ExifTag::LensMake => content(self.lens_make),
            ExifTag::LensModel => content(self.lens_model),
        }
    }
}

/// Common fields parsed from an EXIF payload capped at 16 MiB. The numbers that
/// a payload gives as fractions stay numerator and denominator; no denominator
/// is zero.
#[derive(Debug)]
pub struct ExifMetadata {
    pub aperture_f_number: Option<(u32, u32)>,
    pub artist: Option<String>,
    pub camera_make: Option<String>,
    pub camera_model: Option<String>,
    pub captured_at: Option<String>,
    pub copyright: Option<String>,
    pub exposure_bias_ev: Option<(i32, i32)>,
    pub exposure_time_seconds: Option<(u32, u32)>,
    pub focal_length_mm: Option<(u32, u32)>,
    pub iso_speed: Option<u32>,
    pub lens_make: Option<String>,
    pub lens_model: Option<String>,
    pub parse_error: Option<String>,
    pub software: Option<String>,
}

/// The model of parsed metadata.
pub ghost struct ExifModel {
    pub aperture_f_number: Option<(u32, u32)>,
    pub artist: Option<Seq<char>>,
    pub camera_make: Option<Seq<char>>,
    pub camera_model: Option<Seq<char>>,
    pub captured_at: Option<Seq<char>>,
    pub copyright: Option<Seq<char>>,
    pub exposure_bias_ev: Option<(i32, i32)>,
    pub exposure_time_seconds: Option<(u32, u32)>,
    pub focal_length_mm: Option<(u32, u32)>,
    pub iso_speed: Option<u32>,
    pub lens_make: Option<Seq<char>>,
    pub lens_model: Option<Seq<char>>,
    pub parse_error: Option<Seq<char>>,
    pub software: Option<Seq<char>>,
}

impl View for ExifMetadata {
    type V = ExifModel;

    open spec fn view(&self) -> ExifModel {
        ExifModel {
            aperture_f_number: self.aperture_f_number,
            artist: text::option_view(self.artist),
            camera_make: text::option_view(self.camera_make),
            camera_model: text::option_view(self.camera_model),
            captured_at: text::option_view(self.captured_at),
            copyright: text::option_view(self.copyright),
            exposure_bias_ev: self.exposure_bias_ev,
            exposure_time_seconds: self.exposure_time_seconds,
            focal_length_mm: self.focal_length_mm,
            iso_speed: self.iso_speed,
            lens_make: text::option_view(self.lens_make),
            lens_model: text::option_view(self.lens_model),
            parse_error: text::option_view(self.parse_error),
            software: text::option_view(self.software),
        }
    }
}

/// The metadata that field values give. The capture time falls back to the time
/// of digitizing and of the last change, the sensitivity to the ISO speed.
pub open spec fn described(
    value: spec_fn(ExifTag) -> Option<ExifContent>,
    parse_error: Option<Seq<char>>,
) -> ExifModel {
    ExifModel {
        aperture_f_number: field_ratio(value(ExifTag::FNumber)),
        artist: field_text(value(ExifTag::Artist)),
        camera_make: field_text(value(ExifTag::Make)),
        camera_model: field_text(value(ExifTag::Model)),
        captured_at: first_of(
            field_text(value(ExifTag::DateTimeOriginal)),
            first_of(
                field_text(value(ExifTag::DateTimeDigitized)),
                field_text(value(ExifTag::DateTime)),
            ),
        ),
        copyright: field_text(value(ExifTag::Copyright)),
        exposure_bias_ev: field_signed_ratio(value(ExifTag::ExposureBiasValue)),
        exposure_time_seconds: field_ratio(value(ExifTag::ExposureTime)),
        focal_length_mm: field_ratio(value(ExifTag::FocalLength)),
        iso_speed: first_of(
            field_unsigned(value(ExifTag::PhotographicSensitivity)),
            field_unsigned(value(ExifTag::IsoSpeed)),
        ),
        lens_make: field_text(value(ExifTag::LensMake)),
        lens_model: field_text(value(ExifTag::LensModel)),
        parse_error,
        software: field_text(value(ExifTag::Software)),
    }
}

/// No metadata but an error.
pub open spec fn undescribed(error: Seq<char>) -> ExifModel {
    described(|tag: ExifTag| None, Some(error))
}

impl ExifMetadata {
    /// Metadata without a field.
    fn empty() -> (metadata: Self)
        ensures
            metadata@ == described(|tag: ExifTag| None, None),
    {
        ExifMetadata {
            aperture_f_number: None,
            artist: None,
            camera_make: None,
            camera_model: None,
            captured_at: None,
            copyright: None,
            exposure_bias_ev: None,
            exposure_time_seconds: None,
            focal_length_mm: None,
            iso_speed: None,
            lens_make: None,
            lens_model: None,
            parse_error: None,
            software: None,
        }
    }

    /// Metadata from the values of the fields.
    pub fn from_fields(values: &ExifFieldValues, parse_error: Option<String>) -> (metadata: Self)
        ensures
            metadata@ == described(
                |tag: ExifTag| values.value(tag),
                text::option_view(parse_error),
            ),
    {
        let captured_at = match ascii(&values.date_time_original) {
            Some(time) => Some(time),
            None => match ascii(&values.date_time_digitized) {
                Some(time) => Some(time),
                None => ascii(&values.date_time),
            },
        };
        let iso_speed = match unsigned(&values.photographic_sensitivity) {
            Some(speed) => Some(speed),
            None => unsigned(&values.iso_speed),
        };
        ExifMetadata {
            aperture_f_number: unsigned_rational(&values.f_number),
            artist: ascii(&values.artist),
            camera_make: ascii(&values.make),
            camera_model: ascii(&values.model),
            captured_at,
            copyright: ascii(&values.copyright),
            exposure_bias_ev: signed_rational(&values.exposure_bias_value),
            exposure_time_seconds: unsigned_rational(&values.exposure_time),
            focal_length_mm: unsigned_rational(&values.focal_length),
            iso_speed,
            lens_make: ascii(&values.lens_make),
            lens_model: ascii(&values.lens_model),
            parse_error,
            software: ascii(&values.software),
        }
    }
}

/// The value of a field of the primary image.
pub open spec fn primary_field(fields: ExifFields, tag: ExifTag) -> Option<ExifContent> {
    let key = (tag.key().0, tag.key().1, PRIMARY_IMAGE);
    if fields.contains_key(key) {
        Some(fields[key])
    } else {
        None
    }
}

/// Looks a field of the primary image up.
fn primary_value(exif: &exif::Exif, tag: ExifTag) -> (value: Option<ExifValue>)
    ensures
        content(value) == primary_field(exif_contents(*exif), tag),
{
    get_exif_field(exif, tag.context(), tag.number(), PRIMARY_IMAGE)
}

/// Looks every supported field up.
fn field_values(exif: &exif::Exif) -> (values: ExifFieldValues)
    ensures
        forall|tag: ExifTag| #[trigger]
            values.value(tag) == primary_field(exif_contents(*exif), tag),
{
    ExifFieldValues {
        make: primary_value(exif, ExifTag::Make),
        model: primary_value(exif, ExifTag::Model),
        software: primary_value(exif, ExifTag::Software),
        date_time: primary_value(exif, ExifTag::DateTime),
        artist: primary_value(exif, ExifTag::Artist),
        copyright: primary_value(exif, ExifTag::Copyright),
        exposure_time: primary_value(exif, ExifTag::ExposureTime),
        f_number: primary_value(exif, ExifTag::FNumber),
        photographic_sensitivity: primary_value(exif, ExifTag::PhotographicSensitivity),
        iso_speed: primary_value(exif, ExifTag::IsoSpeed),
        date_time_original: primary_value(exif, ExifTag::DateTimeOriginal),
        date_time_digitized: primary_value(exif, ExifTag::DateTimeDigitized),
        exposure_bias_value: primary_value(exif, ExifTag::ExposureBiasValue),
        focal_length: primary_value(exif, ExifTag::FocalLength),
        lens_make: primary_value(exif, ExifTag::LensMake),
        lens_model: primary_value(exif, ExifTag::LensModel),
    }
}

/// What is told of a payload that is too large.
pub open spec fn oversized(kind: Seq<char>, bytes: nat, limit: nat) -> Seq<char> {
    kind + " payload is "@ + text::decimal(bytes) + " bytes; limit is "@ + text::decimal(limit)
        + " bytes"@
}

/// What is told of the errors in a partly readable payload: the first three of
/// them, and how many more there are.
pub open spec fn partial_errors(errors: Seq<Seq<char>>) -> Seq<char> {
    let shown = text::joined(errors.take(numeric::smaller(errors.len() as int, 3)), "; "@);
    let details = if errors.len() > 3 {
        shown + "; and "@ + text::decimal((errors.len() - 3) as nat) + " more"@
    } else {
        shown
    };
    if details.len() == 0 {
        "partially parsed EXIF"@
    } else {
        "partially parsed EXIF: "@ + details
    }
}

/// What a reading says.
pub open spec fn described_reading(read: ExifRead) -> ExifModel {
    match read {
        ExifRead::Complete(fields) => described(|tag: ExifTag| primary_field(fields, tag), None),
        ExifRead::Partial(fields, errors) => described(
            |tag: ExifTag| primary_field(fields, tag),
            Some(partial_errors(errors)),
        ),
        ExifRead::Failed(error) => undescribed(error),
    }
}

/// What an EXIF payload says whose TIFF data begin at an offset.
pub open spec fn described_payload(payload: Seq<u8>, offset: nat) -> ExifModel {
    if payload.len() > MAX_EXIF_BYTES {
        undescribed(oversized("EXIF"@, payload.len(), MAX_EXIF_BYTES as nat))
    } else if offset > payload.len() {
        undescribed("TIFF header offset is outside the EXIF payload"@)
    } else {
        described_reading(exif_read(payload.skip(offset as int), true, usize::BITS))
    }
}

/// Says that a payload is too large.
fn oversized_message(kind: &str, bytes: usize, limit: usize) -> (message: String)
    ensures
        message@ == oversized(kind@, bytes as nat, limit as nat),
{
    let mut message = String::new();
    push_text(&mut message, kind);
    push_text(&mut message, " payload is ");
    push_decimal(&mut message, u64_from_usize(bytes));
    push_text(&mut message, " bytes; limit is ");
    push_decimal(&mut message, u64_from_usize(limit));
    push_text(&mut message, " bytes");
    assert(message@ =~= oversized(kind@, bytes as nat, limit as nat));
    message
}

/// Describes the errors of a partly readable payload.
pub fn format_partial_errors(errors: &Vec<String>) -> (message: String)
    ensures
        message@ == partial_errors(text::views(errors@)),
{
    let ghost told = text::views(errors@);
    let mut details = String::new();
    let mut index: usize = 0;
    assert(told.take(0) =~= Seq::<Seq<char>>::empty());
    while index < errors.len() && index < 3
        invariant
            index <= errors@.len(),
            index <= 3,
            told == text::views(errors@),
            details@ == text::joined(told.take(index as int), "; "@),
        decreases errors@.len() - index,
    {
        let ghost after = told.take(index + 1);
        assert(after.drop_last() =~= told.take(index as int));
        assert(after.last() == errors@[index as int]@);
        if index > 0 {
            push_text(&mut details, "; ");
        }
        push_text(&mut details, errors[index].as_str());
        assert(details@ =~= text::joined(after, "; "@));
        index += 1;
    }
    if errors.len() > 3 {
        push_text(&mut details, "; and ");
        push_decimal(&mut details, u64_from_usize(errors.len() - 3));
        push_text(&mut details, " more");
    }
    let mut message = String::new();
    if details.unicode_len() == 0 {
        push_text(&mut message, "partially parsed EXIF");
        assert(message@ =~= partial_errors(told));
    } else {
        push_text(&mut message, "partially parsed EXIF: ");
        push_text(&mut message, details.as_str());
        assert(message@ =~= partial_errors(told));
    }
    message
}

/// Parses common TIFF/EXIF fields without retaining the source payload.
///
/// Invalid EXIF is returned with `parse_error` set instead of failing image
/// decoding. Valid fields from partially malformed EXIF are retained alongside
/// a description of the ignored errors.
#[must_use]
pub fn parse_exif(raw_payload: &[u8], tiff_header_offset: u32) -> (metadata: ExifMetadata)
    ensures
        metadata@ == described_payload(raw_payload@, tiff_header_offset as nat),
{
    let mut metadata = ExifMetadata::empty();
    if raw_payload.len() > MAX_EXIF_BYTES {
        metadata.parse_error = Some(
            oversized_message("EXIF", raw_payload.len(), MAX_EXIF_BYTES),
        );
        return metadata;
    }
    let offset: usize = usize_from_u32(tiff_header_offset);
    if offset > raw_payload.len() {
        metadata.parse_error = Some(
            String::from_str("TIFF header offset is outside the EXIF payload"),
        );
        return metadata;
    }
    let tiff = slice_subrange(raw_payload, offset, raw_payload.len());
    assert(tiff@ =~= raw_payload@.skip(offset as int));
    match read_raw_exif(tiff, true) {
        ExifReading::Complete(exif) => {
            let values = field_values(&exif);
            assert((|tag: ExifTag| values.value(tag)) =~= (|tag: ExifTag|
                primary_field(exif_contents(exif), tag)));
            ExifMetadata::from_fields(&values, None)
        },
        ExifReading::Partial(exif, errors) => {
            let values = field_values(&exif);
            assert((|tag: ExifTag| values.value(tag)) =~= (|tag: ExifTag|
                primary_field(exif_contents(exif), tag)));
            ExifMetadata::from_fields(&values, Some(format_partial_errors(&errors)))
        },
        ExifReading::Failed(error) => {
            metadata.parse_error = Some(error);
            metadata
        },
    }
}

/// An attribute of an XML element.
#[derive(Debug)]
pub struct XmlAttribute {
    pub namespace: Option<String>,
    pub name: String,
    pub value: String,
}

/// A node of an XML document. The text of an element is that of its first child
/// where that is text. A node that is no element has an empty name.
#[derive(Debug)]
pub struct XmlNode {
    pub is_element: bool,
    pub namespace: Option<String>,
    pub name: String,
    pub attributes: Vec<XmlAttribute>,
    pub text: Option<String>,
}

/// The model of an attribute.
pub ghost struct XmlAttributeModel {
    pub namespace: Option<Seq<char>>,
    pub name: Seq<char>,
    pub value: Seq<char>,
}

/// The model of a node.
pub ghost struct XmlNodeModel {
    pub is_element: bool,
    pub namespace: Option<Seq<char>>,
    pub name: Seq<char>,
    pub attributes: Seq<XmlAttributeModel>,
    pub text: Option<Seq<char>>,
}

impl View for XmlAttribute {
    type V = XmlAttributeModel;

    open spec fn view(&self) -> XmlAttributeModel {
        XmlAttributeModel {
            namespace: text::option_view(self.namespace),
            name: self.name@,
            value: self.value@,
        }
    }
}

impl View for XmlNode {
    type V = XmlNodeModel;

    open spec fn view(&self) -> XmlNodeModel {
        XmlNodeModel {
            is_element: self.is_element,
            namespace: text::option_view(self.namespace),
            name: self.name@,
            attributes: self.attributes@.map_values(|attribute: XmlAttribute| attribute@),
            text: text::option_view(self.text),
        }
    }
}

/// The models of a list of nodes.
pub open spec fn node_models(nodes: Seq<XmlNode>) -> Seq<XmlNodeModel> {
    nodes.map_values(|node: XmlNode| node@)
}

/// The model of a parsed document.
pub open spec fn document_model(document: Result<Vec<XmlNode>, String>) -> Result<
    Seq<XmlNodeModel>,
    Seq<char>,
> {
    match document {
        Ok(nodes) => Ok(node_models(nodes@)),
        Err(message) => Err(message@),
    }
}

/// The message of `std::str::from_utf8` on bytes that are not UTF-8.
pub uninterp spec fn utf8_error(bytes: Seq<u8>) -> Seq<char>;

/// The nodes that `roxmltree::Document::parse_with_options` finds in a text, in
/// document order, or its error message.
pub uninterp spec fn xml_document(xml: Seq<char>, nodes_limit: u32) -> Result<
    Seq<XmlNodeModel>,
    Seq<char>,
>;

/// `std::str::from_utf8`: succeeds exactly on UTF-8, and then decodes it. The
/// error comes as its message, which depends on the bytes alone.
#[verifier::external_body]
fn utf8_text(bytes: &[u8]) -> (decoded: Result<&str, String>)
    ensures
        decoded is Ok == valid_utf8(bytes@),
        decoded matches Ok(text) ==> text@ == decode_utf8(bytes@),
        decoded matches Err(message) ==> message@ == utf8_error(bytes@),
{
    match std::str::from_utf8(bytes) {
        Ok(text) => Ok(text),
        Err(error) => Err(error.to_string()),
    }
}

/// `roxmltree::Document::parse_with_options` with a limit on the nodes and the
/// default options otherwise: the nodes of the document in document order, at
/// most as many as the limit, or the error's message. Both depend on the text
/// and the limit alone.
#[verifier::external_body]
fn parse_xml(xml: &str, nodes_limit: u32) -> (document: Result<Vec<XmlNode>, String>)
    ensures
        document_model(document) == xml_document(xml@, nodes_limit),
        document is Ok ==> document->Ok_0@.len() <= nodes_limit,
{
    let options = roxmltree::ParsingOptions { nodes_limit, ..roxmltree::ParsingOptions::default() };
    let document = roxmltree::Document::parse_with_options(xml, options).map_err(|e| e.to_string())?;
    Ok(document.descendants().map(|node| XmlNode {
        is_element: node.is_element(),
        namespace: node.tag_name().namespace().map(str::to_owned),
        name: node.tag_name().name().to_owned(),
        attributes: node.attributes().map(|attribute| XmlAttribute {
            namespace: attribute.namespace().map(str::to_owned),
            name: attribute.name().to_owned(),
            value: attribute.value().to_owned(),
        }).collect(),
        text: node.text().map(str::to_owned),
    }).collect())
}

/// The value of the first attribute with an expanded name.
pub open spec fn attribute_value(
    attributes: Seq<XmlAttributeModel>,
    namespace: Seq<char>,
    name: Seq<char>,
) -> Option<Seq<char>>
    decreases attributes.len(),
{
    if attributes.len() == 0 {
        None
    } else if attributes[0].namespace == Some(namespace) && attributes[0].name == name {
        Some(attributes[0].value)
    } else {
        attribute_value(attributes.skip(1), namespace, name)
    }
}

/// The rating that the first rated element of a document gives: as the value of
/// its rating attribute, or as its text where it is the rating element itself.
pub open spec fn document_rating(nodes: Seq<XmlNodeModel>) -> Result<Option<Seq<char>>, Seq<char>>
    decreases nodes.len(),
{
    if nodes.len() == 0 {
        Ok(None)
    } else {
        let node = nodes[0];
        let attribute = attribute_value(node.attributes, XMP_BASIC_NAMESPACE@, "Rating"@);
        if node.is_element && attribute is Some {
            Ok(attribute)
        } else if node.is_element && node.namespace == Some(XMP_BASIC_NAMESPACE@) && node.name
            == "Rating"@ {
            match node.text {
                Some(text) => Ok(Some(text)),
                None => Err("XMP rating has no value"@),
            }
        } else {
            document_rating(nodes.skip(1))
        }
    }
}

/// The model of a search for a rating.
pub open spec fn rating_view(rating: Result<Option<String>, String>) -> Result<
    Option<Seq<char>>,
    Seq<char>,
> {
    match rating {
        Ok(found) => Ok(text::option_view(found)),
        Err(message) => Err(message@),
    }
}

/// Whether a namespace is the given one.
fn is_namespace(namespace: &Option<String>, expected: &str) -> (same: bool)
    ensures
        same == (text::option_view(*namespace) == Some(expected@)),
{
    match namespace {
        Some(uri) => same_text(uri.as_str(), expected),
        None => false,
    }
}

/// Finds the value of the first attribute with an expanded name.
pub fn find_attribute(attributes: &Vec<XmlAttribute>, namespace: &str, name: &str) -> (value:
    Option<String>)
    ensures
        text::option_view(value) == attribute_value(
            attributes@.map_values(|attribute: XmlAttribute| attribute@),
            namespace@,
            name@,
        ),
{
    let ghost models = attributes@.map_values(|attribute: XmlAttribute| attribute@);
    let mut index: usize = 0;
    assert(models.skip(0) =~= models);
    while index < attributes.len()
        invariant
            index <= attributes@.len(),
            models == attributes@.map_values(|attribute: XmlAttribute| attribute@),
            attribute_value(models, namespace@, name@) == attribute_value(
                models.skip(index as int),
                namespace@,
                name@,
            ),
        decreases attributes@.len() - index,
    {
        let ghost rest = models.skip(index as int);
        assert(rest[0] == attributes@[index as int]@);
        assert(rest.skip(1) =~= models.skip(index + 1));
        let attribute = &attributes[index];
        if is_namespace(&attribute.namespace, namespace) && same_text(
            attribute.name.as_str(),
            name,
        ) {
            return Some(String::from_str(attribute.value.as_str()));
        }
        index += 1;
    }
    None
}

/// Finds the rating in the nodes of a document.
pub fn find_rating(nodes: &Vec<XmlNode>) -> (rating: Result<Option<String>, String>)
    ensures
        rating_view(rating) == document_rating(node_models(nodes@)),
{
    let ghost models = node_models(nodes@);
    let mut index: usize = 0;
    assert(models.skip(0) =~= models);
    while index < nodes.len()
        invariant
            index <= nodes@.len(),
            models == node_models(nodes@),
            document_rating(models) == document_rating(models.skip(index as int)),
        decreases nodes@.len() - index,
    {
        let ghost rest = models.skip(index as int);
        assert(rest[0] == nodes@[index as int]@);
        assert(rest.skip(1) =~= models.skip(index + 1));
        let node = &nodes[index];
        if node.is_element {
            let attribute = find_attribute(&node.attributes, XMP_BASIC_NAMESPACE, "Rating");
            if attribute.is_some() {
                return Ok(attribute);
            }
            if is_namespace(&node.namespace, XMP_BASIC_NAMESPACE) && same_text(
                node.name.as_str(),
                "Rating",
            ) {
                return match &node.text {
                    Some(value) => Ok(Some(String::from_str(value.as_str()))),
                    None => Err(String::from_str("XMP rating has no value")),
                };
            }
        }
        index += 1;
    }
    Ok(None)
}

/// XMP fields used by the application. The rating is a binary64 number by its
/// bits.
///
/// The presence of this value records that the JPEG XL container had an XML
/// box even when it contained no supported properties or could not be parsed.
#[derive(Debug)]
pub struct XmpMetadata {
    pub parse_error: Option<String>,
    pub rating: Option<u64>,
}

/// What an XMP payload says.
#[derive(Debug)]
pub enum XmpReading {
    /// There is no rating, or an error instead of one.
    Complete(XmpMetadata),
    /// There is a rating, still to be read as a number.
    Rating(String),
}

/// The model of a reading.
pub ghost enum XmpRead {
    Unrated { parse_error: Option<Seq<char>> },
    Rating(Seq<char>),
}

impl XmpReading {
    /// Whether this reading has the given model.
    pub open spec fn is_read(&self, read: XmpRead) -> bool {
        match self {
            XmpReading::Complete(metadata) => metadata.rating is None && read
                == (XmpRead::Unrated { parse_error: text::option_view(metadata.parse_error) }),
            XmpReading::Rating(number) => read == XmpRead::Rating(number@),
        }
    }
}

/// What the search of a document for a rating says.
pub open spec fn read_rating(rating: Result<Option<Seq<char>>, Seq<char>>) -> XmpRead {
    match rating {
        Ok(Some(text)) => XmpRead::Rating(words::trimmed(text)),
        Ok(None) => XmpRead::Unrated { parse_error: None },
        Err(message) => XmpRead::Unrated { parse_error: Some(message) },
    }
}

/// What a parsed document says.
pub open spec fn read_document(document: Result<Seq<XmlNodeModel>, Seq<char>>) -> XmpRead {
    match document {
        Ok(nodes) => read_rating(document_rating(nodes)),
        Err(message) => XmpRead::Unrated { parse_error: Some("invalid XMP XML: "@ + message) },
    }
}

/// What an XMP payload says.
pub open spec fn read_xmp(payload: Seq<u8>) -> XmpRead {
    if payload.len() > MAX_XMP_BYTES {
        XmpRead::Unrated {
            parse_error: Some(oversized("XMP"@, payload.len(), MAX_XMP_BYTES as nat)),
        }
    } else if !valid_utf8(payload) {
        XmpRead::Unrated { parse_error: Some("XMP is not valid UTF-8: "@ + utf8_error(payload)) }
    } else {
        read_document(xml_document(decode_utf8(payload), MAX_XMP_NODES))
    }
}

/// A reading that stopped at an error.
fn xmp_error(message: String) -> (reading: XmpReading)
    ensures
        reading.is_read(XmpRead::Unrated { parse_error: Some(message@) }),
{
    XmpReading::Complete(XmpMetadata { parse_error: Some(message), rating: None })
}

/// Reads the rating off a parsed document.
pub fn rate_document(document: Result<Vec<XmlNode>, String>) -> (reading: XmpReading)
    ensures
        reading.is_read(read_document(document_model(document))),
{
    match document {
        Ok(nodes) => match find_rating(&nodes) {
            Ok(Some(rating)) => XmpReading::Rating(trim(rating.as_str())),
            Ok(None) => XmpReading::Complete(XmpMetadata { parse_error: None, rating: None }),
            Err(message) => xmp_error(message),
        },
        Err(error) => {
            let mut message = String::from_str("invalid XMP XML: ");
            push_text(&mut message, error.as_str());
            xmp_error(message)
        },
    }
}

/// Parses supported fields from a JPEG XL XML metadata box.
///
/// XMP is treated as untrusted input: DTDs are rejected and the XML tree has a
/// fixed node limit. Invalid XML or property values are retained as a
/// diagnostic instead of failing image decoding.
#[must_use]
pub fn parse_xmp(raw_payload: &[u8]) -> (reading: XmpReading)
    ensures
        reading.is_read(read_xmp(raw_payload@)),
{
    if raw_payload.len() > MAX_XMP_BYTES {
        return xmp_error(oversized_message("XMP", raw_payload.len(), MAX_XMP_BYTES));
    }
    match utf8_text(raw_payload) {
        Ok(xml) => rate_document(parse_xml(xml, MAX_XMP_NODES)),
        Err(error) => {
            let mut message = String::from_str("XMP is not valid UTF-8: ");
            push_text(&mut message, error.as_str());
            xmp_error(message)
        },
    }
}

/// The binary64 bits of -1, the rating of a rejected image.
pub const REJECTED_RATING: u64 = 0xbff0_0000_0000_0000;

/// The binary64 bits of 5, the best rating.
pub const BEST_RATING: u64 = 0x4014_0000_0000_0000;

/// A rating that was read as a number: its binary64 bits, and the number in
/// words.
#[derive(Debug)]
pub struct RatingNumber {
    pub bits: u64,
    pub shown: String,
}

/// Whether a number is a supported rating: -1, or from 0 to 5.
pub open spec fn is_supported_rating(bits: u64) -> bool {
    bits == REJECTED_RATING || (!float_bits::nan64(bits) && 0 <= float_bits::order64(bits)
        <= float_bits::order64(BEST_RATING))
}

/// What is told of a rating out of range.
pub open spec fn unsupported_rating(shown: Seq<char>) -> Seq<char> {
    "XMP rating "@ + shown + " is outside the supported -1 or 0..=5 range"@
}

/// The metadata of a rated image, given what its rating is as a number.
pub fn parse_rating_value(number: Option<RatingNumber>) -> (metadata: XmpMetadata)
    ensures
        metadata.rating == match number {
            Some(rating) if is_supported_rating(rating.bits) => Some(rating.bits),
            _ => None,
        },
        text::option_view(metadata.parse_error) == match number {
            Some(rating) => if is_supported_rating(rating.bits) {
                None
            } else {
                Some(unsupported_rating(rating.shown@))
            },
            None => Some("XMP rating is not numeric"@),
        },
{
    match number {
        Some(rating) => {
            let supported = rating.bits == REJECTED_RATING || !(is_less64(rating.bits, 0)
                || is_less64(BEST_RATING, rating.bits) || !is_less64(0, rating.bits)
                && !is_less64(rating.bits, BEST_RATING));
            if supported {
                XmpMetadata { parse_error: None, rating: Some(rating.bits) }
            } else {
                let mut message = String::from_str("XMP rating ");
                push_text(&mut message, rating.shown.as_str());
                push_text(&mut message, " is outside the supported -1 or 0..=5 range");
                XmpMetadata { parse_error: Some(message), rating: None }
            }
        },
        None => XmpMetadata {
            parse_error: Some(String::from_str("XMP rating is not numeric")),
            rating: None,
        },
    }
}

/// Whether a shown text is one line of at most the kept length, without control
/// characters.
pub open spec fn is_shown_line(line: Option<Seq<char>>) -> bool {
    line matches Some(kept) ==> words::all_plain(kept) && 0 < kept.len()
        <= MAX_EXIF_TEXT_CHARACTERS
}

/// Whatever an EXIF payload holds, the texts taken from its fields are short
/// single lines without control characters, and no fraction has the
/// denominator zero.
pub proof fn payloads_give_safe_metadata(payload: Seq<u8>, offset: nat)
    ensures
        ({
            let metadata = described_payload(payload, offset);
            &&& is_shown_line(metadata.artist)
            &&& is_shown_line(metadata.camera_make)
            &&& is_shown_line(metadata.camera_model)
            &&& is_shown_line(metadata.captured_at)
            &&& is_shown_line(metadata.copyright)
            &&& is_shown_line(metadata.lens_make)
            &&& is_shown_line(metadata.lens_model)
            &&& is_shown_line(metadata.software)
            &&& metadata.aperture_f_number matches Some(ratio) ==> ratio.1 != 0
            &&& metadata.exposure_bias_ev matches Some(ratio) ==> ratio.1 != 0
            &&& metadata.exposure_time_seconds matches Some(ratio) ==> ratio.1 != 0
            &&& metadata.focal_length_mm matches Some(ratio) ==> ratio.1 != 0
        }),
{
    assert forall|content: Option<ExifContent>| is_shown_line(#[trigger] field_text(content)) by {
        if let Some(ExifContent::Ascii(values)) = content {
            words::lines_are_plain_and_short(
                spaced(values.map_values(|value: Seq<u8>| lossy_utf8(value))),
                MAX_EXIF_TEXT_CHARACTERS as nat,
            );
        }
    }
}

/// A payload that cannot be read, and one that is read in part, carry an error;
/// a payload that is read whole carries none.
pub proof fn unreadable_payloads_carry_an_error(payload: Seq<u8>, offset: nat)
    ensures
        described_payload(payload, offset).parse_error is None <==> payload.len() <= MAX_EXIF_BYTES
            && offset <= payload.len() && exif_read(
            payload.skip(offset as int),
            true,
            usize::BITS,
        ) is Complete,
{
}

/// Every field has a tag of its own, and the tags of the camera and the document are
/// looked for in the main directory, those of the exposure and the lens in the EXIF
/// one.
pub proof fn fields_have_tags_of_their_own(a: ExifTag, b: ExifTag)
    ensures
        a.key().1 == b.key().1 ==> a == b,
        a.key().0 == TagContext::Tiff <==> (a == ExifTag::Make || a == ExifTag::Model || a
            == ExifTag::Software || a == ExifTag::DateTime || a == ExifTag::Artist || a
            == ExifTag::Copyright),
        ExifTag::Make.key().1 == 271,
        ExifTag::Model.key().1 == 272,
        ExifTag::Software.key().1 == 305,
        ExifTag::DateTime.key().1 == 306,
        ExifTag::Artist.key().1 == 315,
        ExifTag::Copyright.key().1 == 33432,
        ExifTag::ExposureTime.key().1 == 33434,
        ExifTag::FNumber.key().1 == 33437,
        ExifTag::PhotographicSensitivity.key().1 == 34855,
        ExifTag::IsoSpeed.key().1 == 34867,
        ExifTag::DateTimeOriginal.key().1 == 36867,
        ExifTag::DateTimeDigitized.key().1 == 36868,
        ExifTag::ExposureBiasValue.key().1 == 37380,
        ExifTag::FocalLength.key().1 == 37386,
        ExifTag::LensMake.key().1 == 42035,
        ExifTag::LensModel.key().1 == 42036,
{
}

/// Each entry of the metadata comes from its own field and from no other: changing
/// any other field leaves it as it is.
pub proof fn entries_come_from_their_fields(
    one: spec_fn(ExifTag) -> Option<ExifContent>,
    other: spec_fn(ExifTag) -> Option<ExifContent>,
    parse_error: Option<Seq<char>>,
)
    ensures
        ({
            let a = described(one, parse_error);
            let b = described(other, parse_error);
            &&& one(ExifTag::FNumber) == other(ExifTag::FNumber) ==> a.aperture_f_number
                == b.aperture_f_number
            &&& one(ExifTag::Artist) == other(ExifTag::Artist) ==> a.artist == b.artist
            &&& one(ExifTag::Make) == other(ExifTag::Make) ==> a.camera_make == b.camera_make
            &&& one(ExifTag::Model) == other(ExifTag::Model) ==> a.camera_model == b.camera_model
            &&& one(ExifTag::Copyright) == other(ExifTag::Copyright) ==> a.copyright == b.copyright
            &&& one(ExifTag::ExposureBiasValue) == other(ExifTag::ExposureBiasValue)
                ==> a.exposure_bias_ev == b.exposure_bias_ev
            &&& one(ExifTag::ExposureTime) == other(ExifTag::ExposureTime)
                ==> a.exposure_time_seconds == b.exposure_time_seconds
            &&& one(ExifTag::FocalLength) == other(ExifTag::FocalLength) ==> a.focal_length_mm
                == b.focal_length_mm
            &&& one(ExifTag::LensMake) == other(ExifTag::LensMake) ==> a.lens_make == b.lens_make
            &&& one(ExifTag::LensModel) == other(ExifTag::LensModel) ==> a.lens_model
                == b.lens_model
            &&& one(ExifTag::Software) == other(ExifTag::Software) ==> a.software == b.software
            &&& one(ExifTag::PhotographicSensitivity) == other(ExifTag::PhotographicSensitivity)
                && one(ExifTag::IsoSpeed) == other(ExifTag::IsoSpeed) ==> a.iso_speed
                == b.iso_speed
            &&& one(ExifTag::DateTimeOriginal) == other(ExifTag::DateTimeOriginal) && one(
                ExifTag::DateTimeDigitized,
            ) == other(ExifTag::DateTimeDigitized) && one(ExifTag::DateTime) == other(
                ExifTag::DateTime,
            ) ==> a.captured_at == b.captured_at
            &&& a.parse_error == parse_error
        }),
{
}

/// What a number field shows is the number that it holds: the first fraction, as long
/// as it can be divided, and the first integer. The sensitivity comes before the ISO
/// speed, which stands in for it.
pub proof fn number_fields_show_their_first_number(
    value: spec_fn(ExifTag) -> Option<ExifContent>,
    parse_error: Option<Seq<char>>,
    ratios: Seq<(u32, u32)>,
    signed: Seq<(i32, i32)>,
    numbers: Seq<u32>,
    speeds: Seq<u32>,
)
    ensures
        ({
            let shown = described(value, parse_error);
            &&& value(ExifTag::FNumber) == Some(ExifContent::Rational(ratios)) && ratios.len() > 0
                && ratios[0].1 != 0 ==> shown.aperture_f_number == Some(ratios[0])
            &&& value(ExifTag::ExposureTime) == Some(ExifContent::Rational(ratios)) && ratios.len()
                > 0 && ratios[0].1 != 0 ==> shown.exposure_time_seconds == Some(ratios[0])
            &&& value(ExifTag::FocalLength) == Some(ExifContent::Rational(ratios)) && ratios.len()
                > 0 && ratios[0].1 != 0 ==> shown.focal_length_mm == Some(ratios[0])
            &&& value(ExifTag::ExposureBiasValue) == Some(ExifContent::SignedRational(signed))
                && signed.len() > 0 && signed[0].1 != 0 ==> shown.exposure_bias_ev == Some(
                signed[0],
            )
            &&& value(ExifTag::PhotographicSensitivity) == Some(ExifContent::Unsigned(numbers))
                && numbers.len() > 0 ==> shown.iso_speed == Some(numbers[0])
            &&& value(ExifTag::PhotographicSensitivity) is None && value(ExifTag::IsoSpeed) == Some(
                ExifContent::Unsigned(speeds),
            ) && speeds.len() > 0 ==> shown.iso_speed == Some(speeds[0])
            &&& value(ExifTag::FNumber) is None ==> shown.aperture_f_number is None
            &&& value(ExifTag::ExposureTime) is None ==> shown.exposure_time_seconds is None
            &&& value(ExifTag::FocalLength) is None ==> shown.focal_length_mm is None
            &&& value(ExifTag::ExposureBiasValue) is None ==> shown.exposure_bias_ev is None
        }),
        ratios.len() == 0 || ratios[0].1 == 0 ==> field_ratio(Some(ExifContent::Rational(ratios)))
            is None,
        signed.len() == 0 || signed[0].1 == 0 ==> field_signed_ratio(
            Some(ExifContent::SignedRational(signed)),
        ) is None,
        field_unsigned(Some(ExifContent::Rational(ratios))) is None,
        field_text(Some(ExifContent::Unsigned(numbers))) is None,
{
}

/// What a text field shows are the words of its strings, and the capture time is the
/// time of taking before that of digitizing, and either before that of the last
/// change.
pub proof fn text_fields_show_their_words(
    value: spec_fn(ExifTag) -> Option<ExifContent>,
    parse_error: Option<Seq<char>>,
)
    ensures
        ({
            let shown = described(value, parse_error);
            &&& shown.artist == field_text(value(ExifTag::Artist))
            &&& shown.camera_make == field_text(value(ExifTag::Make))
            &&& shown.camera_model == field_text(value(ExifTag::Model))
            &&& shown.copyright == field_text(value(ExifTag::Copyright))
            &&& shown.lens_make == field_text(value(ExifTag::LensMake))
            &&& shown.lens_model == field_text(value(ExifTag::LensModel))
            &&& shown.software == field_text(value(ExifTag::Software))
            &&& field_text(value(ExifTag::DateTimeOriginal)) is Some ==> shown.captured_at
                == field_text(value(ExifTag::DateTimeOriginal))
            &&& field_text(value(ExifTag::DateTimeOriginal)) is None && field_text(
                value(ExifTag::DateTimeDigitized),
            ) is Some ==> shown.captured_at == field_text(value(ExifTag::DateTimeDigitized))
            &&& field_text(value(ExifTag::DateTimeOriginal)) is None && field_text(
                value(ExifTag::DateTimeDigitized),
            ) is None ==> shown.captured_at == field_text(value(ExifTag::DateTime))
        }),
{
}

/// A field is looked up in the primary image, under its tag.
pub proof fn fields_are_those_of_the_primary_image(
    fields: ExifFields,
    tag: ExifTag,
    content: ExifContent,
    other: (TagContext, u16, u16),
)
    requires
        other != (tag.key().0, tag.key().1, 0u16),
    ensures
        primary_field(fields.insert((tag.key().0, tag.key().1, 0u16), content), tag) == Some(content),
        primary_field(fields.remove((tag.key().0, tag.key().1, 0u16)), tag) is None,
        primary_field(fields.insert(other, content), tag) == primary_field(fields, tag),
{
}

/// Texts are joined with single spaces: a further text follows a space, unless no
/// character stands before it.
pub proof fn texts_are_joined_with_spaces(texts: Seq<Seq<char>>, further: Seq<char>)
    ensures
        spaced(Seq::<Seq<char>>::empty()).len() == 0,
        spaced(seq![further]) == further,
        spaced(texts).len() > 0 ==> spaced(texts.push(further)) == spaced(texts).push(' ')
            + further,
        spaced(texts).len() == 0 ==> spaced(texts.push(further)) == further,
{
    reveal_strlit(" ");
    assert(texts.push(further).drop_last() =~= texts);
    assert(spaced(texts) + " "@ =~= spaced(texts).push(' '));
    assert(seq![further].drop_last() =~= Seq::<Seq<char>>::empty());
}

/// Payloads up to their limits are read, from the given offset on; larger ones, and
/// offsets outside of them, give an error and no fields.
pub proof fn payloads_are_read_from_their_offset(payload: Seq<u8>, offset: nat)
    ensures
        MAX_EXIF_BYTES == 16 * 1024 * 1024,
        MAX_XMP_BYTES == 4 * 1024 * 1024,
        payload.len() <= MAX_EXIF_BYTES && offset <= payload.len() ==> described_payload(
            payload,
            offset,
        ) == described_reading(
            exif_read(payload.subrange(offset as int, payload.len() as int), true, usize::BITS),
        ),
        payload.len() > MAX_EXIF_BYTES || offset > payload.len() ==> {
            let shown = described_payload(payload, offset);
            &&& shown.parse_error is Some
            &&& shown.artist is None && shown.camera_make is None && shown.camera_model is None
            &&& shown.captured_at is None && shown.copyright is None && shown.lens_make is None
            &&& shown.lens_model is None && shown.software is None
            &&& shown.aperture_f_number is None && shown.exposure_bias_ev is None
            &&& shown.exposure_time_seconds is None && shown.focal_length_mm is None
            &&& shown.iso_speed is None
        },
{
    if offset <= payload.len() {
        assert(payload.skip(offset as int) =~= payload.subrange(
            offset as int,
            payload.len() as int,
        ));
    }
}

/// The fields that can be read of a partly readable payload are shown as those of a
/// readable one.
pub proof fn partial_readings_keep_their_fields(fields: ExifFields, errors: Seq<Seq<char>>)
    ensures
        ({
            let whole = described_reading(ExifRead::Complete(fields));
            let partial = described_reading(ExifRead::Partial(fields, errors));
            &&& whole.parse_error is None
            &&& partial.parse_error is Some
            &&& partial == (ExifModel { parse_error: partial.parse_error, ..whole })
        }),
        described_reading(ExifRead::Failed(Seq::empty())).parse_error is Some,
{
}

/// An attribute is found by its name and its namespace, the first of several.
pub proof fn attributes_are_found_by_their_name(
    attributes: Seq<XmlAttributeModel>,
    namespace: Seq<char>,
    name: Seq<char>,
    index: int,
)
    requires
        0 <= index < attributes.len(),
        attributes[index].namespace == Some(namespace),
        attributes[index].name == name,
        forall|i: int|
            0 <= i < index ==> (#[trigger] attributes[i]).namespace != Some(namespace)
                || attributes[i].name != name,
    ensures
        attribute_value(attributes, namespace, name) == Some(attributes[index].value),
    decreases index,
{
    if index > 0 {
        assert(attributes[0].namespace != Some(namespace) || attributes[0].name != name);
        let rest = attributes.skip(1);
        assert forall|i: int| 0 <= i < index - 1 implies (#[trigger] rest[i]).namespace != Some(
            namespace,
        ) || rest[i].name != name by {
            assert(rest[i] == attributes[i + 1]);
        }
        attributes_are_found_by_their_name(rest, namespace, name, index - 1);
    }
}

/// Without an attribute of that name and namespace, none is found.
pub proof fn other_attributes_are_passed_over(
    attributes: Seq<XmlAttributeModel>,
    namespace: Seq<char>,
    name: Seq<char>,
)
    requires
        forall|i: int|
            0 <= i < attributes.len() ==> (#[trigger] attributes[i]).namespace != Some(namespace)
                || attributes[i].name != name,
    ensures
        attribute_value(attributes, namespace, name) is None,
    decreases attributes.len(),
{
    if attributes.len() > 0 {
        assert(attributes[0].namespace != Some(namespace) || attributes[0].name != name);
        let rest = attributes.skip(1);
        assert forall|i: int| 0 <= i < rest.len() implies (#[trigger] rest[i]).namespace != Some(
            namespace,
        ) || rest[i].name != name by {
            assert(rest[i] == attributes[i + 1]);
        }
        other_attributes_are_passed_over(rest, namespace, name);
    }
}

/// A node gives a rating: as an element with a rating attribute, or as the rating
/// element.
pub open spec fn is_rated(node: XmlNodeModel) -> bool {
    node.is_element && (attribute_value(node.attributes, XMP_BASIC_NAMESPACE@, "Rating"@) is Some
        || (node.namespace == Some(XMP_BASIC_NAMESPACE@) && node.name == "Rating"@))
}

/// The rating of a document is that of its first rated element: the value of its
/// rating attribute, which comes before its text, or the text of the rating element,
/// which must have one. Without a rated element there is no rating, and no error.
pub proof fn the_first_rating_counts(nodes: Seq<XmlNodeModel>, index: int)
    requires
        0 <= index <= nodes.len(),
        forall|i: int| 0 <= i < index ==> !is_rated(#[trigger] nodes[i]),
        index < nodes.len() ==> is_rated(nodes[index]),
    ensures
        index == nodes.len() ==> document_rating(nodes) == Ok::<Option<Seq<char>>, Seq<char>>(None),
        index < nodes.len() ==> {
            let attribute = attribute_value(
                nodes[index].attributes,
                XMP_BASIC_NAMESPACE@,
                "Rating"@,
            );
            &&& attribute is Some ==> document_rating(nodes) == Ok::<Option<Seq<char>>, Seq<char>>(
                attribute,
            )
            &&& attribute is None && nodes[index].text is Some ==> document_rating(nodes) == Ok::<
                Option<Seq<char>>,
                Seq<char>,
            >(nodes[index].text)
            &&& attribute is None && nodes[index].text is None ==> document_rating(nodes) is Err
        },
    decreases index,
{
    if index > 0 {
        assert(!is_rated(nodes[0]));
        let rest = nodes.skip(1);
        assert forall|i: int| 0 <= i < index - 1 implies !is_rated(#[trigger] rest[i]) by {
            assert(rest[i] == nodes[i + 1]);
        }
        if index < nodes.len() {
            assert(rest[index - 1] == nodes[index]);
        }
        the_first_rating_counts(rest, index - 1);
    }
}

/// Ratings from zero to five and the rating of a rejected image, minus one, are
/// supported, and no others.
pub proof fn ratings_go_from_zero_to_five(bits: u64)
    ensures
        bits <= 0x4014_0000_0000_0000 ==> is_supported_rating(bits),
        0x4014_0000_0000_0000 < bits < 0x8000_0000_0000_0000 ==> !is_supported_rating(bits),
        is_supported_rating(0x8000_0000_0000_0000),
        is_supported_rating(0xbff0_0000_0000_0000),
        bits > 0x8000_0000_0000_0000 && bits != 0xbff0_0000_0000_0000 ==> !is_supported_rating(bits),
{
}

/// A payload that is too large is told with its size and the limit, in this order.
pub proof fn oversized_payloads_tell_size_and_limit(kind: Seq<char>, bytes: nat, limit: nat)
    ensures
        text::mentions(
            oversized(kind, bytes, limit),
            " payload is "@ + text::decimal(bytes) + " bytes; limit is "@ + text::decimal(limit)
                + " bytes"@,
        ),
        text::mentions(oversized(kind, bytes, limit), kind),
{
    let none = Seq::<char>::empty();
    let size = text::decimal(bytes);
    let most = text::decimal(limit);
    let first = " payload is "@ + size + " bytes; limit is "@;
    let whole = first + most + " bytes"@;
    text::lemma_grouped(kind, " payload is "@, size, " bytes; limit is "@);
    text::lemma_grouped(kind, first, most, " bytes"@);
    text::lemma_appended(none, kind);
    assert(none + kind =~= kind);
    text::lemma_appended(kind, whole);
}

/// Of the errors of a partly readable payload the first three are told, in their order,
/// and of more than three how many more there are.
pub proof fn partial_errors_tell_the_first_three(
    first: Seq<char>,
    second: Seq<char>,
    third: Seq<char>,
    others: Seq<Seq<char>>,
)
    requires
        first.len() > 0,
    ensures
        ({
            let all = seq![first, second, third] + others;
            let told = partial_errors(all);
            &&& text::mentions(told, first + "; "@ + second + "; "@ + third)
            &&& others.len() > 0 ==> text::mentions(
                told,
                "; and "@ + text::decimal(others.len()) + " more"@,
            )
            &&& others.len() == 0 ==> told == "partially parsed EXIF: "@ + (first + "; "@ + second
                + "; "@ + third)
        }),
        text::mentions(partial_errors(seq![first]), first),
{
    let none = Seq::<char>::empty();
    let all = seq![first, second, third] + others;
    let pieces = all.take(3);
    assert(pieces =~= seq![first, second, third]);
    assert(pieces.drop_last() =~= seq![first, second]);
    assert(pieces.drop_last().drop_last() =~= seq![first]);
    reveal_with_fuel(text::joined, 3);
    let shown = first + "; "@ + second + "; "@ + third;
    assert(text::joined(pieces, "; "@) == shown);
    assert(all.take(numeric::smaller(all.len() as int, 3)) =~= pieces);
    let start = "partially parsed EXIF: "@;
    text::lemma_appended(start, shown);
    if others.len() > 0 {
        let more = "; and "@ + text::decimal(others.len()) + " more"@;
        assert(all.len() - 3 == others.len());
        text::lemma_grouped(shown, "; and "@, text::decimal(others.len()), " more"@);
        text::lemma_grouped(start, shown, more, none);
        text::lemma_appended(start + shown, more);
    }
    let one = seq![first];
    assert(one.take(numeric::smaller(one.len() as int, 3)) =~= one);
    text::lemma_appended(start, first);
}

/// A rating that is not supported is told with the number.
pub proof fn unsupported_ratings_are_told(shown: Seq<char>)
    ensures
        text::mentions(unsupported_rating(shown), shown),
{
    text::lemma_appended("XMP rating "@, shown);
    text::lemma_appended(
        "XMP rating "@ + shown,
        " is outside the supported -1 or 0..=5 range"@,
    );
}

/// What an XMP payload says of a rating: its text without the white space around it,
/// still to be read as a number. A document without one is no error; one that cannot
/// be read, or whose rating is empty, gives an error in place of a rating.
pub proof fn ratings_are_read_without_white_space(
    nodes: Seq<XmlNodeModel>,
    text: Seq<char>,
    message: Seq<char>,
    payload: Seq<u8>,
)
    ensures
        read_rating(Ok(Some(text))) == XmpRead::Rating(words::trimmed(text)),
        read_rating(Ok(None)) == (XmpRead::Unrated { parse_error: None }),
        read_rating(Err(message)) == (XmpRead::Unrated { parse_error: Some(message) }),
        read_document(Ok(nodes)) == read_rating(document_rating(nodes)),
        read_document(Err(message)) matches XmpRead::Unrated { parse_error: Some(told) }
            && text::mentions(told, message),
        payload.len() > 4 * 1024 * 1024 ==> read_xmp(payload) is Unrated && read_xmp(
            payload,
        )->parse_error is Some,
        payload.len() <= 4 * 1024 * 1024 && !valid_utf8(payload) ==> read_xmp(payload) is Unrated
            && read_xmp(payload)->parse_error is Some && text::mentions(
            read_xmp(payload)->parse_error->0,
            utf8_error(payload),
        ),
        payload.len() <= 4 * 1024 * 1024 && valid_utf8(payload) ==> read_xmp(payload)
            == read_document(xml_document(decode_utf8(payload), 4096)),
{
    text::lemma_appended("invalid XMP XML: "@, message);
    text::lemma_appended("XMP is not valid UTF-8: "@, utf8_error(payload));
}

} // verus!
