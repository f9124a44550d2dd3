use xl_view::metadata::{
    ExifFieldValues, ExifMetadata, ExifTag, ExifValue, MAX_EXIF_BYTES, MAX_XMP_BYTES, RatingNumber,
    TagContext, XmlAttribute, XmlNode, XmpMetadata, XmpReading, ascii, find_attribute, find_rating,
    format_partial_errors, parse_exif, parse_rating_value, parse_xmp, rate_document,
    signed_rational, spaced_text, unsigned, unsigned_rational,
};
use xl_view::words::{
    char_is_control, char_is_space, chars_of, first_characters, same_text, trim, words_on_one_line,
};

fn quotient(ratio: Option<(u32, u32)>) -> Option<f64> {
    ratio.map(|(numerator, denominator)| f64::from(numerator) / f64::from(denominator))
}

/// Reads a payload, and its rating as a number.
fn parse_rated_xmp(payload: &[u8]) -> XmpMetadata {
    match parse_xmp(payload) {
        XmpReading::Complete(metadata) => metadata,
        XmpReading::Rating(text) => parse_rating_value(text.parse::<f64>().ok().map(|rating| {
            RatingNumber { bits: rating.to_bits(), shown: rating.to_string() }
        })),
    }
}

fn rating(metadata: &XmpMetadata) -> Option<f64> {
    metadata.rating.map(f64::from_bits)
}

#[test]
fn parses_little_endian_common_fields() {
    let payload = test_payload();
    let exif = parse_exif(&payload, 0);
    assert_eq!(exif.camera_make.as_deref(), Some("ACME"));
    assert_eq!(exif.camera_model.as_deref(), Some("Photon 1"));
    assert_eq!(exif.lens_model.as_deref(), Some("Prime 50"));
    assert_eq!(exif.captured_at.as_deref(), Some("2026:07:13 12:34:56"));
    assert_eq!(exif.iso_speed, Some(200));
    assert_eq!(quotient(exif.exposure_time_seconds), Some(1.0 / 125.0));
    assert_eq!(quotient(exif.aperture_f_number), Some(2.8));
    assert_eq!(quotient(exif.focal_length_mm), Some(50.0));
    assert_eq!(
        exif.exposure_bias_ev.map(|(n, d)| f64::from(n) / f64::from(d)),
        Some(-1.0 / 3.0)
    );
    assert_eq!(exif.parse_error, None);
    assert_eq!(exif.software, None);
    assert_eq!(exif.lens_make, None);
}

#[test]
fn honors_tiff_header_offset() {
    let mut payload = b"JXL prefix".to_vec();
    let offset = u32::try_from(payload.len()).unwrap();
    payload.extend_from_slice(&test_payload());
    let exif = parse_exif(&payload, offset);
    assert_eq!(exif.camera_make.as_deref(), Some("ACME"));
    assert_eq!(exif.parse_error, None);
}

#[test]
fn malformed_exif_is_non_fatal() {
    let exif = parse_exif(b"not TIFF", 0);
    assert!(exif.parse_error.is_some());
    let outside = parse_exif(b"not TIFF", 9);
    assert_eq!(
        outside.parse_error.as_deref(),
        Some("TIFF header offset is outside the EXIF payload")
    );
}

#[test]
fn oversized_exif_is_not_parsed() {
    let payload = vec![0; MAX_EXIF_BYTES + 1];
    let exif = parse_exif(&payload, 0);
    assert!(exif.parse_error.is_some());
    assert_eq!(
        exif.parse_error.as_deref(),
        Some("EXIF payload is 16777217 bytes; limit is 16777216 bytes")
    );
}

#[test]
fn parses_big_endian_inline_ascii() {
    let payload = [
        b'M', b'M', 0, 42, 0, 0, 0, 8, 0, 1, 0x01, 0x0f, 0, 2, 0, 0, 0, 4, b'A', b'C', 0, 0, 0,
        0, 0, 0,
    ];
    let exif = parse_exif(&payload, 0);
    assert_eq!(exif.camera_make.as_deref(), Some("AC"));
    assert_eq!(exif.parse_error, None);
}

#[test]
fn partly_readable_exif_keeps_its_fields_and_tells_its_errors() {
    let mut payload = test_payload();
    // The next-directory offset of the first directory points outside.
    let at = 8 + 2 + 3 * 12;
    payload[at..at + 4].copy_from_slice(&0xffff_ff00_u32.to_le_bytes());
    let exif = parse_exif(&payload, 0);
    assert_eq!(exif.camera_make.as_deref(), Some("ACME"));
    assert!(exif.parse_error.unwrap().starts_with("partially parsed EXIF: "));
}

#[test]
fn tags_are_those_of_the_exif_crate() {
    for (own, theirs) in [
        (ExifTag::Make, exif::Tag::Make),
        (ExifTag::Model, exif::Tag::Model),
        (ExifTag::Software, exif::Tag::Software),
        (ExifTag::DateTime, exif::Tag::DateTime),
        (ExifTag::Artist, exif::Tag::Artist),
        (ExifTag::Copyright, exif::Tag::Copyright),
        (ExifTag::ExposureTime, exif::Tag::ExposureTime),
        (ExifTag::FNumber, exif::Tag::FNumber),
        (ExifTag::PhotographicSensitivity, exif::Tag::PhotographicSensitivity),
        (ExifTag::IsoSpeed, exif::Tag::ISOSpeed),
        (ExifTag::DateTimeOriginal, exif::Tag::DateTimeOriginal),
        (ExifTag::DateTimeDigitized, exif::Tag::DateTimeDigitized),
        (ExifTag::ExposureBiasValue, exif::Tag::ExposureBiasValue),
        (ExifTag::FocalLength, exif::Tag::FocalLength),
        (ExifTag::LensMake, exif::Tag::LensMake),
        (ExifTag::LensModel, exif::Tag::LensModel),
    ] {
        assert_eq!(own.number(), theirs.number());
        assert_eq!(
            own.context() == TagContext::Tiff,
            theirs.context() == exif::Context::Tiff
        );
    }
}

fn text(values: &[&[u8]]) -> Option<ExifValue> {
    Some(ExifValue::Ascii(values.iter().map(|value| value.to_vec()).collect()))
}

#[test]
fn field_texts_are_normalized() {
    assert_eq!(ascii(&text(&[b"  A\tB\x07 C "])).as_deref(), Some("A B C"));
    assert_eq!(ascii(&text(&[b"", b"one", b"two"])).as_deref(), Some("one two"));
    assert_eq!(ascii(&text(&[b" \n"])), None);
    assert_eq!(ascii(&text(&[b"caf\xc3\xa9 \xff"])).as_deref(), Some("caf\u{e9} \u{fffd}"));
    assert_eq!(ascii(&text(&[&[b'x'; 300]])).unwrap().len(), 256);
    assert_eq!(ascii(&None), None);
    assert_eq!(ascii(&Some(ExifValue::Unsigned(vec![1]))), None);
    assert_eq!(
        spaced_text(&["".to_owned(), "a".to_owned(), "".to_owned(), "b".to_owned()]
            .to_vec()),
        "a  b"
    );
}

#[test]
fn numbers_come_from_the_first_value() {
    assert_eq!(unsigned(&Some(ExifValue::Unsigned(vec![3, 4]))), Some(3));
    assert_eq!(unsigned(&Some(ExifValue::Unsigned(vec![]))), None);
    assert_eq!(unsigned_rational(&Some(ExifValue::Rational(vec![(1, 3)]))), Some((1, 3)));
    assert_eq!(unsigned_rational(&Some(ExifValue::Rational(vec![(1, 0)]))), None);
    assert_eq!(
        signed_rational(&Some(ExifValue::SignedRational(vec![(-1, 3), (1, 1)]))),
        Some((-1, 3))
    );
    assert_eq!(signed_rational(&Some(ExifValue::SignedRational(vec![(1, 0)]))), None);
    assert_eq!(signed_rational(&Some(ExifValue::Rational(vec![(1, 1)]))), None);
}

fn no_fields() -> ExifFieldValues {
    ExifFieldValues {
        make: None,
        model: None,
        software: None,
        date_time: None,
        artist: None,
        copyright: None,
        exposure_time: None,
        f_number: None,
        photographic_sensitivity: None,
        iso_speed: None,
        date_time_original: None,
        date_time_digitized: None,
        exposure_bias_value: None,
        focal_length: None,
        lens_make: None,
        lens_model: None,
    }
}

#[test]
fn missing_times_and_speeds_fall_back() {
    let mut fields = no_fields();
    fields.date_time = text(&[b"changed"]);
    fields.iso_speed = Some(ExifValue::Unsigned(vec![800]));
    let metadata = ExifMetadata::from_fields(&fields, None);
    assert_eq!(metadata.captured_at.as_deref(), Some("changed"));
    assert_eq!(metadata.iso_speed, Some(800));
    fields.date_time_digitized = text(&[b"digitized"]);
    fields.photographic_sensitivity = Some(ExifValue::Unsigned(vec![100]));
    let metadata = ExifMetadata::from_fields(&fields, Some("damaged".to_owned()));
    assert_eq!(metadata.captured_at.as_deref(), Some("digitized"));
    assert_eq!(metadata.iso_speed, Some(100));
    assert_eq!(metadata.parse_error.as_deref(), Some("damaged"));
    fields.date_time_original = text(&[b"original"]);
    let metadata = ExifMetadata::from_fields(&fields, None);
    assert_eq!(metadata.captured_at.as_deref(), Some("original"));
}

#[test]
fn partial_errors_are_summed_up() {
    let errors = |count: usize| (0..count).map(|i| format!("e{i}")).collect::<Vec<_>>();
    assert_eq!(format_partial_errors(&errors(0)), "partially parsed EXIF");
    assert_eq!(format_partial_errors(&errors(1)), "partially parsed EXIF: e0");
    assert_eq!(format_partial_errors(&errors(3)), "partially parsed EXIF: e0; e1; e2");
    assert_eq!(
        format_partial_errors(&errors(5)),
        "partially parsed EXIF: e0; e1; e2; and 2 more"
    );
}

#[test]
fn parses_xmp_rating_attribute_by_namespace_instead_of_prefix() {
    let xmp = parse_rated_xmp(
        br#"<rdf:RDF xmlns:rdf="http://www.w3.org/1999/02/22-rdf-syntax-ns#">
                <rdf:Description xmlns:metadata="http://ns.adobe.com/xap/1.0/"
                    metadata:Rating="4"/>
            </rdf:RDF>"#,
    );
    assert_eq!(rating(&xmp), Some(4.0));
    assert_eq!(xmp.parse_error, None);
}

#[test]
fn parses_xmp_rating_element_and_fractional_value() {
    let xmp = parse_rated_xmp(
        br#"<rdf:RDF xmlns:rdf="http://www.w3.org/1999/02/22-rdf-syntax-ns#"
                    xmlns:xmp="http://ns.adobe.com/xap/1.0/">
                <rdf:Description><xmp:Rating>4.5</xmp:Rating></rdf:Description>
            </rdf:RDF>"#,
    );
    assert_eq!(rating(&xmp), Some(4.5));
    assert_eq!(xmp.parse_error, None);
}

#[test]
fn ignores_rating_from_an_unrelated_xml_namespace() {
    let xmp = parse_rated_xmp(
        br#"<other:Rating xmlns:other="https://example.invalid/not-xmp">5</other:Rating>"#,
    );
    assert_eq!(rating(&xmp), None);
    assert_eq!(xmp.parse_error, None);
}

#[test]
fn invalid_xmp_is_non_fatal() {
    let malformed = parse_rated_xmp(b"<xmp:Rating>");
    assert_eq!(malformed.rating, None);
    assert!(malformed.parse_error.is_some());

    let dtd = parse_rated_xmp(b"<!DOCTYPE xmp><xmp/>");
    assert_eq!(dtd.rating, None);
    assert!(dtd.parse_error.is_some());

    let out_of_range =
        parse_rated_xmp(br#"<xmp:Rating xmlns:xmp="http://ns.adobe.com/xap/1.0/">6</xmp:Rating>"#);
    assert_eq!(out_of_range.rating, None);
    assert!(out_of_range.parse_error.is_some());

    let oversized_payload = vec![b' '; MAX_XMP_BYTES + 1];
    let oversized = parse_rated_xmp(&oversized_payload);
    assert_eq!(oversized.rating, None);
    assert!(oversized.parse_error.is_some());
    assert_eq!(
        oversized.parse_error.as_deref(),
        Some("XMP payload is 4194305 bytes; limit is 4194304 bytes")
    );
}

#[test]
fn xmp_errors_say_what_went_wrong() {
    let not_utf8 = parse_rated_xmp(b"<a>\xff</a>");
    let expected = std::str::from_utf8(b"<a>\xff</a>").unwrap_err();
    assert_eq!(
        not_utf8.parse_error,
        Some(format!("XMP is not valid UTF-8: {expected}"))
    );
    let malformed = parse_rated_xmp(b"<a>");
    let expected = roxmltree::Document::parse("<a>").unwrap_err();
    assert_eq!(malformed.parse_error, Some(format!("invalid XMP XML: {expected}")));
    let many = format!("<a>{}</a>", "<b/>".repeat(5_000));
    assert!(parse_rated_xmp(many.as_bytes()).parse_error.is_some());
    let empty = parse_rated_xmp(br#"<x:Rating xmlns:x="http://ns.adobe.com/xap/1.0/"/>"#);
    assert_eq!(empty.parse_error.as_deref(), Some("XMP rating has no value"));
    let words = parse_rated_xmp(br#"<x:Rating xmlns:x="http://ns.adobe.com/xap/1.0/">x</x:Rating>"#);
    assert_eq!(words.parse_error.as_deref(), Some("XMP rating is not numeric"));
    let high = parse_rated_xmp(br#"<x:Rating xmlns:x="http://ns.adobe.com/xap/1.0/"> 6 </x:Rating>"#);
    assert_eq!(
        high.parse_error.as_deref(),
        Some("XMP rating 6 is outside the supported -1 or 0..=5 range")
    );
}

#[test]
fn ratings_are_supported_from_zero_to_five_and_minus_one() {
    for value in [-1.0, 0.0, -0.0, 0.5, 5.0, -0.5, -2.0, 5.000_001, f64::NAN, f64::INFINITY] {
        let supported = value == -1.0 || (0.0..=5.0).contains(&value);
        let metadata = parse_rating_value(Some(RatingNumber {
            bits: f64::to_bits(value),
            shown: value.to_string(),
        }));
        assert_eq!(metadata.rating.is_some(), supported, "{value}");
        assert_eq!(metadata.parse_error.is_none(), supported, "{value}");
    }
}

fn node(is_element: bool, namespace: &str, name: &str, text: Option<&str>) -> XmlNode {
    XmlNode {
        is_element,
        namespace: Some(namespace.to_owned()),
        name: name.to_owned(),
        attributes: Vec::new(),
        text: text.map(str::to_owned),
    }
}

#[test]
fn the_first_rated_element_decides() {
    let xap = "http://ns.adobe.com/xap/1.0/";
    let attribute = |namespace: &str, value: &str| XmlAttribute {
        namespace: Some(namespace.to_owned()),
        name: "Rating".to_owned(),
        value: value.to_owned(),
    };
    let mut described = node(true, "x", "Description", None);
    described.attributes = vec![attribute("other", "1"), attribute(xap, "2"), attribute(xap, "3")];
    assert_eq!(
        find_attribute(&described.attributes, xap, "Rating").as_deref(),
        Some("2")
    );
    let element = node(true, xap, "Rating", Some(" 4 "));
    let comment = node(false, xap, "Rating", Some("5"));
    let reading = rate_document(Ok(vec![comment, element, described]));
    assert!(matches!(reading, XmpReading::Rating(text) if text == "4"));
    assert_eq!(find_rating(&vec![node(true, "x", "Rating", Some("5"))]), Ok(None));
}

#[test]
fn words_follow_unicode() {
    for code in 0..0x3100_u32 {
        if let Some(c) = char::from_u32(code) {
            assert_eq!(char_is_space(c), c.is_whitespace(), "{code:x}");
            assert_eq!(char_is_control(c), c.is_control(), "{code:x}");
        }
    }
    let sample = "\u{2003} a\u{85}b \u{3000}c\t";
    assert_eq!(trim(sample), sample.trim());
    assert_eq!(trim(" \n"), "");
    assert_eq!(
        words_on_one_line(sample, 100),
        Some(sample.split_whitespace().collect::<Vec<_>>().join(" "))
    );
    assert_eq!(words_on_one_line("ab cd", 3).as_deref(), Some("ab "));
    assert_eq!(first_characters("\u{e9}t\u{e9}", 2), "\u{e9}t");
    assert_eq!(chars_of("\u{e9}t"), ['\u{e9}', 't']);
    assert!(same_text("ab", "ab") && !same_text("ab", "ac") && !same_text("ab", "abc"));
}

fn test_payload() -> Vec<u8> {
    let mut data = vec![b'I', b'I', 42, 0, 8, 0, 0, 0];
    let ifd0 = data.len();
    data.extend_from_slice(&3_u16.to_le_bytes());
    data.resize(data.len() + 3 * 12 + 4, 0);
    let make_offset = append(&mut data, b"ACME\0");
    let model_offset = append(&mut data, b"Photon 1\0");
    let exif_ifd_offset = u32::try_from(data.len()).unwrap();
    write_entry(&mut data, ifd0 + 2, 0x010f, 2, 5, make_offset);
    write_entry(&mut data, ifd0 + 14, 0x0110, 2, 9, model_offset);
    write_entry(&mut data, ifd0 + 26, 0x8769, 4, 1, exif_ifd_offset);

    let exif_ifd = data.len();
    data.extend_from_slice(&7_u16.to_le_bytes());
    data.resize(data.len() + 7 * 12 + 4, 0);
    let exposure = append_rational(&mut data, 1, 125);
    let aperture = append_rational(&mut data, 28, 10);
    let captured = append(&mut data, b"2026:07:13 12:34:56\0");
    let bias = append_signed_rational(&mut data, -1, 3);
    let focal = append_rational(&mut data, 50, 1);
    let lens = append(&mut data, b"Prime 50\0");
    write_entry(&mut data, exif_ifd + 2, 0x829a, 5, 1, exposure);
    write_entry(&mut data, exif_ifd + 14, 0x829d, 5, 1, aperture);
    write_entry(&mut data, exif_ifd + 26, 0x8827, 3, 1, 200);
    write_entry(&mut data, exif_ifd + 38, 0x9003, 2, 20, captured);
    write_entry(&mut data, exif_ifd + 50, 0x9204, 10, 1, bias);
    write_entry(&mut data, exif_ifd + 62, 0x920a, 5, 1, focal);
    write_entry(&mut data, exif_ifd + 74, 0xa434, 2, 9, lens);
    data
}

fn append(data: &mut Vec<u8>, value: &[u8]) -> u32 {
    let offset = u32::try_from(data.len()).unwrap();
    data.extend_from_slice(value);
    offset
}

fn append_rational(data: &mut Vec<u8>, numerator: u32, denominator: u32) -> u32 {
    let offset = u32::try_from(data.len()).unwrap();
    data.extend_from_slice(&numerator.to_le_bytes());
    data.extend_from_slice(&denominator.to_le_bytes());
    offset
}

fn append_signed_rational(data: &mut Vec<u8>, numerator: i32, denominator: i32) -> u32 {
    let offset = u32::try_from(data.len()).unwrap();
    data.extend_from_slice(&numerator.to_le_bytes());
    data.extend_from_slice(&denominator.to_le_bytes());
    offset
}

fn write_entry(
    data: &mut [u8],
    offset: usize,
    tag: u16,
    field_type: u16,
    count: u32,
    value: u32,
) {
    data[offset..offset + 2].copy_from_slice(&tag.to_le_bytes());
    data[offset + 2..offset + 4].copy_from_slice(&field_type.to_le_bytes());
    data[offset + 4..offset + 8].copy_from_slice(&count.to_le_bytes());
    data[offset + 8..offset + 12].copy_from_slice(&value.to_le_bytes());
}
