use colourspace_link::builder::RectangleBuilder;
use colourspace_link::color::ColorRGB;
use colourspace_link::literal::RealLiteral;
use colourspace_link::parser::{parse_tokens, MeasurementParser, ParseError};
use colourspace_link::shape::{copy_shapes, RectangleGeometry, RectangleShape, ShapeInstruction};
use colourspace_link::xml::{XmlAttribute, XmlReader, XmlToken};

fn attribute(key: &str, value: &str) -> Option<XmlAttribute> {
    Some(XmlAttribute { key: key.to_string(), value: value.to_string() })
}

fn start(name: &str, attributes: Vec<Option<XmlAttribute>>) -> XmlToken {
    XmlToken::Start { name: name.to_string(), attributes }
}

fn empty(name: &str, attributes: Vec<Option<XmlAttribute>>) -> XmlToken {
    XmlToken::Empty { name: name.to_string(), attributes }
}

fn end(name: &str) -> XmlToken {
    XmlToken::End { name: name.to_string() }
}

fn text(content: &str) -> XmlToken {
    XmlToken::Text { content: content.to_string() }
}

fn rectangle(color: ColorRGB, width: &str, height: &str) -> ShapeInstruction {
    ShapeInstruction::Rectangle(RectangleShape {
        color,
        geometry: RectangleGeometry {
            width: RealLiteral::parse(width).unwrap(),
            height: RealLiteral::parse(height).unwrap(),
        },
    })
}

#[test]
fn reader_yields_the_tokens_of_a_message() {
    let mut reader = XmlReader::new("<?xml version=\"1.0\"?><a k=\"v\" bad>\n <b/> t&amp;x </a></c>");
    assert_eq!(reader.next_token(), XmlToken::Other);
    assert_eq!(reader.next_token(), start("a", vec![attribute("k", "v"), None]));
    assert_eq!(reader.next_token(), empty("b", vec![]));
    assert_eq!(reader.next_token(), text("t&x"));
    assert_eq!(reader.next_token(), end("a"));
    assert_eq!(reader.next_token(), XmlToken::Malformed);
}

#[test]
fn reader_takes_an_unfinished_tag_at_the_end_as_opened() {
    let mut reader = XmlReader::new("<a><b k=\"v\"");
    assert_eq!(reader.next_token(), start("a", vec![]));
    assert_eq!(reader.next_token(), start("b", vec![attribute("k", "v")]));
    assert_eq!(reader.next_token(), XmlToken::Eof);
}

#[test]
fn reader_ends_with_the_end_of_the_text() {
    let mut reader = XmlReader::new("<a>1</a>");
    assert_eq!(reader.next_token(), start("a", vec![]));
    assert_eq!(reader.next_token(), text("1"));
    assert_eq!(reader.next_token(), end("a"));
    assert_eq!(reader.next_token(), XmlToken::Eof);
}

#[test]
fn reader_hands_on_text_that_it_cannot_resolve_as_empty() {
    let mut reader = XmlReader::new("<a>1&bogus;</a>");
    assert_eq!(reader.next_token(), start("a", vec![]));
    assert_eq!(reader.next_token(), text(""));
}

#[test]
fn reader_keeps_repeated_keys_and_single_quotes() {
    let mut reader = XmlReader::new("<a k='1' k=\"2\" e=\"&lt;&#65;\"/>");
    assert_eq!(
        reader.next_token(),
        empty("a", vec![attribute("k", "1"), attribute("k", "2"), attribute("e", "<A")])
    );
}

#[test]
fn tokens_are_read_like_text() {
    let tokens = vec![
        start("CS_RMC", vec![None]),
        start("shapes", vec![]),
        start("rectangle", vec![]),
        empty("color", vec![attribute("red", "100"), attribute("green", "50"), attribute("blue", "25")]),
        empty("geometry", vec![attribute("x", "0.2"), attribute("cx", "0.9")]),
        end("rectangle"),
        end("shapes"),
        start("measurement", vec![]),
        start("result", vec![]),
        start("x", vec![]),
        text(" 0.31 "),
        end("x"),
        end("result"),
        end("measurement"),
        end("CS_RMC"),
        XmlToken::Eof,
    ];
    let measurement = parse_tokens(&tokens, 10, 20, 30).unwrap();
    assert_eq!((measurement.red, measurement.green, measurement.blue), (10, 20, 30));
    assert_eq!(measurement.x, RealLiteral::parse("0.31"));
    assert_eq!(measurement.y, None);
    assert_eq!(
        measurement.shapes,
        vec![rectangle(ColorRGB { red: 100, green: 50, blue: 25, depth_bits: 8 }, "0.9", "1.0")]
    );
}

#[test]
fn tokens_behind_the_end_of_the_text_do_not_count() {
    let tokens = vec![start("a", vec![]), XmlToken::Eof, XmlToken::Malformed, start("rectangle", vec![])];
    assert!(parse_tokens(&tokens, 0, 0, 0).is_ok());
}

#[test]
fn tokens_without_an_end_are_read_to_the_last() {
    let tokens = vec![start("a", vec![]), start("m", vec![]), start("rectangle", vec![])];
    assert_eq!(parse_tokens(&tokens, 0, 0, 0), Err(ParseError::IncompleteShape));
    assert!(parse_tokens(&vec![], 0, 0, 0).is_ok());
}

#[test]
fn malformed_token_is_a_violation() {
    let tokens = vec![start("a", vec![]), XmlToken::Malformed, XmlToken::Eof];
    assert_eq!(parse_tokens(&tokens, 0, 0, 0), Err(ParseError::MalformedXml));
}

#[test]
fn repeated_command_token_is_a_violation() {
    let tokens = vec![
        start("a", vec![]),
        start("m", vec![]),
        end("m"),
        start("n", vec![]),
        end("n"),
        start("m", vec![]),
    ];
    assert_eq!(parse_tokens(&tokens, 0, 0, 0), Err(ParseError::DuplicateCommand));
}

#[test]
fn closing_tags_beyond_the_open_elements_are_borne() {
    let tokens = vec![end("a"), end("a"), start("a", vec![]), start("m", vec![]), end("m"), start("m", vec![])];
    assert_eq!(parse_tokens(&tokens, 0, 0, 0), Err(ParseError::DuplicateCommand));
}

#[test]
fn parser_takes_tokens_one_by_one() {
    let mut parser = MeasurementParser::new(1, 2, 3);
    assert_eq!(parser.feed(&start("a", vec![])), Ok(()));
    assert_eq!(parser.feed(&start("result", vec![])), Ok(()));
    assert_eq!(parser.feed(&start("blue", vec![])), Ok(()));
    assert_eq!(parser.feed(&text("77")), Ok(()));
    assert_eq!(parser.feed(&XmlToken::Other), Ok(()));
    assert_eq!(parser.feed(&XmlToken::Eof), Ok(()));
    let measurement = parser.finish().unwrap();
    assert_eq!((measurement.red, measurement.green, measurement.blue), (1, 2, 77));
}

#[test]
fn parser_refuses_a_rectangle_without_color() {
    let mut parser = MeasurementParser::new(0, 0, 0);
    assert_eq!(parser.feed(&start("rectangle", vec![])), Ok(()));
    assert_eq!(parser.feed(&empty("geometry", vec![attribute("cx", "0.5"), attribute("cy", "0.5")])), Ok(()));
    assert_eq!(parser.feed(&end("rectangle")), Err(ParseError::IncompleteShape));
}

#[test]
fn builder_without_color_builds_nothing() {
    let mut builder = RectangleBuilder::new();
    builder.apply_geometry(&vec![attribute("cx", "0.5"), attribute("cy", "0.5")]);
    assert_eq!(builder.build(), None);
}

#[test]
fn builder_defaults_to_the_full_extent() {
    let mut builder = RectangleBuilder::new();
    builder.apply_color(&vec![attribute("red", "100"), attribute("green", "50"), attribute("blue", "25")]);
    let built = builder.build().unwrap();
    assert_eq!(built.color, ColorRGB { red: 100, green: 50, blue: 25, depth_bits: 8 });
    assert_eq!(built.geometry.width.as_str(), "1.0");
    assert_eq!(built.geometry.height.as_str(), "1.0");
}

#[test]
fn builder_lets_the_center_size_win() {
    let mut builder = RectangleBuilder::new();
    builder.apply_color(&vec![attribute("red", "1")]);
    builder.apply_geometry(&vec![attribute("x", "0.2"), attribute("cx", "0.9"), None, attribute("y", "0.3")]);
    let built = builder.build().unwrap();
    assert_eq!(built.geometry.width.as_str(), "0.9");
    assert_eq!(built.geometry.height.as_str(), "0.3");
}

#[test]
fn builder_reads_the_depth_under_three_keys() {
    for key in ["bits", "depth", "bitDepth"] {
        let mut builder = RectangleBuilder::new();
        builder.apply_color(&vec![attribute(key, "12"), attribute("blue", "4000")]);
        assert_eq!(builder.color, Some(ColorRGB { red: 0, green: 0, blue: 4000, depth_bits: 12 }));
    }
    let mut builder = RectangleBuilder::new();
    builder.apply_color(&vec![attribute("Bits", "12"), attribute("bits", "256"), attribute("blue", "1")]);
    assert_eq!(builder.color, Some(ColorRGB { red: 0, green: 0, blue: 1, depth_bits: 8 }));
}

#[test]
fn shapes_are_copied_whole() {
    let shapes = vec![
        rectangle(ColorRGB { red: 1, green: 2, blue: 3, depth_bits: 8 }, "0.5", "1e-1"),
        rectangle(ColorRGB { red: 4, green: 5, blue: 6, depth_bits: 10 }, "1.0", ".25"),
    ];
    assert_eq!(copy_shapes(&shapes), shapes);
    assert_eq!(shapes[1].color(), ColorRGB { red: 4, green: 5, blue: 6, depth_bits: 10 });
    assert_eq!(shapes[0].clone(), shapes[0]);
}
