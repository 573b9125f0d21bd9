use colourspace_link::color::ColorRGB;
use colourspace_link::command::measurement_command;
use colourspace_link::parser::{parse_measurement_from_xml, ParseError};
use colourspace_link::shape::ShapeInstruction;

fn rectangle_of(shape: &ShapeInstruction) -> (ColorRGB, f32, f32) {
    match shape {
        ShapeInstruction::Rectangle(rectangle) => (
            rectangle.color,
            rectangle.geometry.width.as_str().parse::<f32>().unwrap(),
            rectangle.geometry.height.as_str().parse::<f32>().unwrap(),
        ),
    }
}

#[test]
fn request_envelope_echoes_the_fallback_values() {
    let command = measurement_command(10, 20, 30);
    let measurement = parse_measurement_from_xml(&command, 10, 20, 30).unwrap();
    assert_eq!((measurement.red, measurement.green, measurement.blue), (10, 20, 30));
    assert!(measurement.x.is_none() && measurement.y.is_none() && measurement.y_lum.is_none());
    assert!(measurement.shapes.is_empty());
}

#[test]
fn request_envelope_does_not_override_other_fallback_values() {
    let command = measurement_command(10, 20, 30);
    let measurement = parse_measurement_from_xml(&command, 1, 2, 3).unwrap();
    assert_eq!((measurement.red, measurement.green, measurement.blue), (1, 2, 3));
}

#[test]
fn repeated_command_is_a_violation() {
    let xml = "<CS_RMC version=1><measurement><red>1</red></measurement><measurement><red>2</red></measurement></CS_RMC>";
    assert_eq!(parse_measurement_from_xml(xml, 0, 0, 0), Err(ParseError::DuplicateCommand));
}

#[test]
fn rectangle_without_color_is_a_violation() {
    let xml = "<CS_RMC version=1><shapes><rectangle><geometry cx=\"0.5\" cy=\"0.5\"/></rectangle></shapes></CS_RMC>";
    assert_eq!(parse_measurement_from_xml(xml, 0, 0, 0), Err(ParseError::IncompleteShape));
}

#[test]
fn rectangle_without_geometry_fills_the_display() {
    let xml = "<CS_RMC version=1><shapes><rectangle><color red=\"100\" green=\"50\" blue=\"25\"/></rectangle></shapes></CS_RMC>";
    let measurement = parse_measurement_from_xml(xml, 0, 0, 0).unwrap();
    assert_eq!(measurement.shapes.len(), 1);
    let (color, width, height) = rectangle_of(&measurement.shapes[0]);
    assert_eq!(color, ColorRGB { red: 100, green: 50, blue: 25, depth_bits: 8 });
    assert_eq!(width, 1.0);
    assert_eq!(height, 1.0);
}

#[test]
fn center_size_wins_over_corner_size() {
    let xml = "<CS_RMC version=1><shapes><rectangle><color red=\"1\"/><geometry x=\"0.2\" cx=\"0.9\"/></rectangle></shapes></CS_RMC>";
    let measurement = parse_measurement_from_xml(xml, 0, 0, 0).unwrap();
    let (_, width, height) = rectangle_of(&measurement.shapes[0]);
    assert_eq!(width, 0.9);
    assert_eq!(height, 1.0);
}

#[test]
fn result_readings_are_reported() {
    let xml = "<CS_RMC version=1><measurement><result><red>11</red><x>0.31</x><y>0.32</y><Y> 55.5 </Y></result></measurement></CS_RMC>";
    let measurement = parse_measurement_from_xml(xml, 10, 20, 30).unwrap();
    assert_eq!((measurement.red, measurement.green, measurement.blue), (11, 20, 30));
    assert_eq!(measurement.x.unwrap().as_str().parse::<f64>().unwrap(), 0.31);
    assert_eq!(measurement.y.unwrap().as_str().parse::<f64>().unwrap(), 0.32);
    assert_eq!(measurement.y_lum.unwrap().as_str().parse::<f64>().unwrap(), 55.5);
}

#[test]
fn mismatched_closing_tag_is_malformed() {
    let xml = "<CS_RMC version=1><measurement></wrong></CS_RMC>";
    assert_eq!(parse_measurement_from_xml(xml, 0, 0, 0), Err(ParseError::MalformedXml));
}

#[test]
fn unterminated_rectangle_is_finished_at_the_end_of_the_text() {
    let xml = "<CS_RMC version=1><shapes><rectangle><color red=\"5\" green=\"6\" blue=\"7\" bits=\"10\"/>";
    let measurement = parse_measurement_from_xml(xml, 0, 0, 0).unwrap();
    assert_eq!(measurement.shapes.len(), 1);
    let (color, width, height) = rectangle_of(&measurement.shapes[0]);
    assert_eq!(color, ColorRGB { red: 5, green: 6, blue: 7, depth_bits: 10 });
    assert_eq!((width, height), (1.0, 1.0));
}

#[test]
fn unterminated_rectangle_without_color_is_a_violation() {
    let xml = "<CS_RMC version=1><shapes><rectangle><geometry cx=\"0.5\"/>";
    assert_eq!(parse_measurement_from_xml(xml, 0, 0, 0), Err(ParseError::IncompleteShape));
}

#[test]
fn shapes_come_in_document_order() {
    let xml = "<CS_RMC version=1><shapes>\
        <rectangle><color red=\"1\" green=\"2\" blue=\"3\"/><geometry cx=\"0.25\" cy=\"0.5\"/></rectangle>\
        <rectangle><colex red=\"4\" depth=\"12\"/><geometry x=\"0.75\" y=\"0.125\"></geometry></rectangle>\
        </shapes></CS_RMC>";
    let measurement = parse_measurement_from_xml(xml, 9, 9, 9).unwrap();
    assert_eq!(measurement.shapes.len(), 2);
    assert_eq!(
        rectangle_of(&measurement.shapes[0]),
        (ColorRGB { red: 1, green: 2, blue: 3, depth_bits: 8 }, 0.25, 0.5)
    );
    assert_eq!(
        rectangle_of(&measurement.shapes[1]),
        (ColorRGB { red: 4, green: 0, blue: 0, depth_bits: 12 }, 0.75, 0.125)
    );
    assert_eq!((measurement.red, measurement.green, measurement.blue), (9, 9, 9));
}

#[test]
fn color_element_with_children_counts_like_a_self_closing_one() {
    let xml = "<CS_RMC version=1><shapes><rectangle><color red=\"7\" bitDepth=\"16\"><note/></color></rectangle></shapes></CS_RMC>";
    let measurement = parse_measurement_from_xml(xml, 0, 0, 0).unwrap();
    assert_eq!(rectangle_of(&measurement.shapes[0]).0, ColorRGB { red: 7, green: 0, blue: 0, depth_bits: 16 });
}

#[test]
fn depth_without_a_channel_value_is_no_color() {
    let xml = "<CS_RMC version=1><shapes><rectangle><color bits=\"10\"/></rectangle></shapes></CS_RMC>";
    assert_eq!(parse_measurement_from_xml(xml, 0, 0, 0), Err(ParseError::IncompleteShape));
    let xml = "<CS_RMC version=1><shapes><rectangle><color bits=\"10\"/><color red=\"3\"/></rectangle></shapes></CS_RMC>";
    let measurement = parse_measurement_from_xml(xml, 0, 0, 0).unwrap();
    assert_eq!(rectangle_of(&measurement.shapes[0]).0, ColorRGB { red: 3, green: 0, blue: 0, depth_bits: 8 });
}

#[test]
fn later_color_element_keeps_what_it_does_not_give() {
    let xml = "<CS_RMC version=1><shapes><rectangle><color red=\"1\" green=\"2\" bits=\"10\"/><color green=\"20\" blue=\"30\"/></rectangle></shapes></CS_RMC>";
    let measurement = parse_measurement_from_xml(xml, 0, 0, 0).unwrap();
    assert_eq!(rectangle_of(&measurement.shapes[0]).0, ColorRGB { red: 1, green: 20, blue: 30, depth_bits: 10 });
}

#[test]
fn channel_value_that_is_no_number_is_passed_over() {
    let xml = "<CS_RMC version=1><shapes><rectangle><color red=\"70000\" green=\"x\" blue=\"-1\"/></rectangle></shapes></CS_RMC>";
    assert_eq!(parse_measurement_from_xml(xml, 0, 0, 0), Err(ParseError::IncompleteShape));
    let xml = "<CS_RMC version=1><shapes><rectangle><color red=\"70000\" green=\"65535\" blue=\" 1\"/></rectangle></shapes></CS_RMC>";
    let measurement = parse_measurement_from_xml(xml, 0, 0, 0).unwrap();
    assert_eq!(rectangle_of(&measurement.shapes[0]).0, ColorRGB { red: 0, green: 65535, blue: 0, depth_bits: 8 });
}

#[test]
fn repeated_attribute_takes_the_last_value() {
    let xml = "<CS_RMC version=1><shapes><rectangle><color red=\"1\" red=\"2\" red=\"x\"/><geometry cx=\"0.1\" cx=\"0.2\" x=\"0.3\" y=\"0.4\" y=\"0.5\"/></rectangle></shapes></CS_RMC>";
    let measurement = parse_measurement_from_xml(xml, 0, 0, 0).unwrap();
    let (color, width, height) = rectangle_of(&measurement.shapes[0]);
    assert_eq!(color.red, 2);
    assert_eq!(width, 0.2);
    assert_eq!(height, 0.4);
}

#[test]
fn corner_size_does_not_replace_a_size_that_is_set() {
    let xml = "<CS_RMC version=1><shapes><rectangle><color red=\"1\"/><geometry x=\"0.2\"/><geometry x=\"0.3\"/></rectangle></shapes></CS_RMC>";
    let measurement = parse_measurement_from_xml(xml, 0, 0, 0).unwrap();
    assert_eq!(rectangle_of(&measurement.shapes[0]).1, 0.2);
    let xml = "<CS_RMC version=1><shapes><rectangle><color red=\"1\"/><geometry cx=\"0.9\"/><geometry x=\"0.3\"/></rectangle></shapes></CS_RMC>";
    let measurement = parse_measurement_from_xml(xml, 0, 0, 0).unwrap();
    assert_eq!(rectangle_of(&measurement.shapes[0]).1, 0.9);
    let xml = "<CS_RMC version=1><shapes><rectangle><color red=\"1\"/><geometry x=\"0.3\"/><geometry cx=\"0.9\"/></rectangle></shapes></CS_RMC>";
    let measurement = parse_measurement_from_xml(xml, 0, 0, 0).unwrap();
    assert_eq!(rectangle_of(&measurement.shapes[0]).1, 0.9);
}

#[test]
fn size_that_is_no_number_is_passed_over() {
    let xml = "<CS_RMC version=1><shapes><rectangle><color red=\"1\"/><geometry cx=\"wide\" x=\"0.4\" cy=\" 0.5\" y=\"\"/></rectangle></shapes></CS_RMC>";
    let measurement = parse_measurement_from_xml(xml, 0, 0, 0).unwrap();
    let (_, width, height) = rectangle_of(&measurement.shapes[0]);
    assert_eq!((width, height), (0.4, 1.0));
}

#[test]
fn color_and_geometry_outside_a_rectangle_are_passed_over() {
    let xml = "<CS_RMC version=1><shapes><color red=\"1\"/><geometry cx=\"0.5\"/></shapes></CS_RMC>";
    let measurement = parse_measurement_from_xml(xml, 4, 5, 6).unwrap();
    assert!(measurement.shapes.is_empty());
    assert_eq!((measurement.red, measurement.green, measurement.blue), (4, 5, 6));
}

#[test]
fn self_closing_rectangle_opens_nothing() {
    let xml = "<CS_RMC version=1><shapes><rectangle/><color red=\"1\"/></shapes></CS_RMC>";
    let measurement = parse_measurement_from_xml(xml, 0, 0, 0).unwrap();
    assert!(measurement.shapes.is_empty());
}

#[test]
fn attribute_values_have_their_references_resolved() {
    let xml = "<CS_RMC version=1><shapes><rectangle><color red=\"&#49;&#x30;\" green='2'/><geometry cx=\"0&#46;5\"/></rectangle></shapes></CS_RMC>";
    let measurement = parse_measurement_from_xml(xml, 0, 0, 0).unwrap();
    let (color, width, _) = rectangle_of(&measurement.shapes[0]);
    assert_eq!((color.red, color.green), (10, 2));
    assert_eq!(width, 0.5);
}

#[test]
fn attribute_that_cannot_be_read_is_passed_over() {
    let xml = "<CS_RMC version=1><shapes><rectangle><color red=5 green=\"6\" blue=\"&bogus;\"/></rectangle></shapes></CS_RMC>";
    let measurement = parse_measurement_from_xml(xml, 0, 0, 0).unwrap();
    assert_eq!(rectangle_of(&measurement.shapes[0]).0, ColorRGB { red: 0, green: 6, blue: 0, depth_bits: 8 });
}

#[test]
fn text_has_its_references_resolved_and_is_trimmed() {
    let xml = "<a><m><result><red> &#32;7&#160; </red><green>+5</green><blue>-1</blue><x>1e5</x><y>.5</y><Y>abc</Y></result></m></a>";
    let measurement = parse_measurement_from_xml(xml, 0, 0, 9).unwrap();
    assert_eq!((measurement.red, measurement.green, measurement.blue), (7, 5, 9));
    assert_eq!(measurement.x.unwrap().as_str(), "1e5");
    assert_eq!(measurement.y.unwrap().as_str(), ".5");
    assert!(measurement.y_lum.is_none());
}

#[test]
fn text_that_cannot_be_resolved_is_passed_over() {
    let xml = "<a><m><result><red>1&bogus;</red><green>2</green></result></m></a>";
    let measurement = parse_measurement_from_xml(xml, 7, 8, 9).unwrap();
    assert_eq!((measurement.red, measurement.green, measurement.blue), (7, 2, 9));
}

#[test]
fn text_outside_a_result_element_is_passed_over() {
    let xml = "<a><m><red>1</red><x>0.5</x><result></result><green>2</green></m></a>";
    let measurement = parse_measurement_from_xml(xml, 7, 8, 9).unwrap();
    assert_eq!((measurement.red, measurement.green, measurement.blue), (7, 8, 9));
    assert!(measurement.x.is_none());
}

#[test]
fn text_counts_for_the_element_opened_last() {
    let xml = "<a><m><result><red>1</red>2<blue/>3</result></m></a>";
    let measurement = parse_measurement_from_xml(xml, 0, 0, 0).unwrap();
    assert_eq!((measurement.red, measurement.green, measurement.blue), (3, 0, 0));
}

#[test]
fn channel_text_beyond_sixteen_bits_leaves_the_fallback() {
    let xml = "<a><m><result><red>65536</red><green>65535</green><blue>300</blue></result></m></a>";
    let measurement = parse_measurement_from_xml(xml, 1, 2, 3).unwrap();
    assert_eq!((measurement.red, measurement.green, measurement.blue), (1, 65535, 300));
}

#[test]
fn comments_declarations_and_cdata_are_passed_over() {
    let xml = "<?xml version=\"1.0\"?><!DOCTYPE a><a><!-- note --><m><result><red><![CDATA[5]]></red><?pi x?><green>6</green></result></m></a>";
    let measurement = parse_measurement_from_xml(xml, 1, 2, 3).unwrap();
    assert_eq!((measurement.red, measurement.green, measurement.blue), (1, 6, 3));
}

#[test]
fn different_commands_in_one_message_are_accepted() {
    let xml = "<CS_RMC version=1><measurement></measurement><shapes></shapes></CS_RMC>";
    assert!(parse_measurement_from_xml(xml, 0, 0, 0).is_ok());
}

#[test]
fn repeated_name_below_a_command_is_no_violation() {
    let xml = "<CS_RMC version=1><shapes><rectangle><color red=\"1\"/></rectangle><rectangle><color red=\"2\"/></rectangle></shapes></CS_RMC>";
    let measurement = parse_measurement_from_xml(xml, 0, 0, 0).unwrap();
    assert_eq!(measurement.shapes.len(), 2);
}

#[test]
fn repeated_command_after_a_finished_shape_is_a_violation() {
    let xml = "<CS_RMC version=1><shapes><rectangle><color red=\"1\"/></rectangle></shapes><shapes>";
    assert_eq!(parse_measurement_from_xml(xml, 0, 0, 0), Err(ParseError::DuplicateCommand));
}

#[test]
fn the_first_violation_is_the_outcome() {
    let xml = "<a><m><rectangle></rectangle></m><m></wrong>";
    assert_eq!(parse_measurement_from_xml(xml, 0, 0, 0), Err(ParseError::IncompleteShape));
    let xml = "<a><m></m><m><rectangle></rectangle>";
    assert_eq!(parse_measurement_from_xml(xml, 0, 0, 0), Err(ParseError::DuplicateCommand));
    let xml = "<a><m></wrong><m>";
    assert_eq!(parse_measurement_from_xml(xml, 0, 0, 0), Err(ParseError::MalformedXml));
}

#[test]
fn empty_text_is_an_empty_measurement() {
    let measurement = parse_measurement_from_xml("", 1, 2, 3).unwrap();
    assert_eq!((measurement.red, measurement.green, measurement.blue), (1, 2, 3));
    assert!(measurement.shapes.is_empty());
    let measurement = parse_measurement_from_xml("   \n ", 1, 2, 3).unwrap();
    assert!(measurement.x.is_none());
}

#[test]
fn unfinished_comment_and_stray_closing_tag_are_malformed() {
    assert_eq!(parse_measurement_from_xml("<a><!-- open", 0, 0, 0), Err(ParseError::MalformedXml));
    assert_eq!(parse_measurement_from_xml("<a><![CDATA[ open", 0, 0, 0), Err(ParseError::MalformedXml));
    assert_eq!(parse_measurement_from_xml("<a><? open", 0, 0, 0), Err(ParseError::MalformedXml));
    assert_eq!(parse_measurement_from_xml("</a>", 0, 0, 0), Err(ParseError::MalformedXml));
    assert_eq!(parse_measurement_from_xml("<a></a></a>", 0, 0, 0), Err(ParseError::MalformedXml));
}

#[test]
fn unfinished_tag_at_the_end_counts_as_opened() {
    assert!(parse_measurement_from_xml("<a><b", 0, 0, 0).is_ok());
    let measurement = parse_measurement_from_xml("<a><m><rectangle><color red=\"5\"", 0, 0, 0).unwrap();
    assert_eq!(measurement.shapes.len(), 1);
    assert_eq!(rectangle_of(&measurement.shapes[0]).0.red, 5);
    assert_eq!(
        parse_measurement_from_xml("<a><m></m><m", 0, 0, 0),
        Err(ParseError::DuplicateCommand)
    );
}

#[test]
fn bare_rectangle_without_color_is_a_violation() {
    let xml = "<rectangle><geometry cx=\"0.5\" cy=\"0.5\"/></rectangle>";
    assert_eq!(parse_measurement_from_xml(xml, 0, 0, 0), Err(ParseError::IncompleteShape));
}

#[test]
fn bare_rectangle_without_geometry_fills_the_display() {
    let xml = "<rectangle><color red=\"100\" green=\"50\" blue=\"25\"/></rectangle>";
    let measurement = parse_measurement_from_xml(xml, 0, 0, 0).unwrap();
    assert_eq!(measurement.shapes.len(), 1);
    let (color, width, height) = rectangle_of(&measurement.shapes[0]);
    assert_eq!(color, ColorRGB { red: 100, green: 50, blue: 25, depth_bits: 8 });
    assert_eq!((width, height), (1.0, 1.0));
}

#[test]
fn repeated_command_does_not_take_the_last_value() {
    let xml = "<CS_RMC version=1><measurement><result><red>1</red></result></measurement><measurement><result><red>2</red></result></measurement></CS_RMC>";
    assert_eq!(parse_measurement_from_xml(xml, 0, 0, 0), Err(ParseError::DuplicateCommand));
}

#[test]
fn self_closing_elements_are_no_commands() {
    let xml = "<CS_RMC version=1><measurement/><measurement/></CS_RMC>";
    assert!(parse_measurement_from_xml(xml, 0, 0, 0).is_ok());
}
