use icalendar::parser::parameters::Parameter;
use icalendar::parser::read_calendar;
use icalendar::parser::read_component;
use icalendar::parser::Component;
use icalendar::parser::ParseString;
use icalendar::parser::Property;

fn prop(name: &str, val: &str, params: Vec<Parameter>) -> Property {
    Property {
        name: ParseString::from_str(name),
        val: ParseString::from_str(val),
        params,
    }
}

#[test]
fn components_parse_empty_component1() {
    assert_eq!(
        read_component("BEGIN:VEVENT\nEND:VEVENT\n").unwrap(),
        Component::new_empty("VEVENT")
    );
}

#[test]
fn components_parse_empty_component2() {
    assert_eq!(
        read_component("BEGIN:VEVENT\n\nEND:VEVENT\n").unwrap(),
        Component::new_empty("VEVENT"),
        "empty component with empty line"
    );
}

#[test]
fn parse_empty_component_with_dash() {
    assert_eq!(
        read_component("BEGIN:X-HOODIE-EVENT\n\nEND:X-HOODIE-EVENT\n").unwrap(),
        Component::new_empty("X-HOODIE-EVENT"),
        "empty component with empty line"
    );
}

#[test]
fn components_parse_component() {
    let sample_1 = "BEGIN:VEVENT\nKEY;foo=bar:VALUE\nKEY;foo=bar;DATE=20170218:VALUE\nEND:VEVENT\n";
    let expectation = Component {
        name: ParseString::from_str("VEVENT"),
        properties: vec![
            prop("KEY", "VALUE", vec![Parameter::new_ref("foo", Some("bar"))]),
            prop(
                "KEY",
                "VALUE",
                vec![
                    Parameter::new_ref("foo", Some("bar")),
                    Parameter::new_ref("DATE", Some("20170218")),
                ],
            ),
        ],
        components: vec![],
    };
    assert_eq!(read_component(sample_1).unwrap(), expectation);
}

#[test]
fn components_test_components() {
    assert_eq!(
        read_component("BEGIN:FOO\nEND:FOO").unwrap(),
        Component::new_empty("FOO")
    );
    assert_eq!(
        read_component("BEGIN:FOO\nFOO-PROP:important: spam €\nEND:FOO").unwrap(),
        Component {
            name: ParseString::from_str("FOO"),
            properties: vec![prop("FOO-PROP", "important: spam €", vec![])],
            components: vec![],
        }
    );
    assert_eq!(
        read_component("BEGIN:FOO\nUID:e1c97b31-38bb-4b72-b94f-463a12ef5239\nFOO-PROP:sp.am\nEND:FOO")
            .unwrap(),
        Component {
            name: ParseString::from_str("FOO"),
            properties: vec![
                prop("UID", "e1c97b31-38bb-4b72-b94f-463a12ef5239", vec![]),
                prop("FOO-PROP", "sp.am", vec![]),
            ],
            components: vec![],
        }
    );
    assert_eq!(
        read_component("BEGIN:FOO\nFOO-PROP:spam\nBEGIN:BAR\nBAR-PROP:spam\nEND:BAR\nEND:FOO")
            .unwrap(),
        Component {
            name: ParseString::from_str("FOO"),
            properties: vec![prop("FOO-PROP", "spam", vec![])],
            components: vec![Component {
                name: ParseString::from_str("BAR"),
                properties: vec![prop("BAR-PROP", "spam", vec![])],
                components: vec![],
            }],
        }
    );
}

#[test]
fn test_nested_components() {
    assert_eq!(
        read_component(
            "BEGIN:FOO\nFOO-PROP:spam\nBEGIN:BAR\nBAR-PROP:spam\nBEGIN:BAR\nBAR-PROP:spam\nEND:BAR\nEND:BAR\nEND:FOO"
        )
        .unwrap(),
        Component {
            name: ParseString::from_str("FOO"),
            properties: vec![Property::new_ref("FOO-PROP", "spam")],
            components: vec![Component {
                name: ParseString::from_str("BAR"),
                properties: vec![Property::new_ref("BAR-PROP", "spam")],
                components: vec![Component {
                    name: ParseString::from_str("BAR"),
                    properties: vec![Property::new_ref("BAR-PROP", "spam")],
                    components: vec![],
                }],
            }],
        }
    );
}

#[test]
fn test_multi_components() {
    let sample = "\nBEGIN:VEVENT\nBEGIN:VALARM\nRELATED-TO;RELTYPE=:c605e4e8-8ea3-4315-b139-19394ab3ced6\nEND:VALARM\nEND:VEVENT\n";
    assert_eq!(
        read_component(sample).unwrap(),
        Component {
            name: ParseString::from_str("VEVENT"),
            properties: vec![],
            components: vec![Component {
                name: ParseString::from_str("VALARM"),
                properties: vec![prop(
                    "RELATED-TO",
                    "c605e4e8-8ea3-4315-b139-19394ab3ced6",
                    vec![Parameter::new_ref("RELTYPE", None)],
                )],
                components: vec![],
            }],
        }
    );
    assert_eq!(
        read_component(
            "BEGIN:FOO\nFOO-PROP:spam\nBEGIN:BAR\nBAR-PROP:spam\nEND:BAR\nBEGIN:BAR\nBAR-PROP:spam\nEND:BAR\nEND:FOO"
        )
        .unwrap(),
        Component {
            name: ParseString::from_str("FOO"),
            properties: vec![Property::new_ref("FOO-PROP", "spam")],
            components: vec![
                Component {
                    name: ParseString::from_str("BAR"),
                    properties: vec![Property::new_ref("BAR-PROP", "spam")],
                    components: vec![],
                },
                Component {
                    name: ParseString::from_str("BAR"),
                    properties: vec![Property::new_ref("BAR-PROP", "spam")],
                    components: vec![],
                },
            ],
        }
    );
}

#[test]
fn components_test_faulty_component() {
    assert!(read_component("BEGIN:FOO\nEND:F0O").is_err());
}

#[test]
fn structural_mismatch_is_fatal() {
    // the closing name must match the opening one; a mismatch can never
    // silently close the block
    assert!(read_calendar("BEGIN:FOO\nEND:BAR").is_err());
    assert!(read_calendar("BEGIN:FOO\nEND:BAR\nEND:FOO").is_err());
}

#[test]
fn unterminated_component_is_fatal() {
    assert!(read_calendar("BEGIN:FOO\nSOME:prop").is_err());
    assert!(read_calendar("BEGIN:").is_err());
}

#[test]
fn trailing_garbage_is_fatal() {
    assert!(read_calendar("BEGIN:FOO\nEND:FOO\n:::").is_err());
}

#[test]
fn test_calendar_from_parse_calendar() {
    let input = "\nBEGIN:VCALENDAR\nVERSION:3.0\nPRODID:MANUAL\nX-CALSCALE:HENDRIKIAN\nEND:VCALENDAR\n";
    let calendar = icalendar::Calendar::parse_from(input).unwrap();
    let count_prop = |name: &str| {
        calendar
            .properties
            .iter()
            .filter(|p| p.key() == name)
            .count()
    };
    assert_eq!(count_prop("VERSION"), 1);
    assert_eq!(count_prop("PRODID"), 1);
    assert_eq!(count_prop("CALSCALE"), 0);
}
