use icalendar::parser::parameters::Parameter;
use icalendar::parser::properties::parse_property_prefix;
use icalendar::parser::ParseString;
use icalendar::parser::Property;

fn parsed(input: &str) -> Property {
    let (p, used) = parse_property_prefix(input).unwrap();
    assert_eq!(used, input.chars().count(), "not parsed completely");
    p
}

fn prop(name: &str, val: &str, params: Vec<Parameter>) -> Property {
    Property {
        name: ParseString::from_str(name),
        val: ParseString::from_str(val),
        params,
    }
}

#[test]
fn properties_test_property() {
    assert_eq!(parsed("KEY:VALUE\n"), prop("KEY", "VALUE", vec![]));
    assert_eq!(
        parsed("KEY1;foo=bar:VALUE\n"),
        prop("KEY1", "VALUE", vec![Parameter::new_ref("foo", Some("bar"))])
    );
    assert_eq!(
        parsed("KEY2;foo=bar:VALUE space separated\n"),
        prop("KEY2", "VALUE space separated", vec![Parameter::new_ref("foo", Some("bar"))])
    );
    assert_eq!(
        parsed("KEY2;foo=bar:important:VALUE\n"),
        prop("KEY2", "important:VALUE", vec![Parameter::new_ref("foo", Some("bar"))])
    );
    assert_eq!(
        parsed("KEY3;foo=bar:VALUE\\n newline separated\n"),
        prop(
            "KEY3",
            "VALUE\\n newline separated",
            vec![Parameter::new_ref("foo", Some("bar"))]
        )
    );
}

#[test]
fn test_property_with_dash() {
    assert_eq!(parsed("X-HOODIE-KEY:VALUE\n"), prop("X-HOODIE-KEY", "VALUE", vec![]));
}

#[test]
fn properties_parse_properties_from_rfc() {
    assert_eq!(
        parsed("home.tel;type=fax,voice,msg:+49 3581 123456\n"),
        prop(
            "home.tel",
            "+49 3581 123456",
            vec![Parameter::new_ref("type", Some("fax,voice,msg"))]
        )
    );
    assert_eq!(
        parsed("email;internet:mb@goerlitz.de\n"),
        prop("email", "mb@goerlitz.de", vec![Parameter::new_ref("internet", None)])
    );
}

#[test]
fn properties_parse_property_with_breaks() {
    let sample_0 =
        "DESCRIPTION:Hey, I'm gonna have a party\\n BYOB: Bring your own beer.\\n Hendrik\\n\n";
    let expectation = prop(
        "DESCRIPTION",
        "Hey, I'm gonna have a party\\n BYOB: Bring your own beer.\\n Hendrik\\n",
        vec![],
    );
    assert_eq!(parsed(sample_0), expectation);
}

#[test]
fn parse_invalid_property() {
    let sample_0 = "END;RELTYPE=:c605e4e8-8ea3-4315-b139-19394ab3ced6\n";
    assert!(parse_property_prefix(sample_0).is_none());
}

#[test]
fn parse_property_with_colon() {
    let sample_0 = "RELATED-TO;RELTYPE=:c605e4e8-8ea3-4315-b139-19394ab3ced6\n";
    let expectation = prop(
        "RELATED-TO",
        "c605e4e8-8ea3-4315-b139-19394ab3ced6",
        vec![Parameter::new_ref("RELTYPE", None)],
    );
    assert_eq!(parsed(sample_0), expectation);
}

#[test]
fn parse_property_with_no_value() {
    let sample_0 = "X-NO-VALUE";
    let expectation = prop("X-NO-VALUE", "", vec![]);
    assert_eq!(parsed(sample_0), expectation);
}
