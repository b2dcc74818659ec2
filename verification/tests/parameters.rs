use icalendar::parser::parameters::parse_parameter;
use icalendar::parser::parameters::parse_parameter_list;
use icalendar::parser::Parameter;

fn parsed(input: &str) -> Parameter {
    let (p, used) = parse_parameter(input).unwrap();
    assert_eq!(used, input.chars().count(), "not parsed completely");
    p
}

#[test]
fn parameters_test_parameter() {
    assert_eq!(parsed(";KEY=VALUE"), Parameter::new_ref("KEY", Some("VALUE")));
    assert_eq!(parsed("; KEY=VALUE"), Parameter::new_ref("KEY", Some("VALUE")));
    assert_eq!(parsed("; KEY=VAL UE"), Parameter::new_ref("KEY", Some("VAL UE")));
    assert_eq!(parsed("; KEY="), Parameter::new_ref("KEY", None));
    assert_eq!(parsed(";KEY=VAL-UE"), Parameter::new_ref("KEY", Some("VAL-UE")));
    assert_eq!(parsed(";KEY"), Parameter::new_ref("KEY", None));
    assert_eq!(
        parsed(";email=rust@hoodie.de"),
        Parameter::new_ref("email", Some("rust@hoodie.de"))
    );
}

#[test]
fn test_parameter_with_dash() {
    assert_eq!(
        parsed(";X-HOODIE-KEY=VALUE"),
        Parameter::new_ref("X-HOODIE-KEY", Some("VALUE"))
    );
}

#[test]
fn test_quirky_parameter() {
    assert_eq!(parsed(";KEY="), Parameter::new_ref("KEY", None));
}

fn parsed_list(input: &str) -> Vec<Parameter> {
    let (ps, used) = parse_parameter_list(input);
    assert_eq!(used, input.chars().count(), "not parsed completely");
    ps
}

#[test]
fn parameters_parse_parameter_list() {
    assert_eq!(
        parsed_list(";KEY=VALUE"),
        vec![Parameter::new_ref("KEY", Some("VALUE"))]
    );
    assert_eq!(
        parsed_list(";KEY=VALUE;DATE=TODAY"),
        vec![
            Parameter::new_ref("KEY", Some("VALUE")),
            Parameter::new_ref("DATE", Some("TODAY")),
        ]
    );
    assert_eq!(
        parsed_list(";KEY=VALUE;DATE=20170218"),
        vec![
            Parameter::new_ref("KEY", Some("VALUE")),
            Parameter::new_ref("DATE", Some("20170218")),
        ]
    );
    assert_eq!(
        parsed_list(";TEXT=\"quoted text with \\;\""),
        vec![Parameter::new_ref("TEXT", Some("quoted text with \\;"))]
    );
}
