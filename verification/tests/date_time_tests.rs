use icalendar::parser::Parameter;
use icalendar::parser::ParseString;
use icalendar::parser::Property;
use icalendar::CalendarDateTime;
use icalendar::DateParts;
use icalendar::DatePerhapsTime;
use icalendar::DateTimeParts;

fn dt(year: u16, month: u8, day: u8, hour: u8, minute: u8, second: u8) -> DateTimeParts {
    DateTimeParts { year, month, day, hour, minute, second }
}

fn parser_prop(name: &str, val: &str, params: Vec<Parameter>) -> Property {
    Property {
        name: ParseString::from_str(name),
        val: ParseString::from_str(val),
        params,
    }
}

#[test]
fn try_from_utc_dt() {
    let prop = parser_prop(
        "TRIGGER",
        "20220716T141500Z",
        vec![Parameter::new_ref("VALUE", Some("DATE-TIME"))],
    );
    let result = DatePerhapsTime::from_parser_property(&prop);
    let expected = dt(2022, 7, 16, 14, 15, 0);
    assert_eq!(
        result,
        Ok(DatePerhapsTime::DateTime(CalendarDateTime::Utc(expected)))
    );
}

#[test]
fn try_from_naive_date() {
    let prop = parser_prop(
        "TRIGGER",
        "19970714",
        vec![Parameter::new_ref("VALUE", Some("DATE-TIME"))],
    );
    let result = DatePerhapsTime::from_parser_property(&prop);
    let expected = DateParts { year: 1997, month: 7, day: 14 };
    assert_eq!(result, Ok(DatePerhapsTime::Date(expected)));
}

#[test]
fn try_from_dt_with_tz() {
    let prop = parser_prop(
        "TRIGGER",
        "20220716T141500",
        vec![
            Parameter::new_ref("VALUE", Some("DATE-TIME")),
            Parameter::new_ref("TZID", Some("MY-TZ-ID")),
        ],
    );
    let result = DatePerhapsTime::from_parser_property(&prop);
    let expected = dt(2022, 7, 16, 14, 15, 0);
    assert_eq!(
        result,
        Ok(DatePerhapsTime::DateTime(CalendarDateTime::WithTimezone {
            date_time: expected,
            tzid: "MY-TZ-ID".to_owned(),
        }))
    );
}

#[test]
fn try_from_dt_with_empty_tz() {
    let prop = parser_prop(
        "TRIGGER",
        "20220716T141500",
        vec![
            Parameter::new_ref("VALUE", Some("DATE-TIME")),
            Parameter::new_ref("TZID", None),
        ],
    );
    let result = DatePerhapsTime::from_parser_property(&prop);
    assert_eq!(result, Err("Found empty TZID param."));
}

#[test]
fn try_from_floating_dt() {
    let prop = parser_prop(
        "TRIGGER",
        "20220716T141500",
        vec![Parameter::new_ref("VALUE", Some("DATE-TIME"))],
    );
    let result = DatePerhapsTime::from_parser_property(&prop);
    let expected = dt(2022, 7, 16, 14, 15, 0);
    assert_eq!(
        result,
        Ok(DatePerhapsTime::DateTime(CalendarDateTime::Floating(expected)))
    );
}

#[test]
fn try_from_non_dt_prop() {
    let prop = parser_prop("TZNAME", "CET", vec![]);
    let result = DatePerhapsTime::from_parser_property(&prop);
    assert_eq!(result, Err("Value does not look like a known DATE-TIME"));
}

#[test]
fn date_codec_validates_the_calendar() {
    assert!(icalendar::date_time::parse_date("20230229").is_none());
    assert!(icalendar::date_time::parse_date("20240229").is_some());
    assert!(icalendar::date_time::parse_date("20231301").is_none());
    assert!(icalendar::date_time::parse_date("20231100").is_none());
    assert!(icalendar::date_time::parse_date("2023110").is_none());
    assert_eq!(
        icalendar::date_time::parse_date("20231130"),
        Some(DateParts { year: 2023, month: 11, day: 30 })
    );
    assert_eq!(
        icalendar::date_time::format_date(&DateParts { year: 199, month: 7, day: 1 }),
        "01990701"
    );
}

#[test]
fn utc_forms_need_the_suffix() {
    assert!(icalendar::date_time::parse_utc_date_time("20220716T141500").is_none());
    assert!(icalendar::date_time::parse_naive_date_time("20220716T141500Z").is_none());
    assert_eq!(
        icalendar::date_time::parse_utc_date_time("20220716T141500Z"),
        Some(dt(2022, 7, 16, 14, 15, 0))
    );
    assert!(icalendar::date_time::parse_naive_date_time("20220716X141500").is_none());
    assert!(icalendar::date_time::parse_naive_date_time("20220716T146000").is_none());
}
