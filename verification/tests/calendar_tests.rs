use icalendar::Calendar;
use icalendar::CalendarComponent;
use icalendar::CalendarDateTime;
use icalendar::Class;
use icalendar::DateParts;
use icalendar::DatePerhapsTime;
use icalendar::DateTimeParts;
use icalendar::Event;
use icalendar::EventStatus;
use icalendar::Property;
use icalendar::Todo;
use icalendar::TodoStatus;

const EXPECTED_CAL_CONTENT: &str = "\
BEGIN:VCALENDAR\r
VERSION:2.0\r
PRODID:ICALENDAR-RS\r
CALSCALE:GREGORIAN\r
BEGIN:VEVENT\r
CLASS:CONFIDENTIAL\r
DESCRIPTION:Description\r
DTEND:20140709T091011Z\r
DTSTAMP:20190307T181159\r
DTSTART:20140708T071011Z\r
LOCATION:Somewhere\r
PRIORITY:10\r
STATUS:TENTATIVE\r
SUMMARY:summary\r
UID:euid\r
END:VEVENT\r
BEGIN:VTODO\r
COMPLETED:20140709T091011Z\r
DTSTAMP:20190307T181159\r
DUE:20140708T091011\r
PERCENT-COMPLETE:95\r
SUMMARY:A Todo\r
UID:todouid\r
END:VTODO\r
END:VCALENDAR\r
";

fn dt(year: u16, month: u8, day: u8, hour: u8, minute: u8, second: u8) -> DateTimeParts {
    DateTimeParts { year, month, day, hour, minute, second }
}

#[test]
fn test_calendar_to_string() {
    let mut calendar = Calendar::new();
    // 2014-07-08 09:10:11 at +02:00 is 07:10:11 in UTC
    let cest_in_utc = dt(2014, 7, 8, 7, 10, 11);
    let cest_local = dt(2014, 7, 8, 9, 10, 11);
    let utc_date = dt(2014, 7, 9, 9, 10, 11);
    let event = Event::new()
        .status(EventStatus::Tentative)
        .starts(DatePerhapsTime::DateTime(CalendarDateTime::Utc(cest_in_utc)))
        .ends(DatePerhapsTime::DateTime(CalendarDateTime::Utc(utc_date)))
        .priority(11)  // converted to 10
        .summary("summary")
        .description("Description")
        .location("Somewhere")
        .uid("euid")
        .class(Class::Confidential)
        .add_property("DTSTAMP", "20190307T181159")
        .done();
    calendar.push(CalendarComponent::Event(event));
    let todo = Todo::new()
        .percent_complete(95)
        .due(DatePerhapsTime::DateTime(CalendarDateTime::Floating(cest_local)))
        .completed(utc_date)
        .summary("A Todo")
        .uid("todouid")
        .add_property("DTSTAMP", "20190307T181159")
        .done();
    calendar.push(CalendarComponent::Todo(todo));
    assert_eq!(calendar.to_string(), EXPECTED_CAL_CONTENT);
}

#[test]
fn test_build_calendar() {
    let event = Event::new()
        .summary("test event")
        .description("here I have something really important to do")
        .starts(DatePerhapsTime::DateTime(CalendarDateTime::Utc(dt(2023, 3, 14, 9, 0, 0))))
        .class(Class::Confidential)
        .ends(DatePerhapsTime::DateTime(CalendarDateTime::Utc(dt(2023, 3, 15, 9, 0, 0))))
        .append_property(
            Property::new("TEST", "FOOBAR")
                .add_parameter("IMPORTANCE", "very")
                .add_parameter("DUE", "tomorrow"),
        )
        .done();
    let bday = Event::new()
        .all_day(DateParts { year: 2023, month: 3, day: 15 })
        .summary("My Birthday")
        .description("Hey, I'm gonna have a party\nBYOB: Bring your own beer.\nHendrik")
        .done();
    let todo = Todo::new().summary("Buy some milk").done();
    let mut calendar = Calendar::new();
    calendar.push(CalendarComponent::Event(event));
    calendar.push(CalendarComponent::Todo(todo));
    calendar.push(CalendarComponent::Event(bday));
}

#[test]
fn from_adds_default_properties() {
    let cal = Calendar::new();
    assert!(cal.property_value("VERSION").is_some());
    assert!(cal.property_value("CALSCALE").is_some());
    assert!(cal.property_value("PRODID").is_some());
}

#[test]
fn calendar_get_properties_unset() {
    let calendar = Calendar::new();
    assert_eq!(calendar.get_name(), None);
    assert_eq!(calendar.get_description(), None);
    assert_eq!(calendar.get_timezone(), None);
}

#[test]
fn calendar_get_properties_set() {
    let mut calendar = Calendar::new();
    calendar.name("name");
    calendar.description("description");
    calendar.timezone("timezone");
    let calendar = calendar.done();
    assert_eq!(calendar.get_name(), Some("name"));
    assert_eq!(calendar.get_description(), Some("description"));
    assert_eq!(calendar.get_timezone(), Some("timezone"));
}

#[test]
fn get_properties_alternate() {
    let mut calendar = Calendar::new();
    calendar.append_property(Property::new("X-WR-CALNAME", "name"));
    calendar.append_property(Property::new("X-WR-CALDESC", "description"));
    calendar.append_property(Property::new("X-WR-TIMEZONE", "timezone"));
    let calendar = calendar.done();
    assert_eq!(calendar.get_name(), Some("name"));
    assert_eq!(calendar.get_description(), Some("description"));
    assert_eq!(calendar.get_timezone(), Some("timezone"));
}

#[test]
fn calendar_extend_components() {
    let mut calendar = Calendar::new();
    let components = vec![
        CalendarComponent::Event(Event::new()),
        CalendarComponent::Event(Event::new()),
    ];
    for c in components {
        calendar.push(c);
    }
    assert_eq!(calendar.components.len(), 2);
}

#[test]
fn calendar_extend_events() {
    let mut calendar = Calendar::new();
    let events = vec![Event::new(), Event::new()];
    for e in events {
        calendar.push(CalendarComponent::Event(e));
    }
    assert_eq!(calendar.components.len(), 2);
}

#[test]
fn emit_parse_icalendar() {
    let mut original = Calendar::new();
    original.append_property(Property::new("FOOBAR", "foobar"));
    let emitted = original.to_string();
    let parsed: Calendar = emitted.parse().unwrap();
    assert_eq!(parsed.property_value("FOOBAR"), Some("foobar"));
}
