use icalendar::Calendar;
use icalendar::CalendarComponent;
use icalendar::CalendarDateTime;
use icalendar::Class;
use icalendar::DatePerhapsTime;
use icalendar::DateTimeParts;
use icalendar::Event;
use icalendar::Property;
use icalendar::Todo;

fn get_summary(calendar: &Calendar) -> &str {
    calendar.components[0]
        .as_event()
        .unwrap()
        .get_summary()
        .unwrap()
}

fn get_description(calendar: &Calendar) -> &str {
    calendar.components[0]
        .as_event()
        .unwrap()
        .get_description()
        .unwrap()
}

fn dt(year: u16, month: u8, day: u8, hour: u8, minute: u8, second: u8) -> DateTimeParts {
    DateTimeParts { year, month, day, hour, minute, second }
}

fn init_test_event() -> (&'static str, &'static str, Calendar) {
    let summary = ";IMPORTANCE=very;test event";
    let description = "this, contains: many escapeworthy->\n<-;characters";
    let event = Event::new()
        .summary(summary)
        .description(description)
        .starts(DatePerhapsTime::DateTime(CalendarDateTime::Utc(dt(2023, 5, 2, 8, 0, 0))))
        .class(Class::Confidential)
        .ends(DatePerhapsTime::DateTime(CalendarDateTime::Utc(dt(2023, 5, 3, 8, 0, 0))))
        .append_property(
            Property::new("TEST", "FOOBAR")
                .add_parameter("IMPORTANCE", "very")
                .add_parameter("COMPLEX", "this is code; I think")
                .add_parameter("keyval", "color:red"),
        )
        .uid("my.own.id")
        .done();
    let todo = Todo::new().summary("Buy some: milk").done();
    let mut built_calendar = Calendar::new();
    built_calendar.push(CalendarComponent::Event(event));
    built_calendar.push(CalendarComponent::Todo(todo));
    (summary, description, built_calendar)
}

// the constructors pre-escape raw line feeds, so this is the stored and
// wire form of the description built in init_test_event
const STORED_DESCRIPTION: &str = "this, contains: many escapeworthy->\\n<-;characters";

#[test]
fn escape_late() {
    let (summary, _description, built_calendar) = init_test_event();
    let serialized = built_calendar.to_string();
    println!("serialized: {}", &serialized);
    let from_parsed: Calendar = serialized.parse().unwrap();
    println!("parsed again: {:?}", from_parsed);
    // values keep their bytes apart from the line-feed pre-escaping
    assert_eq!(get_summary(&built_calendar), summary);
    assert_eq!(get_description(&built_calendar), STORED_DESCRIPTION);
}

#[test]
fn unescape_text() {
    let (summary, description, built_calendar) = init_test_event();
    let serialized = built_calendar.to_string();
    let from_parsed: Calendar = serialized.parse().unwrap();
    assert_eq!(get_summary(&from_parsed), summary);
    // the parsed value keeps the wire bytes; decoding the escapes is the
    // caller's opt-in step and restores the raw text
    assert_eq!(get_description(&from_parsed), STORED_DESCRIPTION);
    let decoded = icalendar::parser::ParseString::from_str(get_description(&from_parsed))
        .unescape_text();
    assert_eq!(decoded.as_str(), description);
}

#[test]
fn reparse_equivalence() {
    let (_summary, _description, built_calendar) = init_test_event();
    let serialized = built_calendar.to_string();
    let from_parsed: Calendar = serialized.parse().unwrap();
    assert_eq!(get_summary(&built_calendar), get_summary(&from_parsed));
}

#[test]
fn serializes_correctly() {
    // with explicit UID and DTSTAMP on every component, parsing the
    // serialized calendar restores it exactly
    let event = Event::new()
        .summary("party")
        .description("a\nmultiline\ndescription")
        .uid("fixed-uid-1")
        .add_property("DTSTAMP", "20230502T080000Z")
        .starts(DatePerhapsTime::DateTime(CalendarDateTime::Utc(dt(2023, 5, 2, 8, 0, 0))))
        .done();
    let todo = Todo::new()
        .summary("Buy some milk")
        .uid("fixed-uid-2")
        .add_property("DTSTAMP", "20230502T080000Z")
        .done();
    let mut built = Calendar::new();
    built.push(CalendarComponent::Event(event));
    built.push(CalendarComponent::Todo(todo));
    let built = built.done();

    let serialized = built.to_string();
    let reparsed: Calendar = serialized.parse().unwrap();
    assert_eq!(built, reparsed);

    // a calendar missing them stabilizes after one synthesis pass
    let mut sparse = Calendar::new();
    sparse.push(CalendarComponent::Event(Event::new().summary("bare").done()));
    let pass1: Calendar = sparse.to_string().parse().unwrap();
    let pass2: Calendar = pass1.to_string().parse().unwrap();
    assert_eq!(pass1, pass2);
    assert_eq!(pass1.to_string(), pass2.to_string());
}

#[test]
fn mismatch_rejection() {
    // a mismatched END is a structural error, never a silently closed block
    assert!("BEGIN:FOO\nEND:BAR".parse::<Calendar>().is_err());
    assert!("BEGIN:FOO\nX:y\nEND:BAR\n".parse::<Calendar>().is_err());
}

#[test]
fn constructor_pre_escapes_line_feeds() {
    let p = Property::new("DESCRIPTION", "a\nb");
    assert_eq!(p.value(), "a\\nb");
    assert_eq!(p.key(), "DESCRIPTION");
    // values without line feeds are stored byte for byte
    let q = Property::new("SUMMARY", "semi;colon:comma,slash\\n");
    assert_eq!(q.value(), "semi;colon:comma,slash\\n");
}

#[test]
fn escaped_text_survives_the_typed_layer() {
    // a parsed escape sequence is an uninterpreted byte pair: one category
    // holding a comma must not come back as two categories
    let input = "BEGIN:VCALENDAR\nBEGIN:VEVENT\nUID:u\nDTSTAMP:20230502T080000Z\nCATEGORIES:a\\,b\nEND:VEVENT\nEND:VCALENDAR\n";
    let cal: Calendar = input.parse().unwrap();
    let out = cal.to_string();
    let lines: Vec<&str> = out
        .lines()
        .filter(|l| l.starts_with("CATEGORIES:"))
        .collect();
    assert_eq!(lines, vec!["CATEGORIES:a\\,b"]);
    let again: Calendar = out.parse().unwrap();
    assert_eq!(cal, again);
}
