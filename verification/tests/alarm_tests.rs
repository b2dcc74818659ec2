use icalendar::components::alarm::Action;
use icalendar::components::alarm::Repeat;
use icalendar::Alarm;
use icalendar::Calendar;
use icalendar::CalendarComponent;
use icalendar::CalendarDateTime;
use icalendar::DatePerhapsTime;
use icalendar::DateTimeParts;
use icalendar::DeltaSeconds;
use icalendar::Related;
use icalendar::Todo;
use icalendar::Trigger;

const EXPECTED_CAL_CONTENT: &str = "\
BEGIN:VCALENDAR\r
VERSION:2.0\r
PRODID:ICALENDAR-RS\r
CALSCALE:GREGORIAN\r
BEGIN:VTODO\r
DTSTAMP:19980130T134500Z\r
DTSTART:19980130T134500Z\r
DUE:19980415T000000\r
SEQUENCE:2\r
STATUS:NEEDS-ACTION\r
SUMMARY:Submit Income Taxes\r
UID:uid4@example.com\r
BEGIN:VALARM\r
ACTION:AUDIO\r
DTSTAMP:19980130T134500Z\r
DURATION:PT3600S\r
REPEAT:4\r
TRIGGER;VALUE=DATE-TIME:19980403T120000Z\r
UID:OverwriteForConsistency\r
END:VALARM\r
END:VTODO\r
END:VCALENDAR\r
";

#[test]
fn test_alarm_to_string() {
    let mut calendar = Calendar::new();
    let stamp = DateTimeParts { year: 1998, month: 1, day: 30, hour: 13, minute: 45, second: 0 };
    let due = DateTimeParts { year: 1998, month: 4, day: 15, hour: 0, minute: 0, second: 0 };
    let fire = DateTimeParts { year: 1998, month: 4, day: 3, hour: 12, minute: 0, second: 0 };
    let todo = Todo::new()
        .uid("uid4@example.com")
        .add_property("DTSTAMP", "19980130T134500Z")
        .sequence(2)
        .starts(DatePerhapsTime::DateTime(CalendarDateTime::Utc(stamp)))
        .due(DatePerhapsTime::DateTime(CalendarDateTime::Floating(due)))
        .status(icalendar::TodoStatus::NeedsAction)
        .summary("Submit Income Taxes")
        .append_component(
            Alarm::audio(Trigger::from_date_time(CalendarDateTime::Utc(fire)))
                .duration_and_repeat(DeltaSeconds::hours(1), 4)
                .uid("OverwriteForConsistency")
                .add_property("DTSTAMP", "19980130T134500Z")
                .done()
                .into_other(),
        )
        .done();
    calendar.push(CalendarComponent::Todo(todo));
    assert_eq!(calendar.to_string(), EXPECTED_CAL_CONTENT);
    let reparse: Calendar = calendar.to_string().parse().unwrap();
    println!("{:?}", reparse);
}

#[test]
fn test_audio() {
    let alarm = Alarm::audio(Trigger::from_duration_related(
        DeltaSeconds::minutes(15),
        Related::Start,
    ))
    .duration_and_repeat(DeltaSeconds::minutes(5), 3)
    .done();
    assert_eq!(alarm.get_action(), Some(Action::Audio));
    assert_eq!(
        alarm.get_trigger(),
        Some(Trigger::Duration(
            DeltaSeconds::minutes(15),
            Some(Related::Start)
        ))
    );
    assert_eq!(
        alarm.get_trigger().unwrap().as_duration(),
        Some(&DeltaSeconds::minutes(15))
    );
    assert_eq!(alarm.get_trigger().unwrap().related(), Some(Related::Start));
    assert_eq!(alarm.get_repeat(), 3);
}

#[test]
fn test_repeat_default() {
    assert_eq!(
        Repeat::default().to_property().try_into_string(),
        Ok(String::from("REPEAT:0\r\n"))
    );
}

#[test]
fn test_trigger() {
    let prop = Trigger::from_duration(DeltaSeconds::weeks(14)).to_property();
    let out = prop.try_into_string().unwrap();
    assert_eq!(out, "TRIGGER:PT8467200S\r\n");
}

#[test]
fn test_trigger_abs_from_str() {
    let now = CalendarDateTime::Floating(DateTimeParts {
        year: 2022,
        month: 11,
        day: 17,
        hour: 21,
        minute: 32,
        second: 45,
    });
    let alarm_with_abs_trigger = Alarm::new_empty()
        .append_property(Trigger::from_date_time(now.clone()).to_property())
        .done();
    assert_eq!(
        alarm_with_abs_trigger.get_trigger(),
        Some(Trigger::DateTime(now))
    );
}

#[test]
fn test_trigger_abs_from_str_naive() {
    let now = CalendarDateTime::Floating(DateTimeParts {
        year: 2022,
        month: 11,
        day: 17,
        hour: 21,
        minute: 32,
        second: 45,
    });
    let alarm_with_abs_trigger = Alarm::new_empty()
        .append_property(Trigger::from_date_time(now.clone()).to_property())
        .done();
    assert_eq!(
        alarm_with_abs_trigger.get_trigger(),
        Some(Trigger::DateTime(now))
    );
}

#[test]
fn test_trigger_dur_from_str() {
    let dur = DeltaSeconds::minutes(15);
    let alarm_with_rel_trigger = Alarm::new_empty()
        .append_property(Trigger::from_duration(dur).to_property())
        .done();
    assert_eq!(
        alarm_with_rel_trigger.get_trigger(),
        Some(Trigger::Duration(dur, None))
    );
}

#[test]
fn test_trigger_dur_from_str_start() {
    let dur = DeltaSeconds::minutes(15);
    let alarm_with_rel_start_trigger = Alarm::new_empty()
        .append_property(Trigger::from_duration_related(dur, Related::Start).to_property())
        .done();
    assert_eq!(
        alarm_with_rel_start_trigger.get_trigger(),
        Some(Trigger::Duration(dur, Some(Related::Start)))
    );
}

#[test]
fn trigger_dispatch_by_value_parameter() {
    // VALUE=DATE-TIME selects the absolute form
    let abs = icalendar::Property::new("TRIGGER", "20220716T141500Z")
        .add_parameter("VALUE", "DATE-TIME");
    let t = Trigger::from_property(&abs).unwrap();
    assert!(matches!(t, Trigger::DateTime(CalendarDateTime::Utc(_))));

    // RELATED=START with no VALUE parameter is a relative trigger
    let rel = icalendar::Property::new("TRIGGER", "-P15M")
        .add_parameter("RELATED", "START");
    assert_eq!(
        Trigger::from_property(&rel),
        None,
        "a negative duration value is not part of the ISO grammar"
    );
    let rel2 = icalendar::Property::new("TRIGGER", "PT15M").add_parameter("RELATED", "START");
    assert_eq!(
        Trigger::from_property(&rel2),
        Some(Trigger::Duration(DeltaSeconds::minutes(15), Some(Related::Start)))
    );

    // VALUE=DURATION works the same as no VALUE parameter
    let rel3 = icalendar::Property::new("TRIGGER", "PT15M")
        .add_parameter("VALUE", "DURATION")
        .add_parameter("RELATED", "END");
    assert_eq!(
        Trigger::from_property(&rel3),
        Some(Trigger::Duration(DeltaSeconds::minutes(15), Some(Related::End)))
    );
}
