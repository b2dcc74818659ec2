use icalendar::Calendar;
use icalendar::CalendarComponent;
use icalendar::CalendarDateTime;
use icalendar::Class;
use icalendar::DateParts;
use icalendar::DatePerhapsTime;
use icalendar::DateTimeParts;
use icalendar::Event;
use icalendar::EventStatus;

fn dt(year: u16, month: u8, day: u8, hour: u8, minute: u8, second: u8) -> DateTimeParts {
    DateTimeParts { year, month, day, hour, minute, second }
}

#[test]
fn event_get_properties_unset() {
    let event = Event::new();
    assert_eq!(event.get_status(), None);
}

#[test]
fn event_get_properties_set() {
    let event = Event::new().status(EventStatus::Tentative).done();
    assert_eq!(event.get_status(), Some(EventStatus::Tentative));
}

#[test]
fn components_get_properties_unset() {
    let event = Event::new();
    assert_eq!(event.get_priority(), None);
    assert_eq!(event.get_summary(), None);
    assert_eq!(event.get_description(), None);
    assert_eq!(event.get_location(), None);
    assert_eq!(event.get_uid(), None);
    assert_eq!(event.get_class(), None);
    assert_eq!(event.get_timestamp(), None);
    assert_eq!(event.get_url(), None);
}

#[test]
fn components_get_properties_set() {
    let event = Event::new()
        .priority(5)
        .summary("summary")
        .description("description")
        .location("location")
        .uid("uid")
        .class(Class::Private)
        .url("http://some.test/url")
        .done();
    assert_eq!(event.get_priority(), Some(5));
    assert_eq!(event.get_summary(), Some("summary"));
    assert_eq!(event.get_description(), Some("description"));
    assert_eq!(event.get_location(), Some("location"));
    assert_eq!(event.get_uid(), Some("uid"));
    assert_eq!(event.get_class(), Some(Class::Private));
    assert_eq!(event.get_url(), Some("http://some.test/url"));
}

#[test]
fn components_get_date_times_naive() {
    let naive_date_time = dt(2001, 3, 13, 14, 15, 16);
    let value = DatePerhapsTime::DateTime(CalendarDateTime::Floating(naive_date_time));
    let event = Event::new().starts(value.clone()).ends(value.clone()).done();
    assert_eq!(event.get_start(), Some(value.clone()));
    assert_eq!(event.get_end(), Some(value));
}

#[test]
fn components_get_date_times_utc() {
    let utc_date_time = dt(2001, 3, 13, 14, 15, 16);
    let value = DatePerhapsTime::DateTime(CalendarDateTime::Utc(utc_date_time));
    let event = Event::new()
        .timestamp(utc_date_time)
        .starts(value.clone())
        .ends(value.clone())
        .done();
    assert_eq!(event.get_timestamp(), Some(utc_date_time));
    assert_eq!(event.get_start(), Some(value.clone()));
    assert_eq!(event.get_end(), Some(value));
}

#[test]
fn get_date_times_tzid() {
    let date_time = dt(2001, 3, 13, 14, 15, 16);
    let date_time_tzid = CalendarDateTime::WithTimezone {
        date_time,
        tzid: "Pacific/Auckland".to_string(),
    };
    let value = DatePerhapsTime::DateTime(date_time_tzid);
    let event = Event::new().starts(value.clone()).ends(value.clone()).done();
    assert_eq!(event.get_start(), Some(value.clone()));
    assert_eq!(event.get_end(), Some(value));
}

#[test]
fn components_get_dates_naive() {
    let naive_date = DateParts { year: 2001, month: 3, day: 13 };
    let value = DatePerhapsTime::Date(naive_date);
    let event = Event::new().starts(value.clone()).ends(value.clone()).done();
    assert_eq!(event.get_start(), Some(value.clone()));
    assert_eq!(event.get_end(), Some(value));
}

#[test]
fn get_url() {
    let url = "http://hoodie.de/";
    let event = Event::new().url(url).uid("u1").timestamp(dt(2001, 3, 13, 14, 15, 16)).done();
    let serialized = event.to_string();
    let reparsed: CalendarComponent = serialized.parse().unwrap();
    assert_eq!(event.get_url(), Some(url));
    assert_eq!(reparsed.as_event().unwrap().get_url(), Some(url));
}

#[test]
fn multi_value_preservation() {
    // three repeatable values, two of them equal, keep their count and
    // their order on the wire
    let event = Event::new()
        .uid("m1")
        .add_property("DTSTAMP", "20190307T181159Z")
        .add_multi_property("CATEGORIES", "A")
        .add_multi_property("CATEGORIES", "A")
        .add_multi_property("CATEGORIES", "D")
        .done();
    let mut calendar = Calendar::new();
    calendar.push(CalendarComponent::Event(event));
    let text = calendar.to_string();
    let lines: Vec<&str> = text
        .lines()
        .filter(|l| l.starts_with("CATEGORIES:"))
        .collect();
    assert_eq!(lines, vec!["CATEGORIES:A", "CATEGORIES:A", "CATEGORIES:D"]);

    let reparsed: Calendar = text.parse().unwrap();
    let again = reparsed.to_string();
    let lines2: Vec<&str> = again
        .lines()
        .filter(|l| l.starts_with("CATEGORIES:"))
        .collect();
    assert_eq!(lines2, vec!["CATEGORIES:A", "CATEGORIES:A", "CATEGORIES:D"]);
}
