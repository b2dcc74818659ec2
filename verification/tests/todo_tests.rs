use icalendar::CalendarDateTime;
use icalendar::DateParts;
use icalendar::DatePerhapsTime;
use icalendar::DateTimeParts;
use icalendar::Todo;
use icalendar::TodoStatus;

fn dt(year: u16, month: u8, day: u8, hour: u8, minute: u8, second: u8) -> DateTimeParts {
    DateTimeParts { year, month, day, hour, minute, second }
}

#[test]
fn todo_get_properties_unset() {
    let todo = Todo::new();
    assert_eq!(todo.get_percent_complete(), None);
    assert_eq!(todo.get_status(), None);
    assert_eq!(todo.get_completed(), None);
    assert_eq!(todo.get_due(), None);
}

#[test]
fn todo_get_properties_set() {
    let completed = dt(2001, 3, 13, 14, 15, 16);
    let todo = Todo::new()
        .percent_complete(42)
        .status(TodoStatus::NeedsAction)
        .completed(completed)
        .done();
    assert_eq!(todo.get_percent_complete(), Some(42));
    assert_eq!(todo.get_status(), Some(TodoStatus::NeedsAction));
    assert_eq!(todo.get_completed(), Some(completed));
}

#[test]
fn todo_get_date_times_naive() {
    let naive_date_time = dt(2001, 3, 13, 14, 15, 16);
    let value = DatePerhapsTime::DateTime(CalendarDateTime::Floating(naive_date_time));
    let todo = Todo::new().due(value.clone()).done();
    assert_eq!(todo.get_due(), Some(value));
}

#[test]
fn todo_get_date_times_utc() {
    let utc_date_time = dt(2001, 3, 13, 14, 15, 16);
    let value = DatePerhapsTime::DateTime(CalendarDateTime::Utc(utc_date_time));
    let todo = Todo::new().due(value.clone()).completed(utc_date_time).done();
    assert_eq!(todo.get_due(), Some(value));
    assert_eq!(todo.get_completed(), Some(utc_date_time));
}

#[test]
fn todo_get_dates_naive() {
    let naive_date = DateParts { year: 2001, month: 3, day: 13 };
    let value = DatePerhapsTime::Date(naive_date);
    let todo = Todo::new().due(value.clone()).done();
    assert_eq!(todo.get_due(), Some(value));
}
