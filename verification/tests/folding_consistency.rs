use icalendar::Calendar;
use icalendar::CalendarComponent;
use icalendar::CalendarDateTime;
use icalendar::Class;
use icalendar::DatePerhapsTime;
use icalendar::DateTimeParts;
use icalendar::Event;

const LONG_DESCRIPTION: &str = "Lorem ipsum dolor sit amet, consetetur sadipscing elitr, sed diam nonumy eirmod tempor invidunt ut labore et dolore magna aliquyam erat, sed diam voluptua. At vero eos et accusam et justo duo dolores et ea rebum. Stet clita kasd gubergren, no sea takimata sanctus est Lorem ipsum dolor sit amet. Duis autem vel eum iriure dolor in hendrerit in vulputate velit esse molestie consequat, vel illum dolore eu feugiat nulla facilisis at vero eros et accumsan.";

fn dt(year: u16, month: u8, day: u8, hour: u8, minute: u8, second: u8) -> DateTimeParts {
    DateTimeParts { year, month, day, hour, minute, second }
}

#[test]
fn test_folding_consistency() {
    let parsed_0 = {
        let mut c = Calendar::new();
        c.push(CalendarComponent::Event(
            Event::new()
                .summary("test event")
                .description(LONG_DESCRIPTION)
                .timestamp(dt(2023, 5, 2, 8, 0, 0))
                .uid("1234")
                .starts(DatePerhapsTime::DateTime(CalendarDateTime::Utc(dt(2023, 5, 2, 9, 0, 0))))
                .class(Class::Confidential)
                .ends(DatePerhapsTime::DateTime(CalendarDateTime::Utc(dt(2023, 5, 3, 9, 0, 0))))
                .done(),
        ));
        c.done()
    };
    let serialized_1 = parsed_0.to_string();

    let parsed_1: Calendar = serialized_1.parse().unwrap();
    assert_eq!(parsed_0, parsed_1);

    let serialized_2 = parsed_1.to_string();
    let parsed_2: Calendar = serialized_2.parse().unwrap();
    let serialized_3 = parsed_2.to_string();
    let parsed_3: Calendar = serialized_3.parse().unwrap();
    let serialized_4 = parsed_3.to_string();

    assert_eq!(parsed_1, parsed_2);
    assert_eq!(parsed_2, parsed_3);
    assert_eq!(serialized_1, serialized_2);
    assert_eq!(serialized_2, serialized_3);
    assert_eq!(serialized_3, serialized_4);
}
