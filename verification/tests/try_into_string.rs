use icalendar::Calendar;
use icalendar::CalendarComponent;
use icalendar::DateParts;
use icalendar::DatePerhapsTime;
use icalendar::Event;

#[test]
fn try_into_string() -> Result<(), String> {
    let bday = Event::new()
        .starts(DatePerhapsTime::Date(DateParts { year: 2016, month: 3, day: 15 }))
        .ends(DatePerhapsTime::Date(DateParts { year: 2016, month: 3, day: 15 }))
        .summary("My Birthday")
        .description("Hey, I'm gonna have a party\nBYOB: Bring your own beer.\nHendrik")
        .done();
    let mut calendar = Calendar::new();
    calendar.push(CalendarComponent::Event(bday));
    let s1: String = calendar.try_into_string()?;
    let s2: String = calendar.to_string();
    println!("{:?}", (s1, s2));
    Ok(())
}
