use icalendar::Property;
use icalendar::ValueType;

#[test]
fn value_type_by_name_registry() {
    assert_eq!(ValueType::by_name("DTSTART"), Some(ValueType::DateTime));
    assert_eq!(ValueType::by_name("SUMMARY"), Some(ValueType::Text));
    assert_eq!(ValueType::by_name("GEO"), Some(ValueType::Float));
    assert_eq!(ValueType::by_name("PRIORITY"), Some(ValueType::Integer));
    assert_eq!(ValueType::by_name("DURATION"), Some(ValueType::Duration));
    assert_eq!(ValueType::by_name("FREEBUSY"), Some(ValueType::Period));
    assert_eq!(ValueType::by_name("TZOFFSETTO"), Some(ValueType::UtcOffset));
    assert_eq!(ValueType::by_name("URL"), Some(ValueType::Uri));
    assert_eq!(ValueType::by_name("ATTENDEE"), Some(ValueType::CalAddress));
    assert_eq!(ValueType::by_name("RRULE"), Some(ValueType::Recur));
    // names with lower-case letters are refused
    assert_eq!(ValueType::by_name("dtstart"), None);
    assert_eq!(ValueType::by_name("Summary"), None);
    // unknown names have no registered type
    assert_eq!(ValueType::by_name("X-SOMETHING"), None);
}

#[test]
fn value_type_from_value_parameter() {
    let p = Property::new("DTSTART", "19970714").add_parameter("VALUE", "DATE");
    assert_eq!(p.value_type(), Some(ValueType::Date));
    let q = Property::new("DTSTART", "19970714").add_parameter("VALUE", "NONSENSE");
    assert_eq!(q.value_type(), None);
    let bare = Property::new("DTSTART", "19970714");
    assert_eq!(bare.value_type(), None);
    assert_eq!(ValueType::from_str("UTC-OFFSET"), Some(ValueType::UtcOffset));
    assert_eq!(ValueType::from_str("utc-offset"), None);
}
