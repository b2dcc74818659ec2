use icalendar::Venue;

#[test]
fn venue_get_properties_unset() {
    let venue = Venue::new();
    assert_eq!(venue.get_street_address(), None);
    assert_eq!(venue.get_extended_address(), None);
    assert_eq!(venue.get_locality(), None);
    assert_eq!(venue.get_region(), None);
    assert_eq!(venue.get_country(), None);
    assert_eq!(venue.get_postal_code(), None);
}

#[test]
fn venue_get_properties_set() {
    let venue = Venue::new()
        .street_address("street address")
        .extended_address("extended address")
        .locality("locality")
        .region("region")
        .country("country")
        .postal_code("postal code")
        .done();
    assert_eq!(venue.get_street_address(), Some("street address"));
    assert_eq!(venue.get_extended_address(), Some("extended address"));
    assert_eq!(venue.get_locality(), Some("locality"));
    assert_eq!(venue.get_region(), Some("region"));
    assert_eq!(venue.get_country(), Some("country"));
    assert_eq!(venue.get_postal_code(), Some("postal code"));
}
