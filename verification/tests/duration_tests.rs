use icalendar::Duration;

#[test]
fn test_duration_parse_full_positiv() {
    let dur_str = "P1DT1H1M1S";
    assert_eq!(Duration::from_str(dur_str).unwrap().to_string(), dur_str);
}

#[test]
fn test_duration_parse_full_negativ() {
    let dur_str = "-P1DT1H1M1S";
    assert_eq!(Duration::from_str(dur_str).unwrap().to_string(), dur_str);
}

#[test]
fn test_duration_create_and_weeks() {
    let dur = Duration::days(1).and_weeks(1);
    assert_eq!(dur.to_string(), "P1W1D");
}

#[test]
fn duration_rejects_year_and_month_units() {
    assert!(Duration::from_str("P1Y").is_err());
    assert!(Duration::from_str("P2M").is_err());
    assert!(Duration::from_str("P1Y2M3DT4H5M6S").is_err());
    assert!(Duration::from_str("-P1Y").is_err());
    assert!(Duration::from_str("").is_err());
    assert!(Duration::from_str("1D").is_err());
}

#[test]
fn duration_week_form_round_trips() {
    assert_eq!(Duration::from_str("P7W").unwrap(), Duration::weeks(7));
    assert_eq!(Duration::from_str("-P7W").unwrap(), Duration::weeks(7).neg());
    assert_eq!(Duration::weeks(7).to_string(), "P7W");
}
