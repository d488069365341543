use dyn_wall_rs::time_track::Time;

#[test]
fn new_stores_total_verbatim() {
    assert_eq!(Time::new(0).total_mins, 0);
    assert_eq!(Time::new(1440).total_mins, 1440);
    assert_eq!(Time::new(2000).total_mins, 2000);
}

#[test]
fn named_constants() {
    assert_eq!(Time::midnight().total_mins, 0);
    assert_eq!(Time::end_of_day().total_mins, 1440);
    assert_eq!(Time::default(), Time::midnight());
}

#[test]
fn hours_and_mins_are_derived() {
    let t = Time::new(615);
    assert_eq!(t.hours(), 10);
    assert_eq!(t.mins(), 15);
    assert_eq!(Time::new(59).hours(), 0);
    assert_eq!(Time::new(59).mins(), 59);
    assert_eq!(Time::new(1440).hours(), 24);
    assert_eq!(Time::new(1440).mins(), 0);
}

#[test]
fn add_is_unclamped() {
    let t = Time::new(1380);
    assert_eq!(t.add(60), Time::new(1440));
    assert_eq!(t.add(120), Time::new(1500));
    assert_eq!(Time::midnight().add(0), Time::midnight());
}

#[test]
fn comparisons_use_total_minutes() {
    assert!(Time::new(5) < Time::new(6));
    assert!(Time::new(6) > Time::new(5));
    assert!(Time::new(7) <= Time::new(7));
    assert!(Time::new(7) >= Time::new(7));
    assert_eq!(Time::new(7), Time::new(7));
    assert_ne!(Time::new(7), Time::new(8));
    assert!(Time::midnight() < Time::end_of_day());
}

#[test]
fn twelve_hour_renders_morning_and_evening() {
    assert_eq!(Time::new(615).twelve_hour(), "10:15 AM");
    assert_eq!(Time::new(1140).twelve_hour(), "7:00 PM");
    assert_eq!(Time::new(1439).twelve_hour(), "11:59 PM");
    assert_eq!(Time::new(61).twelve_hour(), "1:01 AM");
}

#[test]
fn twelve_hour_renders_midnight_and_noon_as_twelve() {
    assert_eq!(Time::new(0).twelve_hour(), "12:00 AM");
    assert_eq!(Time::new(720).twelve_hour(), "12:00 PM");
    assert_eq!(Time::new(5).twelve_hour(), "12:05 AM");
    assert_eq!(Time::new(725).twelve_hour(), "12:05 PM");
}

#[test]
fn twelve_hour_wraps_the_sentinel_to_midnight() {
    assert_eq!(Time::new(1440).twelve_hour(), "12:00 AM");
}
