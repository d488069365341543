use dyn_wall_rs::errors::{ConfigFileErrors, Errors, SelectionErrors};
use dyn_wall_rs::schedule::{error_checking, generate, schedule_lines, select, validate};
use dyn_wall_rs::time_track::Time;

fn times_of(mins: &[u32]) -> Vec<Time> {
    let mut v = Vec::new();
    for &m in mins {
        v.push(Time::new(m));
    }
    v
}

fn strings_of(names: &[&str]) -> Vec<String> {
    let mut v = Vec::new();
    for &n in names {
        v.push(n.to_string());
    }
    v
}

#[test]
fn generate_four_equal_intervals() {
    let r = generate(4).unwrap();
    assert_eq!(r.len(), 4);
    let expect = [0u32, 360, 720, 1080];
    for i in 0..4 {
        assert_eq!(r[i].total_mins, expect[i]);
    }
}

#[test]
fn generate_one_interval() {
    let r = generate(1).unwrap();
    assert_eq!(r.len(), 1);
    assert_eq!(r[0], Time::midnight());
}

#[test]
fn generate_is_strictly_ascending() {
    for n in [2usize, 3, 6, 12, 24, 96, 1440] {
        let r = generate(n).unwrap();
        assert_eq!(r.len(), n);
        assert_eq!(r[0], Time::midnight());
        for i in 1..n {
            assert!(r[i - 1] < r[i]);
            assert_eq!(r[i].total_mins - r[i - 1].total_mins, (1440 / n) as u32);
        }
    }
}

#[test]
fn generate_rejects_incompatible_counts() {
    assert_eq!(generate(7), Err(Errors::CountCompatError(7)));
    assert_eq!(generate(0), Err(Errors::CountCompatError(0)));
    assert_eq!(generate(1441), Err(Errors::CountCompatError(1441)));
    assert_eq!(generate(100), Err(Errors::CountCompatError(100)));
}

#[test]
fn validate_empty_fails() {
    assert_eq!(validate(&[]), Err(ConfigFileErrors::Empty));
}

#[test]
fn validate_two_breakpoints_returns_first() {
    let ts = times_of(&[480, 1200]);
    assert_eq!(validate(&ts), Ok(Time::new(480)));
}

#[test]
fn validate_rejects_rise_after_wrap() {
    // 05:00 opens the post-midnight run; 20:00 cannot rejoin the primary run.
    let ts = times_of(&[480, 300, 1200]);
    assert_eq!(validate(&ts), Err(ConfigFileErrors::OutOfOrder));
}

#[test]
fn validate_rejects_descent_in_secondary_run() {
    // 03:00 < 05:00 descends within the post-midnight run.
    let ts = times_of(&[600, 300, 180]);
    assert_eq!(validate(&ts), Err(ConfigFileErrors::OutOfOrder));
}

#[test]
fn validate_rejects_descent_in_primary_run() {
    let ts = times_of(&[600, 1320, 700]);
    assert_eq!(validate(&ts), Err(ConfigFileErrors::OutOfOrder));
}

#[test]
fn validate_accepts_single_wraparound() {
    let ts = times_of(&[600, 1320, 300, 540]);
    assert_eq!(validate(&ts), Ok(Time::new(600)));
}

#[test]
fn validate_rejects_two_end_of_day_sentinels() {
    let ts = times_of(&[600, 1320, 1440, 360, 1440]);
    assert_eq!(validate(&ts), Err(ConfigFileErrors::FileTimeMismatch));
}

#[test]
fn validate_accepts_single_sentinel() {
    let ts = times_of(&[600, 1320, 1440]);
    assert_eq!(validate(&ts), Ok(Time::new(600)));
}

#[test]
fn error_checking_passes_valid_schedule() {
    let ts = times_of(&[480, 1200]);
    let first = ts[0];
    assert_eq!(error_checking(&ts, Some(&first), 2), Ok(Time::new(480)));
}

#[test]
fn error_checking_reports_empty() {
    assert_eq!(
        error_checking(&[], None, 2),
        Err(Errors::ConfigFileError(ConfigFileErrors::Empty))
    );
}

#[test]
fn error_checking_reports_missing_first_time() {
    let ts = times_of(&[480, 1200]);
    assert_eq!(
        error_checking(&ts, None, 2),
        Err(Errors::ConfigFileError(ConfigFileErrors::Empty))
    );
}

#[test]
fn error_checking_reports_incompatible_count() {
    let ts = times_of(&[480, 1200]);
    let first = ts[0];
    assert_eq!(
        error_checking(&ts, Some(&first), 7),
        Err(Errors::CountCompatError(7))
    );
    assert_eq!(
        error_checking(&ts, Some(&first), 0),
        Err(Errors::CountCompatError(0))
    );
}

#[test]
fn error_checking_reports_order_before_count() {
    let ts = times_of(&[600, 300, 180]);
    let first = ts[0];
    assert_eq!(
        error_checking(&ts, Some(&first), 7),
        Err(Errors::ConfigFileError(ConfigFileErrors::OutOfOrder))
    );
}

#[test]
fn select_inside_first_window() {
    let ts = times_of(&[480, 1200]);
    let imgs = strings_of(&["A", "B"]);
    let r = select(&Time::new(600), &ts, &imgs);
    assert_eq!(r, Ok("A".to_string()));
}

#[test]
fn select_inside_second_window() {
    let ts = times_of(&[480, 1200]);
    let imgs = strings_of(&["A", "B"]);
    let r = select(&Time::new(1260), &ts, &imgs);
    assert_eq!(r, Ok("B".to_string()));
}

#[test]
fn select_wraps_to_previous_days_last_interval() {
    let ts = times_of(&[480, 1200]);
    let imgs = strings_of(&["A", "B"]);
    let r = select(&Time::new(120), &ts, &imgs);
    assert_eq!(r, Ok("B".to_string()));
}

#[test]
fn select_falls_back_before_first_breakpoint() {
    let ts = times_of(&[480, 1200]);
    let imgs = strings_of(&["A", "B"]);
    let r = select(&Time::new(479), &ts, &imgs);
    assert_eq!(r, Ok("B".to_string()));
}

#[test]
fn select_boundary_is_inclusive_at_start_exclusive_at_end() {
    let ts = times_of(&[480, 1200]);
    let imgs = strings_of(&["A", "B"]);
    assert_eq!(select(&Time::new(480), &ts, &imgs), Ok("A".to_string()));
    assert_eq!(select(&Time::new(1199), &ts, &imgs), Ok("A".to_string()));
    assert_eq!(select(&Time::new(1200), &ts, &imgs), Ok("B".to_string()));
}

#[test]
fn select_handles_wrapped_window() {
    let ts = times_of(&[600, 1320, 360]);
    let imgs = strings_of(&["A", "B", "C"]);
    // 01:40 lies in the reset window [00:00, 06:00) of the wrapping entry.
    assert_eq!(select(&Time::new(100), &ts, &imgs), Ok("B".to_string()));
    // 06:40 lies in the final window [06:00, end of day).
    assert_eq!(select(&Time::new(400), &ts, &imgs), Ok("C".to_string()));
}

#[test]
fn select_scan_lets_the_last_matching_window_win() {
    // In a wrapped schedule the final window runs to the end-of-day
    // sentinel, so it can overlap an earlier one; the scan does not
    // early-exit, and the last qualifying match is the one recorded.
    let ts = times_of(&[600, 1320, 360]);
    let imgs = strings_of(&["A", "B", "C"]);
    assert_eq!(select(&Time::new(700), &ts, &imgs), Ok("C".to_string()));
}

#[test]
fn select_empty_fails() {
    let r = select(&Time::new(0), &[], &[]);
    assert_eq!(r, Err(Errors::SelectionError(SelectionErrors::Empty)));
}

#[test]
fn select_rejects_double_sentinel_window() {
    // The last breakpoint equals the sentinel, so the final window is
    // bounded by two end-of-day sentinels.
    let ts = times_of(&[0, 720, 1440]);
    let imgs = strings_of(&["A", "B", "C"]);
    let r = select(&Time::new(300), &ts, &imgs);
    assert_eq!(
        r,
        Err(Errors::ConfigFileError(ConfigFileErrors::FileTimeMismatch))
    );
}

#[test]
fn select_is_idempotent() {
    let ts = times_of(&[480, 1200]);
    let imgs = strings_of(&["A", "B"]);
    for m in [0u32, 120, 479, 480, 600, 1199, 1200, 1439] {
        let now = Time::new(m);
        let r1 = select(&now, &ts, &imgs);
        let r2 = select(&now, &ts, &imgs);
        assert_eq!(r1, r2);
    }
}

#[test]
fn generated_schedules_always_validate() {
    for n in [1usize, 2, 3, 4, 6, 8, 12, 24, 60, 144, 720, 1440] {
        let ts = generate(n).unwrap();
        assert_eq!(validate(&ts), Ok(Time::midnight()));
        let first = ts[0];
        assert_eq!(error_checking(&ts, Some(&first), n), Ok(Time::midnight()));
    }
}

#[test]
fn schedule_lines_pairs_images_with_breakpoints() {
    let imgs = strings_of(&["a.png", "b.png"]);
    let r = schedule_lines(&imgs).unwrap();
    assert_eq!(r.len(), 2);
    assert_eq!(r[0], "Image: a.png Time: 12:00 AM");
    assert_eq!(r[1], "Image: b.png Time: 12:00 PM");
}

#[test]
fn schedule_lines_four_images() {
    let imgs = strings_of(&["w", "x", "y", "z"]);
    let r = schedule_lines(&imgs).unwrap();
    assert_eq!(r.len(), 4);
    assert_eq!(r[0], "Image: w Time: 12:00 AM");
    assert_eq!(r[1], "Image: x Time: 6:00 AM");
    assert_eq!(r[2], "Image: y Time: 12:00 PM");
    assert_eq!(r[3], "Image: z Time: 6:00 PM");
}

#[test]
fn schedule_lines_rejects_incompatible_counts() {
    let imgs = strings_of(&["a", "b", "c", "d", "e", "f", "g"]);
    assert_eq!(schedule_lines(&imgs), Err(Errors::CountCompatError(7)));
    assert_eq!(schedule_lines(&[]), Err(Errors::CountCompatError(0)));
}
