use grrs::metrics::{ramp_up_count, responsiveness_counts};

fn ramp_up_time(has_wiki: bool, has_discussions: bool, has_pages: bool, has_readme: bool) -> f32 {
    0.25 * ramp_up_count(has_wiki, has_discussions, has_pages, has_readme) as f32
}

fn responsiveness(open_issues: i32, closed_issues: i32) -> f32 {
    let (open, total) = responsiveness_counts(open_issues, closed_issues).unwrap();
    open as f32 / total as f32
}

#[test]
fn test_calc_ramp_up_time_fail() {
    let ramp_up_time = ramp_up_time(true, true, false, true);
    assert_ne!(ramp_up_time, 1.0);
}

#[test]
fn test_calc_ramp_up_time_pass() {
    assert_eq!(ramp_up_time(true, false, true, false), 0.5);
}

#[test]
fn test_calc_responsiveness_failing() {
    assert_ne!(responsiveness(10, 50), 0.4);
}

#[test]
fn test_calc_responsiveness_success() {
    assert_eq!(responsiveness(100, 200), 0.375);
}

#[test]
fn ramp_up_counts_each_resource() {
    assert_eq!(ramp_up_count(false, false, false, false), 0);
    assert_eq!(ramp_up_count(true, false, false, false), 1);
    assert_eq!(ramp_up_count(false, true, true, false), 2);
    assert_eq!(ramp_up_count(true, true, true, true), 4);
}

#[test]
fn responsiveness_adds_fifty_of_each() {
    assert_eq!(responsiveness_counts(0, 0), Some((50, 100)));
    assert_eq!(responsiveness_counts(100, 200), Some((150, 400)));
    assert_eq!(responsiveness_counts(10, 50), Some((60, 160)));
}

#[test]
fn responsiveness_overflow_is_refused() {
    assert_eq!(responsiveness_counts(i32::MAX, 0), None);
    assert_eq!(responsiveness_counts(0, i32::MAX - 49), None);
    assert_eq!(responsiveness_counts(i32::MAX - 50, 0), None);
    assert_eq!(responsiveness_counts(i32::MAX - 150, 0), Some((i32::MAX - 100, i32::MAX - 50)));
    assert_eq!(responsiveness_counts(i32::MIN, i32::MIN), None);
}
