use cue_sheet::time::{Time, FRAMES_PER_MINUTE, FRAMES_PER_SECOND, SECONDS_PER_MINUTE};

#[test]
fn constants_agree() {
    assert_eq!(FRAMES_PER_SECOND, 75);
    assert_eq!(SECONDS_PER_MINUTE, 60);
    assert_eq!(FRAMES_PER_MINUTE, FRAMES_PER_SECOND * SECONDS_PER_MINUTE);
}

#[test]
fn new_keeps_its_fields() {
    let t = Time::new(58, 41, 36);
    assert_eq!(t.minutes(), 58);
    assert_eq!(t.seconds(), 41);
    assert_eq!(t.frames(), 36);
}

#[test]
fn to_frames_is_minutes_seconds_frames() {
    assert_eq!(Time::new(5, 47, 50).to_frames(), 5 * 4500 + 47 * 75 + 50);
    assert_eq!(Time::new(5, 47, 50).to_frames(), 26075);
    assert_eq!(Time::new(0, 0, 0).to_frames(), 0);
    assert_eq!(Time::new(0, 0, 74).to_frames(), 74);
    assert_eq!(Time::new(0, 1, 0).to_frames(), 75);
    assert_eq!(Time::new(0, 59, 74).to_frames(), 4499);
    assert_eq!(Time::new(1, 0, 0).to_frames(), 4500);
    assert_eq!(Time::new(58, 41, 36).to_frames(), 264111);
}

#[test]
fn from_frames_splits_the_count() {
    assert_eq!(Time::from_frames(0), Time::new(0, 0, 0));
    assert_eq!(Time::from_frames(74), Time::new(0, 0, 74));
    assert_eq!(Time::from_frames(75), Time::new(0, 1, 0));
    assert_eq!(Time::from_frames(4499), Time::new(0, 59, 74));
    assert_eq!(Time::from_frames(4500), Time::new(1, 0, 0));
    assert_eq!(Time::from_frames(26075), Time::new(5, 47, 50));
    assert_eq!(Time::from_frames(263961), Time::new(58, 39, 36));
}

#[test]
fn from_frames_takes_every_count() {
    let t = Time::from_frames(u64::MAX);
    assert_eq!(t.minutes(), u64::MAX / 4500);
    assert_eq!(t.seconds() as u64, (u64::MAX % 4500) / 75);
    assert_eq!(t.frames() as u64, u64::MAX % 75);
    assert_eq!(t.to_frames(), u64::MAX);
}

#[test]
fn frames_round_trip() {
    for n in [0u64, 1, 74, 75, 76, 4499, 4500, 4501, 26075, 264111, 1 << 40, u64::MAX] {
        assert_eq!(Time::from_frames(n).to_frames(), n);
    }
    for t in [Time::new(0, 0, 0), Time::new(5, 47, 50), Time::new(99, 59, 74)] {
        assert_eq!(Time::from_frames(t.to_frames()), t);
    }
}

#[test]
fn subtract_is_the_distance() {
    assert_eq!(Time::new(58, 41, 36).subtract(Time::new(0, 2, 0)), Time::new(58, 39, 36));
    assert_eq!(Time::new(5, 47, 50).subtract(Time::new(0, 0, 0)), Time::new(5, 47, 50));
    assert_eq!(Time::new(5, 47, 50).subtract(Time::new(5, 47, 50)), Time::new(0, 0, 0));
    assert_eq!(Time::new(1, 0, 0).subtract(Time::new(0, 0, 1)), Time::new(0, 59, 74));
    assert_eq!(Time::new(9, 55, 60).subtract(Time::new(5, 50, 10)), Time::new(4, 5, 50));
}

#[test]
fn subtract_borrows_across_fields() {
    assert_eq!(Time::new(2, 0, 0).subtract(Time::new(0, 59, 74)), Time::new(1, 0, 1));
    assert_eq!(Time::new(0, 1, 0).subtract(Time::new(0, 0, 74)), Time::new(0, 0, 1));
}

#[test]
fn saturating_subtract_stops_at_zero() {
    assert_eq!(Time::new(0, 0, 0).saturating_subtract(Time::new(0, 2, 0)), Time::new(0, 0, 0));
    assert_eq!(Time::new(0, 1, 74).saturating_subtract(Time::new(0, 2, 0)), Time::new(0, 0, 0));
    assert_eq!(Time::new(5, 0, 0).saturating_subtract(Time::new(5, 0, 1)), Time::new(0, 0, 0));
}

#[test]
fn saturating_subtract_is_subtract_where_that_is_defined() {
    let a = Time::new(58, 41, 36);
    let b = Time::new(0, 2, 0);
    assert_eq!(a.saturating_subtract(b), a.subtract(b));
    assert_eq!(a.saturating_subtract(a), Time::new(0, 0, 0));
}

#[test]
fn add_carries_into_seconds_and_minutes() {
    assert_eq!(Time::new(0, 0, 74).add(Time::new(0, 0, 1)), Time::new(0, 1, 0));
    assert_eq!(Time::new(0, 59, 74).add(Time::new(0, 0, 1)), Time::new(1, 0, 0));
    assert_eq!(Time::new(5, 50, 10).add(Time::new(4, 5, 50)), Time::new(9, 55, 60));
    assert_eq!(Time::new(58, 39, 36).add(Time::new(0, 2, 0)), Time::new(58, 41, 36));
    assert_eq!(Time::new(0, 0, 0).add(Time::new(0, 0, 0)), Time::new(0, 0, 0));
}

#[test]
fn add_then_subtract_gives_the_first_back() {
    let a = Time::new(13, 57, 60);
    let b = Time::new(4, 3, 12);
    assert_eq!(a.add(b).subtract(b), a);
    assert_eq!(a.add(b).subtract(a), b);
}

#[test]
fn checked_new_takes_normalized_fields_only() {
    assert_eq!(Time::checked_new(5, 47, 50), Some(Time::new(5, 47, 50)));
    assert_eq!(Time::checked_new(0, 59, 74), Some(Time::new(0, 59, 74)));
    assert_eq!(Time::checked_new(0, 60, 0), None);
    assert_eq!(Time::checked_new(0, 0, 75), None);
    assert_eq!(Time::checked_new(0, 255, 255), None);
}

#[test]
fn checked_new_bounds_the_frame_count() {
    let most = Time::from_frames(u64::MAX);
    assert_eq!(Time::checked_new(most.minutes(), most.seconds(), most.frames()), Some(most));
    assert_eq!(Time::checked_new(most.minutes(), most.seconds(), most.frames() + 1), None);
    assert_eq!(Time::checked_new(most.minutes() + 1, 0, 0), None);
    assert_eq!(Time::checked_new(u64::MAX, 0, 0), None);
    assert_eq!(
        Time::checked_new(most.minutes(), 0, 0).map(|t| t.to_frames()),
        Some(most.minutes() * 4500)
    );
}

#[test]
fn checked_subtract_fails_below_zero() {
    assert_eq!(
        Time::new(58, 41, 36).checked_subtract(Time::new(0, 2, 0)),
        Some(Time::new(58, 39, 36))
    );
    assert_eq!(Time::new(0, 2, 0).checked_subtract(Time::new(0, 2, 0)), Some(Time::new(0, 0, 0)));
    assert_eq!(Time::new(0, 1, 74).checked_subtract(Time::new(0, 2, 0)), None);
    assert_eq!(Time::new(0, 0, 0).checked_subtract(Time::new(0, 0, 1)), None);
}

#[test]
fn checked_add_fails_above_the_largest_count() {
    let most = Time::from_frames(u64::MAX);
    assert_eq!(Time::new(5, 50, 10).checked_add(Time::new(4, 5, 50)), Some(Time::new(9, 55, 60)));
    assert_eq!(most.checked_add(Time::new(0, 0, 0)), Some(most));
    assert_eq!(most.checked_add(Time::new(0, 0, 1)), None);
    assert_eq!(Time::new(0, 0, 1).checked_add(most), None);
    assert_eq!(
        Time::from_frames(u64::MAX - 75).checked_add(Time::new(0, 1, 0)),
        Some(most)
    );
}
