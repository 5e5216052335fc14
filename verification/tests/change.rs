use rbackup::change::{is_newer, ChangeError, Timestamp};

fn at(secs: i64) -> Timestamp {
    Timestamp { secs, nanos: 0 }
}

#[test]
fn test_is_newer_integration() {
    let now: i64 = 1_700_000_000;
    let older = at(now - 60);
    let newer = at(now + 60);

    // src is newer than dst, dst is older than src
    assert!(is_newer(Some(newer), Some(older)).unwrap());
    assert!(!is_newer(Some(older), Some(newer)).unwrap());
}

#[test]
fn missing_destination_is_always_newer() {
    assert_eq!(is_newer(Some(at(5)), None), Ok(true));
    assert_eq!(is_newer(Some(at(-5)), None), Ok(true));
    assert_eq!(is_newer(None, None), Ok(true));
}

#[test]
fn equal_times_are_unchanged() {
    let t = Timestamp { secs: 42, nanos: 999_999_999 };
    assert_eq!(is_newer(Some(t), Some(t)), Ok(false));
    assert_eq!(is_newer(Some(at(0)), Some(at(0))), Ok(false));
}

#[test]
fn nanoseconds_decide_within_a_second() {
    let early = Timestamp { secs: 10, nanos: 1 };
    let late = Timestamp { secs: 10, nanos: 2 };
    assert_eq!(is_newer(Some(late), Some(early)), Ok(true));
    assert_eq!(is_newer(Some(early), Some(late)), Ok(false));
    assert!(late.is_after(&early));
    assert!(!early.is_after(&late));
    assert!(!early.is_after(&early));
}

#[test]
fn seconds_outweigh_nanoseconds() {
    let a = Timestamp { secs: 11, nanos: 0 };
    let b = Timestamp { secs: 10, nanos: 999_999_999 };
    assert_eq!(is_newer(Some(a), Some(b)), Ok(true));
    assert_eq!(is_newer(Some(b), Some(a)), Ok(false));
}

#[test]
fn unreadable_source_with_a_destination_is_an_error() {
    assert_eq!(is_newer(None, Some(at(1))), Err(ChangeError::SourceUnreadable));
}

#[test]
fn times_after_the_epoch() {
    assert_eq!(Timestamp::from_offset(false, 0, 0), Timestamp { secs: 0, nanos: 0 });
    assert_eq!(Timestamp::from_offset(false, 12, 345), Timestamp { secs: 12, nanos: 345 });
}

#[test]
fn times_before_the_epoch() {
    assert_eq!(Timestamp::from_offset(true, 0, 0), Timestamp { secs: 0, nanos: 0 });
    assert_eq!(Timestamp::from_offset(true, 5, 0), Timestamp { secs: -5, nanos: 0 });
    // half a second before the epoch lies in the second that starts at -1
    assert_eq!(Timestamp::from_offset(true, 0, 500_000_000), Timestamp { secs: -1, nanos: 500_000_000 });
    assert_eq!(Timestamp::from_offset(true, 2, 1), Timestamp { secs: -3, nanos: 999_999_999 });
}

#[test]
fn order_of_times_across_the_epoch() {
    // 2.25 s before, 2 s before, 0.5 s before, the epoch, 0.5 s after
    let times = [
        Timestamp::from_offset(true, 2, 250_000_000),
        Timestamp::from_offset(true, 2, 0),
        Timestamp::from_offset(true, 0, 500_000_000),
        Timestamp::from_offset(false, 0, 0),
        Timestamp::from_offset(false, 0, 500_000_000),
    ];
    for i in 0..times.len() {
        for j in 0..times.len() {
            assert_eq!(times[j].is_after(&times[i]), j > i);
            assert_eq!(is_newer(Some(times[j]), Some(times[i])), Ok(j > i));
        }
    }
}

#[test]
fn offsets_out_of_range_are_brought_in() {
    let far = Timestamp::from_offset(false, u64::MAX, 2_000_000_000);
    assert_eq!(far, Timestamp { secs: i64::MAX - 1, nanos: 999_999_999 });
    let long_ago = Timestamp::from_offset(true, u64::MAX, 1);
    assert_eq!(long_ago, Timestamp { secs: -i64::MAX, nanos: 999_999_999 });
    assert!(far.is_after(&long_ago));
}
