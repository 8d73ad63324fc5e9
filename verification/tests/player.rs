use ami::player::{seek_target_secs, PauseReason, PlaybackStatus};

#[test]
fn status_of_the_player() {
    assert_eq!(PlaybackStatus::of_player(true, false), PlaybackStatus::Stopped);
    assert_eq!(PlaybackStatus::of_player(true, true), PlaybackStatus::Stopped);
    assert_eq!(PlaybackStatus::of_player(false, true), PlaybackStatus::Paused);
    assert_eq!(PlaybackStatus::of_player(false, false), PlaybackStatus::Playing);
    assert_eq!(PlaybackStatus::default(), PlaybackStatus::Stopped);
    assert_eq!(PauseReason::default(), PauseReason::NotPaused);
}

#[test]
fn seek_targets() {
    assert_eq!(seek_target_secs(30, 10), 40);
    assert_eq!(seek_target_secs(30, -10), 20);
    assert_eq!(seek_target_secs(5, -10), 0);
    assert_eq!(seek_target_secs(0, 0), 0);
    assert_eq!(seek_target_secs(i64::MAX as u64, 1), i64::MAX as u64);
    assert_eq!(seek_target_secs(u64::MAX, 5), 4);
    assert_eq!(seek_target_secs(u64::MAX, -5), 0);
    assert_eq!(seek_target_secs(100, i64::MIN), 0);
}
