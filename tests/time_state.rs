use rocontrol::time_state::{DurationType, RunState, SourceType, TimeState};
use rocontrol::timecode::{Framerate, Timecode};

fn clip(duration_ms: u64) -> TimeState {
    TimeState::new_at(
        "clip1".to_string(),
        "Clip 1".to_string(),
        SourceType::VideoPlayback,
        DurationType::Finite { duration_ms },
        0,
    )
}

#[test]
fn new_state_is_stopped_and_empty() {
    let s = clip(3000);
    assert_eq!(s.run_state, RunState::Stopped);
    assert_eq!(s.start_time, None);
    assert_eq!(s.elapsed_ms, 0);
    assert_eq!(s.progress_basis_points, 0);
    assert!(s.timecode.is_none());
    assert!(s.metadata.is_empty());
}

#[test]
fn new_reads_the_clock() {
    let s = TimeState::new("a".to_string(), "A".to_string(), SourceType::CueList, DurationType::Indefinite);
    assert!(s.last_update > 1_600_000_000_000);
    assert!(s.is_alive());
}

#[test]
fn finite_clip_progress_and_auto_stop() {
    let mut s = clip(3000);
    s.start_at(None, 10_000);
    assert_eq!(s.run_state, RunState::Playing);
    s.update_at(11_500);
    assert_eq!(s.elapsed_ms, 1500);
    assert_eq!(s.progress_basis_points, 5000);
    assert_eq!(s.remaining_ms(), Some(1500));
    s.update_at(13_100);
    assert_eq!(s.run_state, RunState::Stopped);
    assert_eq!(s.start_time, None);
    assert_eq!(s.elapsed_ms, 0);
    assert_eq!(s.progress_basis_points, 0);
    assert_eq!(s.last_update, 13_100);
}

#[test]
fn elapsed_never_decreases_while_playing() {
    let mut s = TimeState::new_at("n".to_string(), "N".to_string(), SourceType::NdiStream, DurationType::Indefinite, 0);
    s.start_at(Some(Framerate::Fps25), 1000);
    let mut last = 0;
    for now in [1000u64, 1100, 1100, 1350, 2040, 9000] {
        s.update_at(now);
        assert!(s.elapsed_ms >= last);
        last = s.elapsed_ms;
    }
    assert_eq!(s.elapsed_ms, 8000);
    assert_eq!(s.timecode, Some(Timecode::new(0, 0, 8, 0, Framerate::Fps25)));
    s.update_at(2040);
    assert_eq!(s.timecode, Some(Timecode::new(0, 0, 1, 1, Framerate::Fps25)));
}

#[test]
fn stop_resets_position() {
    let mut s = clip(60_000);
    s.start_at(Some(Framerate::Fps30), 0);
    s.update_at(12_345);
    assert!(s.elapsed_ms > 0);
    s.stop_at(13_000);
    assert_eq!(s.run_state, RunState::Stopped);
    assert_eq!(s.elapsed_ms, 0);
    assert_eq!(s.progress_basis_points, 0);
    assert_eq!(s.timecode, Some(Timecode::zero(Framerate::Fps30)));
    assert_eq!(s.last_update, 13_000);
}

#[test]
fn pause_keeps_start_and_freezes_ticks() {
    let mut s = clip(60_000);
    s.start_at(None, 1000);
    s.update_at(1500);
    s.pause_at(1600);
    assert_eq!(s.run_state, RunState::Paused);
    assert_eq!(s.start_time, Some(1000));
    s.update_at(5000);
    assert_eq!(s.elapsed_ms, 500);
    assert_eq!(s.last_update, 5000);
    s.start_at(None, 6000);
    s.update_at(6100);
    assert_eq!(s.elapsed_ms, 100);
}

#[test]
fn zero_duration_never_auto_stops() {
    let mut s = clip(0);
    s.start_at(None, 0);
    s.update_at(10_000);
    assert_eq!(s.run_state, RunState::Playing);
    assert_eq!(s.progress_basis_points, 0);
    assert_eq!(s.elapsed_ms, 10_000);
}

#[test]
fn clock_behind_start_counts_as_zero() {
    let mut s = clip(3000);
    s.start_at(None, 5000);
    s.update_at(4000);
    assert_eq!(s.elapsed_ms, 0);
    assert_eq!(s.run_state, RunState::Playing);
}

#[test]
fn alive_within_five_seconds() {
    let s = clip(3000);
    let mut t = s.clone();
    t.last_update = 1000;
    assert!(t.is_alive_at(5999));
    assert!(!t.is_alive_at(6000));
    assert!(t.is_alive_at(10));
}

#[test]
fn remaining_for_each_duration() {
    let mut s = clip(3000);
    s.elapsed_ms = 4000;
    assert_eq!(s.remaining_ms(), Some(0));
    let n = TimeState::new_at("i".to_string(), "I".to_string(), SourceType::DmxOutput, DurationType::Indefinite, 0);
    assert_eq!(n.remaining_ms(), None);
}

#[test]
fn frame_reports_count_and_saturate() {
    let mut s = clip(3000);
    s.report_frame_at(false, 10);
    s.report_frame_at(true, 20);
    assert_eq!(s.frame_count, 2);
    assert_eq!(s.dropped_frames, 1);
    assert_eq!(s.last_update, 20);
    s.frame_count = u64::MAX;
    s.report_frame_at(false, 30);
    assert_eq!(s.frame_count, u64::MAX);
}

#[test]
fn start_while_playing_changes_nothing() {
    let mut s = clip(60_000);
    s.start_at(Some(Framerate::Fps25), 1000);
    s.update_at(3000);
    s.start_at(Some(Framerate::Fps30), 4000);
    assert_eq!(s.start_time, Some(1000));
    assert_eq!(s.last_update, 3000);
    assert_eq!(s.timecode, Some(Timecode::new(0, 0, 2, 0, Framerate::Fps25)));
}
