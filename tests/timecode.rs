use rocontrol::timecode::{Framerate, Timecode};

#[test]
fn frames_per_second_uses_thirty_for_drop_frame() {
    assert_eq!(Framerate::Fps24.frames_per_second(), 24);
    assert_eq!(Framerate::Fps25.frames_per_second(), 25);
    assert_eq!(Framerate::Fps30.frames_per_second(), 30);
    assert_eq!(Framerate::Fps29_97.frames_per_second(), 30);
    assert_eq!(Framerate::Fps60.frames_per_second(), 60);
    assert_eq!(Framerate::Fps29_97.fps_millis(), 29970);
}

#[test]
fn from_milliseconds_splits_fields() {
    let tc = Timecode::from_milliseconds(3_723_500, Framerate::Fps25);
    assert_eq!(tc, Timecode::new(1, 2, 3, 12, Framerate::Fps25));
}

#[test]
fn from_milliseconds_truncates_drop_frame() {
    let tc = Timecode::from_milliseconds(999, Framerate::Fps29_97);
    assert_eq!(tc.frames, 29);
    let tc = Timecode::from_milliseconds(33, Framerate::Fps29_97);
    assert_eq!(tc.frames, 0);
    let tc = Timecode::from_milliseconds(34, Framerate::Fps29_97);
    assert_eq!(tc.frames, 1);
}

#[test]
fn from_milliseconds_wraps_hours() {
    let tc = Timecode::from_milliseconds(256 * 3_600_000 + 1000, Framerate::Fps30);
    assert_eq!(tc, Timecode::new(0, 0, 1, 0, Framerate::Fps30));
}

#[test]
fn to_milliseconds_rounds_frames_down() {
    assert_eq!(Timecode::new(1, 2, 3, 12, Framerate::Fps25).to_milliseconds(), 3_723_480);
    assert_eq!(Timecode::new(0, 0, 0, 1, Framerate::Fps29_97).to_milliseconds(), 33);
    assert_eq!(Timecode::zero(Framerate::Fps60).to_milliseconds(), 0);
}

#[test]
fn round_trip_lands_on_frame_start() {
    let back = Timecode::from_milliseconds(1234, Framerate::Fps24).to_milliseconds();
    assert_eq!(back, 1208);
    for ms in [0u64, 1, 40, 999, 1000, 59_999, 3_600_123, 86_399_999] {
        for fr in [Framerate::Fps24, Framerate::Fps25, Framerate::Fps30, Framerate::Fps29_97, Framerate::Fps60] {
            let back = Timecode::from_milliseconds(ms, fr).to_milliseconds();
            assert!(back <= ms);
            let frame_ms = 1_000_000.0 / fr.fps_millis() as f64;
            assert!(((ms - back) as f64) < frame_ms + 1.0);
        }
    }
}

#[test]
fn round_trip_can_miss_by_one_truncated_millisecond() {
    let back = Timecode::from_milliseconds(100, Framerate::Fps29_97).to_milliseconds();
    assert_eq!(back, 66);
}

#[test]
fn to_string_pads_two_digits() {
    assert_eq!(Timecode::new(1, 2, 3, 4, Framerate::Fps30).to_string(), "01:02:03:04");
    assert_eq!(Timecode::new(123, 59, 0, 29, Framerate::Fps30).to_string(), "123:59:00:29");
}

#[test]
fn add_frames_moves_across_fields() {
    let mut tc = Timecode::new(0, 0, 1, 0, Framerate::Fps25);
    tc.add_frames(-1);
    assert_eq!(tc, Timecode::new(0, 0, 0, 24, Framerate::Fps25));
    tc.add_frames(25 * 60 + 1);
    assert_eq!(tc, Timecode::new(0, 1, 1, 0, Framerate::Fps25));
}

#[test]
fn add_frames_clamps_at_zero() {
    let mut tc = Timecode::new(0, 0, 2, 5, Framerate::Fps30);
    tc.add_frames(-1_000_000);
    assert_eq!(tc, Timecode::zero(Framerate::Fps30));
    tc.add_frames(i32::MIN);
    assert_eq!(tc, Timecode::zero(Framerate::Fps30));
}

#[test]
fn add_frames_wraps_hours_past_capacity() {
    let mut tc = Timecode::new(255, 59, 59, 24, Framerate::Fps25);
    tc.add_frames(1);
    assert_eq!(tc, Timecode::zero(Framerate::Fps25));
}
