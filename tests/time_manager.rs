use rocontrol::error::CoreError;
use rocontrol::time_manager::{register_time_state, register_time_state_at, TimeManager};
use rocontrol::time_state::{DurationType, RunState, SourceType, TimeState};
use rocontrol::timecode::{Framerate, Timecode};

fn state(id: &str, source_type: SourceType, duration_type: DurationType) -> TimeState {
    TimeState::new_at(id.to_string(), format!("{} name", id), source_type, duration_type, 0)
}

#[test]
fn register_and_get_state() {
    let mut m = TimeManager::new(Framerate::Fps30);
    assert!(m.register_state(state("a", SourceType::VideoPlayback, DurationType::Indefinite)).is_ok());
    assert_eq!(m.get_state("a").unwrap().name, "a name");
    assert_eq!(m.get_state("b").err(), Some(CoreError::NotFound("b".to_string())));
    assert!(m.register_state(state("a", SourceType::CueList, DurationType::Indefinite)).is_ok());
    assert_eq!(m.get_all_states().len(), 1);
    assert_eq!(m.get_state("a").unwrap().source_type, SourceType::CueList);
}

#[test]
fn start_uses_master_framerate() {
    let mut m = TimeManager::new(Framerate::Fps25);
    m.register_state(state("a", SourceType::VideoPlayback, DurationType::Indefinite)).unwrap();
    m.start_state_at("a", 1000).unwrap();
    let s = m.get_state("a").unwrap();
    assert_eq!(s.run_state, RunState::Playing);
    assert_eq!(s.start_time, Some(1000));
    assert_eq!(s.timecode, Some(Timecode::zero(Framerate::Fps25)));
    assert_eq!(m.start_state_at("zz", 1000), Err(CoreError::NotFound("zz".to_string())));
}

#[test]
fn pause_stop_and_missing_states() {
    let mut m = TimeManager::new(Framerate::Fps30);
    m.register_state(state("a", SourceType::AudioPlayback, DurationType::Finite { duration_ms: 10_000 })).unwrap();
    m.start_state_at("a", 0).unwrap();
    m.pause_state_at("a", 100).unwrap();
    assert_eq!(m.get_state("a").unwrap().run_state, RunState::Paused);
    m.stop_state_at("a", 200).unwrap();
    assert_eq!(m.get_state("a").unwrap().run_state, RunState::Stopped);
    assert_eq!(m.pause_state_at("x", 0), Err(CoreError::NotFound("x".to_string())));
    assert_eq!(m.stop_state_at("x", 0), Err(CoreError::NotFound("x".to_string())));
    assert!(m.stop_state("a").is_ok());
    assert!(m.pause_state("a").is_ok());
    assert!(m.start_state("a").is_ok());
}

#[test]
fn update_all_advances_playing_states() {
    let mut m = TimeManager::new(Framerate::Fps30);
    m.register_state(state("a", SourceType::VideoPlayback, DurationType::Finite { duration_ms: 3000 })).unwrap();
    m.register_state(state("b", SourceType::ArtNetInput, DurationType::Indefinite)).unwrap();
    m.start_state_at("a", 0).unwrap();
    m.update_all_states_at(1500).unwrap();
    assert_eq!(m.get_state("a").unwrap().progress_basis_points, 5000);
    assert_eq!(m.get_state("a").unwrap().timecode, Some(Timecode::new(0, 0, 1, 15, Framerate::Fps30)));
    assert_eq!(m.get_state("b").unwrap().elapsed_ms, 0);
    assert_eq!(m.get_state("b").unwrap().last_update, 1500);
    m.update_all_states_at(3100).unwrap();
    assert_eq!(m.get_state("a").unwrap().run_state, RunState::Stopped);
}

#[test]
fn playing_and_typed_views() {
    let mut m = TimeManager::new(Framerate::Fps30);
    m.register_state(state("a", SourceType::VideoPlayback, DurationType::Indefinite)).unwrap();
    m.register_state(state("b", SourceType::SacnInput, DurationType::Indefinite)).unwrap();
    m.register_state(state("c", SourceType::VideoPlayback, DurationType::Indefinite)).unwrap();
    m.start_state_at("c", 0).unwrap();
    let playing = m.get_playing_states();
    assert_eq!(playing.len(), 1);
    assert_eq!(playing[0].id, "c");
    let videos = m.get_states_by_type(SourceType::VideoPlayback);
    assert_eq!(videos.len(), 2);
    assert!(m.get_states_by_type(SourceType::Executor).is_empty());
}

#[test]
fn remove_state_deletes_only_that_state() {
    let mut m = TimeManager::new(Framerate::Fps30);
    m.register_state(state("a", SourceType::DmxOutput, DurationType::Indefinite)).unwrap();
    m.register_state(state("b", SourceType::DmxOutput, DurationType::Indefinite)).unwrap();
    assert!(m.remove_state("a").is_ok());
    assert!(m.remove_state("a").is_ok());
    assert!(m.get_state("a").is_err());
    assert!(m.get_state("b").is_ok());
}

#[test]
fn metadata_replaces_by_key() {
    let mut m = TimeManager::new(Framerate::Fps30);
    m.register_state(state("a", SourceType::Executor, DurationType::Indefinite)).unwrap();
    m.update_state_metadata("a", "file".to_string(), "x.mov".to_string()).unwrap();
    m.update_state_metadata("a", "file".to_string(), "y.mov".to_string()).unwrap();
    m.update_state_metadata("a", "lane".to_string(), "2".to_string()).unwrap();
    let s = m.get_state("a").unwrap();
    assert_eq!(s.metadata.len(), 2);
    assert_eq!(s.metadata[0].value, "y.mov");
    assert_eq!(
        m.update_state_metadata("q", "k".to_string(), "v".to_string()),
        Err(CoreError::NotFound("q".to_string()))
    );
}

#[test]
fn frame_reports_and_latency() {
    let mut m = TimeManager::new(Framerate::Fps30);
    m.register_state(state("a", SourceType::NdiStream, DurationType::Indefinite)).unwrap();
    m.report_frame_at("a", false, 10).unwrap();
    m.report_frame_at("a", true, 20).unwrap();
    m.set_latency("a", 1500).unwrap();
    let s = m.get_state("a").unwrap();
    assert_eq!((s.frame_count, s.dropped_frames, s.last_update, s.latency_micros), (2, 1, 20, 1500));
    assert_eq!(m.report_frame("b", false), Err(CoreError::NotFound("b".to_string())));
    assert_eq!(m.set_latency("b", 1), Err(CoreError::NotFound("b".to_string())));
}

#[test]
fn timelines_get_fresh_ids() {
    let mut m = TimeManager::new(Framerate::Fps24);
    let ids = vec!["a".to_string(), "missing".to_string()];
    let t1 = m.create_timeline("Show".to_string(), ids).unwrap();
    let t2 = m.insert_timeline("fixed".to_string(), "Other".to_string(), Vec::new(), 77).unwrap();
    assert_eq!(t1.len(), 36);
    assert_eq!(t2, "fixed");
    let tl = m.get_timeline(&t1).unwrap();
    assert_eq!(tl.name, "Show");
    assert_eq!(tl.states, vec!["a".to_string(), "missing".to_string()]);
    assert_eq!(tl.master_timecode, Timecode::zero(Framerate::Fps24));
    assert!(tl.sync_enabled);
    assert_eq!(m.get_timeline("fixed").unwrap().created_at, 77);
    assert_eq!(m.get_all_timelines().len(), 2);
    assert_eq!(m.get_timeline("nope").err(), Some(CoreError::NotFound("nope".to_string())));
}

#[test]
fn registration_decodes_names() {
    let mut m = TimeManager::new(Framerate::Fps30);
    let r = register_time_state_at(&mut m, "v".to_string(), "Video".to_string(), "video_playback", "finite", Some(3000), 5);
    assert_eq!(r, Ok("State v registered".to_string()));
    let s = m.get_state("v").unwrap();
    assert_eq!(s.duration_type, DurationType::Finite { duration_ms: 3000 });
    assert_eq!(s.last_update, 5);
    let r = register_time_state(&mut m, "c".to_string(), "Cues".to_string(), "cue_list", "indefinite", None);
    assert!(r.is_ok());
    assert_eq!(m.get_state("c").unwrap().source_type, SourceType::CueList);
}

#[test]
fn registration_rejects_bad_names() {
    let mut m = TimeManager::new(Framerate::Fps30);
    let r = register_time_state_at(&mut m, "x".to_string(), "X".to_string(), "hologram", "finite", Some(1), 0);
    assert_eq!(r, Err(CoreError::SerializationFailure("Unknown source type: hologram".to_string())));
    let r = register_time_state_at(&mut m, "x".to_string(), "X".to_string(), "executor", "finite", None, 0);
    assert!(matches!(r, Err(CoreError::SerializationFailure(_))));
    let r = register_time_state_at(&mut m, "x".to_string(), "X".to_string(), "executor", "forever", None, 0);
    assert_eq!(r, Err(CoreError::SerializationFailure("Unknown duration type: forever".to_string())));
    assert!(m.get_all_states().is_empty());
}

#[test]
fn timeline_ids_are_never_reused() {
    let mut m = TimeManager::new(Framerate::Fps30);
    m.insert_timeline("t".to_string(), "First".to_string(), Vec::new(), 1).unwrap();
    let r = m.insert_timeline("t".to_string(), "Second".to_string(), Vec::new(), 2);
    assert_eq!(r, Err(CoreError::DuplicateId("t".to_string())));
    assert_eq!(m.get_timeline("t").unwrap().name, "First");
    let fresh = m.create_timeline("Third".to_string(), Vec::new()).unwrap();
    assert_ne!(fresh, "t");
    assert_eq!(m.get_all_timelines().len(), 2);
}
