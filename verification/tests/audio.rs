use hexendrum::audio::{
    duration_seconds, is_supported_audio_format, probe_outcome_seconds, probe_step, tally_packets,
    AudioError, AudioPlayer, AudioState, PacketEvent, ProbeAction, VOLUME_DEFAULT,
};

fn ok() -> Result<(), String> {
    Ok(())
}

fn failed(msg: &str) -> Result<(), String> {
    Err(msg.to_string())
}

#[test]
fn new_player_is_stopped_with_default_volume() {
    let player = AudioPlayer::new();
    assert_eq!(player.get_state(), AudioState::Stopped);
    assert_eq!(player.get_volume(), VOLUME_DEFAULT);
    assert_eq!(player.get_current_track(), None);
    assert!(player.is_alive());
}

#[test]
fn pause_and_resume_with_no_track_succeed_and_change_nothing() {
    let mut player = AudioPlayer::new();
    assert!(player.pause().is_ok());
    assert_eq!(player.get_state(), AudioState::Stopped);
    assert_eq!(player.get_current_track(), None);
    assert!(player.resume().is_ok());
    assert_eq!(player.get_state(), AudioState::Stopped);
    assert_eq!(player.get_current_track(), None);
}

#[test]
fn failed_play_reverts_to_stopped_with_no_track() {
    let mut player = AudioPlayer::new();
    // even from a playing state
    assert!(player.play("ok.mp3".to_string(), ok()).is_ok());
    assert_eq!(player.get_state(), AudioState::Playing);

    let r = player.play("/does/not/exist".to_string(), failed("no such file"));
    assert!(matches!(r, Err(AudioError::PlaybackFailed(_))));
    assert_eq!(player.get_state(), AudioState::Stopped);
    assert_eq!(player.get_current_track(), None);
}

#[test]
fn second_play_replaces_the_first_track() {
    let mut player = AudioPlayer::new();
    assert!(player.play("trackA.mp3".to_string(), ok()).is_ok());
    assert!(player.play("trackB.mp3".to_string(), ok()).is_ok());
    assert_eq!(player.get_current_track(), Some("trackB.mp3".to_string()));
    assert_eq!(player.get_state(), AudioState::Playing);
}

#[test]
fn set_volume_clamps_into_range() {
    let mut player = AudioPlayer::new();
    // a full unit below zero
    assert!(player.set_volume(-1000).is_ok());
    assert_eq!(player.get_volume(), 0);
    // five times full scale
    assert!(player.set_volume(5000).is_ok());
    assert_eq!(player.get_volume(), 1000);
    // exactly in range
    assert!(player.set_volume(420).is_ok());
    assert_eq!(player.get_volume(), 420);
}

#[test]
fn mutating_calls_after_shutdown_report_disconnection() {
    let mut player = AudioPlayer::new();
    assert!(player.play("a.mp3".to_string(), ok()).is_ok());
    player.shutdown();
    assert!(!player.is_alive());
    assert_eq!(player.get_state(), AudioState::Stopped);
    assert_eq!(player.get_current_track(), None);

    assert!(matches!(player.play("b.mp3".to_string(), ok()), Err(AudioError::Disconnected)));
    assert!(matches!(player.pause(), Err(AudioError::Disconnected)));
    assert!(matches!(player.resume(), Err(AudioError::Disconnected)));
    assert!(matches!(player.stop(), Err(AudioError::Disconnected)));
    assert!(matches!(player.set_volume(500), Err(AudioError::Disconnected)));
    assert_eq!(player.get_state(), AudioState::Stopped);
}

#[test]
fn end_to_end_playback_scenario() {
    let mut player = AudioPlayer::new();
    assert!(player.play("a.mp3".to_string(), ok()).is_ok());
    assert_eq!(player.get_state(), AudioState::Playing);
    assert_eq!(player.get_current_track(), Some("a.mp3".to_string()));
    assert!(player.pause().is_ok());
    assert_eq!(player.get_state(), AudioState::Paused);
    assert!(player.resume().is_ok());
    assert_eq!(player.get_state(), AudioState::Playing);
    assert!(player.stop().is_ok());
    assert_eq!(player.get_state(), AudioState::Stopped);
    assert_eq!(player.get_current_track(), None);
}

#[test]
fn stop_is_idempotent() {
    let mut player = AudioPlayer::new();
    assert!(player.stop().is_ok());
    assert!(player.stop().is_ok());
    assert_eq!(player.get_state(), AudioState::Stopped);
}

#[test]
fn probe_steps_follow_the_tolerance_policy() {
    assert_eq!(probe_step(10, &PacketEvent::Frames { count: 5 }), (15, ProbeAction::Proceed));
    assert_eq!(probe_step(10, &PacketEvent::OtherTrack), (10, ProbeAction::Proceed));
    assert_eq!(probe_step(10, &PacketEvent::CorruptPacket), (10, ProbeAction::Proceed));
    assert_eq!(probe_step(10, &PacketEvent::NeedsReset), (10, ProbeAction::Rebuild));
    assert_eq!(probe_step(10, &PacketEvent::EndOfStream), (10, ProbeAction::Finish));
    assert_eq!(probe_step(10, &PacketEvent::Fatal), (10, ProbeAction::Abort));
    assert_eq!(
        probe_step(u64::MAX - 1, &PacketEvent::Frames { count: 7 }),
        (u64::MAX, ProbeAction::Proceed)
    );
}

#[test]
fn tally_skips_corrupt_packets_and_stops_at_stream_end() {
    let events = vec![
        PacketEvent::Frames { count: 100 },
        PacketEvent::CorruptPacket,
        PacketEvent::NeedsReset,
        PacketEvent::Frames { count: 50 },
        PacketEvent::OtherTrack,
        PacketEvent::EndOfStream,
        PacketEvent::Frames { count: 999 },
    ];
    assert_eq!(tally_packets(&events), (150, ProbeAction::Finish));

    let aborted = vec![PacketEvent::Frames { count: 3 }, PacketEvent::Fatal];
    assert_eq!(tally_packets(&aborted), (3, ProbeAction::Abort));

    let drained: Vec<PacketEvent> = vec![PacketEvent::Frames { count: 44100 }];
    assert_eq!(tally_packets(&drained), (44100, ProbeAction::Proceed));
}

#[test]
fn probe_durations_default_to_zero() {
    assert_eq!(duration_seconds(441000, 44100), 10);
    assert_eq!(probe_outcome_seconds(441000, Some(44100)), 10);
    assert_eq!(probe_outcome_seconds(0, Some(44100)), 0);
    assert_eq!(probe_outcome_seconds(441000, Some(0)), 0);
    assert_eq!(probe_outcome_seconds(441000, None), 0);
}

#[test]
fn supported_formats_follow_the_extension() {
    assert!(is_supported_audio_format("/m/track.mp3"));
    assert!(is_supported_audio_format("/m/TRACK.AAC"));
    assert!(!is_supported_audio_format("/m/track.opus"));
    assert!(!is_supported_audio_format("/m/track"));
}
