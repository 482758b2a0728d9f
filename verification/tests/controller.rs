use lcn_core::player::controller::TransportStatus;
use lcn_core::player::controller::{Effects, PipelineCommand, PlayerController, ReconnectTimer};
use lcn_core::player::{playback_text, StreamHealth};

#[test]
fn play_pause_toggle() {
    let mut c = PlayerController::new();
    assert!(!c.is_playing());
    assert_eq!(c.playback_text(), playback_text::READY);
    let e = c.play();
    assert_eq!(e, Effects { cancel_timer: true, pipeline: Some(PipelineCommand::Play), schedule: None, notify: true });
    assert_eq!(c.stream_health(), StreamHealth::Connecting);
    assert_eq!(c.playback_text(), playback_text::CONNECTING);
    c.on_pipeline_playing();
    assert_eq!(c.playback_text(), playback_text::PLAYING);
    let e = c.toggle();
    assert_eq!(e.pipeline, Some(PipelineCommand::Pause));
    assert!(!c.is_playing());
    assert_eq!(c.playback_text(), playback_text::PAUSED);
    assert_eq!(c.toggle().pipeline, Some(PipelineCommand::Play));
    assert!(c.is_playing());
}

#[test]
fn capped_reconnection_then_offline() {
    let mut c = PlayerController::new();
    c.play();
    let mut delays = Vec::new();
    for _ in 0..7 {
        let e = c.on_stream_lost();
        let timer = e.schedule.unwrap();
        delays.push(timer.delay_secs);
        // A second loss while a reconnection is pending does nothing.
        assert_eq!(c.on_stream_lost().schedule, None);
        assert_eq!(c.on_reconnect_due(timer.generation).pipeline, Some(PipelineCommand::Restart));
    }
    assert_eq!(delays, [2, 4, 6, 8, 10, 60, 60]);
    assert_eq!(c.stream_health(), StreamHealth::Failed);
    assert_eq!(c.playback_text(), playback_text::OFFLINE);
    // Effective playback heals: counter reset, « En écoute ».
    c.on_pipeline_playing();
    assert_eq!(c.stream_health(), StreamHealth::Active);
    assert_eq!(c.on_stream_lost().schedule.map(|t| t.delay_secs), Some(2));
}

#[test]
fn stale_timer_is_ignored() {
    let mut c = PlayerController::new();
    c.play();
    let ReconnectTimer { generation, .. } = c.on_stream_lost().schedule.unwrap();
    c.pause();
    c.play();
    assert_eq!(c.on_reconnect_due(generation).pipeline, None);
    c.pause();
    assert_eq!(c.on_stream_lost().schedule, None);
    assert_eq!(c.on_buffering(100).pipeline, None);
    c.play();
    assert_eq!(c.on_buffering(99).pipeline, None);
    assert_eq!(c.on_buffering(100).pipeline, Some(PipelineCommand::Play));
}

#[test]
fn media_control_status() {
    let mut c = PlayerController::new();
    assert_eq!(c.transport_status(), TransportStatus::Paused);
    c.play();
    assert_eq!(c.transport_status(), TransportStatus::Playing);
    for _ in 0..6 {
        let g = c.on_stream_lost().schedule.unwrap().generation;
        c.on_reconnect_due(g);
    }
    c.pause();
    // Pausing publishes « Active / En pause », so the status is paused, not stopped.
    assert_eq!(c.transport_status(), TransportStatus::Paused);
    let failed = PlayerController { health: StreamHealth::Failed, ..PlayerController::new() };
    assert_eq!(failed.transport_status(), TransportStatus::Stopped);
}
