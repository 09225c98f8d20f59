use microclaw::drivers::HostDisplayDriver;
use microclaw::event_loop::{DeviceEventLoop, EventLoopConfig};
use microclaw::pipeline::TouchPipeline;
use microclaw::protocol::{
    DeviceAction, Envelope, MessageId, MessageKind, TouchEventPayload, TouchPhase,
    TransportMessage,
};
use microclaw::renderer::{DisplaySceneRenderer, NullRenderer, RenderStats, SceneRenderer};
use microclaw::runtime::{RuntimeMode, RuntimeState};
use microclaw::ui::Scene;
use serde_json::Value;

fn frame(id: &str, seq: u64, kind: MessageKind, corr_id: Option<&str>) -> TransportMessage {
    let mut envelope = Envelope::new("host", "microclaw-device", "boot", MessageId::new(id));
    envelope.seq = seq;
    TransportMessage {
        envelope,
        kind,
        corr_id: corr_id.map(|c| c.to_string()),
        ttl_ms: None,
        issued_at: Some(0),
        signature: None,
        nonce: None,
        payload: Value::Null,
    }
}

fn touch(phase: TouchPhase, x: u16, y: u16) -> TouchEventPayload {
    TouchEventPayload { pointer_id: 1, phase, x, y, pressure: None, raw_timestamp_ms: None }
}

fn config(render: u64, timeout: u64) -> EventLoopConfig {
    EventLoopConfig { render_interval_ms: render, offline_timeout_ms: timeout }
}

#[test]
fn step_answers_touches_before_frames() {
    let mut state = RuntimeState::new();
    let mut pipeline = TouchPipeline::new();
    let mut renderer = NullRenderer::new();
    let mut event_loop = DeviceEventLoop::new(config(50, 4_000));
    // the retry button of the boot scene, a sample outside the circle, a lifted finger
    pipeline.push_event(touch(TouchPhase::Down, 150, 300));
    pipeline.push_event(touch(TouchPhase::Down, 1, 1));
    pipeline.push_event(touch(TouchPhase::Up, 150, 300));
    let inbound = [frame("h", 5, MessageKind::HelloAck, None)];
    let output = event_loop.step(&mut state, &mut pipeline, &inbound, 1_000, &mut renderer);

    assert_eq!(pipeline.queue_depth(), 0);
    assert_eq!(output.ui_messages, vec!["connected"]);
    assert_eq!(output.outbound.len(), 1);
    // the touch was answered in the boot scene, before the hello connected the device
    assert_eq!(output.outbound[0].payload["action"], "retry");
    assert_eq!(output.outbound[0].envelope.seq, 1);
    assert_eq!(output.outbound[0].issued_at, Some(1_000));
    assert_eq!(output.outbound[0].corr_id.as_deref(), Some("corr-1"));
    assert_eq!(state.in_flight_count(), 1);
    assert_eq!(state.last_seq(), 5);
    assert_eq!(*state.mode(), RuntimeMode::Connected);
    assert!(output.rendered);
    assert!(!output.offline_entered);
}

#[test]
fn step_notes_acknowledgements_and_resolves_commands() {
    let mut state = RuntimeState::new();
    let mut pipeline = TouchPipeline::new();
    let mut renderer = NullRenderer::new();
    let mut event_loop = DeviceEventLoop::new(config(0, 4_000));
    let sent = state.emit_command_at(DeviceAction::StatusGet, 0);
    let inbound = [
        frame("a", 10, MessageKind::CommandAck, sent.corr_id.as_deref()),
        frame("a", 11, MessageKind::Heartbeat, None),
        frame("b", 12, MessageKind::Error, None),
        frame("c", 13, MessageKind::Heartbeat, None),
    ];
    let output = event_loop.step(&mut state, &mut pipeline, &inbound, 5, &mut renderer);
    assert_eq!(
        output.ui_messages,
        vec!["command_ack", "replay_or_duplicate_rejected", "host_error"]
    );
    assert!(output.outbound.is_empty());
    assert_eq!(state.in_flight_count(), 0);
    assert_eq!(state.last_seq(), 13);
}

#[test]
fn step_reports_a_stale_heartbeat_once() {
    let mut state = RuntimeState::new();
    let mut pipeline = TouchPipeline::new();
    let mut renderer = NullRenderer::new();
    let mut event_loop = DeviceEventLoop::new(config(0, 100));
    let inbound = [frame("h", 1, MessageKind::HelloAck, None)];
    let output = event_loop.step(&mut state, &mut pipeline, &inbound, 0, &mut renderer);
    assert!(!output.offline_entered);
    let output = event_loop.step(&mut state, &mut pipeline, &[], 100, &mut renderer);
    assert!(!output.offline_entered);
    assert!(!output.rendered);
    let output = event_loop.step(&mut state, &mut pipeline, &[], 101, &mut renderer);
    assert!(output.offline_entered);
    assert!(output.rendered);
    assert_eq!(*state.mode(), RuntimeMode::Offline);
    assert_eq!(state.offline_since_ms(), Some(101));
    let output = event_loop.step(&mut state, &mut pipeline, &[], 500, &mut renderer);
    assert!(!output.offline_entered);
    assert!(output.ui_messages.is_empty());
}

#[test]
fn step_renders_no_more_often_than_the_interval() {
    let mut state = RuntimeState::new();
    let mut pipeline = TouchPipeline::new();
    let mut renderer = DisplaySceneRenderer::new(HostDisplayDriver::new(360, 360));
    let mut event_loop = DeviceEventLoop::new(config(50, u64::MAX));
    assert!(event_loop.step(&mut state, &mut pipeline, &[], 1_000, &mut renderer).rendered);
    let hello = [frame("h", 1, MessageKind::HelloAck, None)];
    // the scene changed, but the interval has not passed
    assert!(!event_loop.step(&mut state, &mut pipeline, &hello, 1_049, &mut renderer).rendered);
    assert!(event_loop.step(&mut state, &mut pipeline, &[], 1_050, &mut renderer).rendered);
    // the interval has passed, but the scene is the same
    assert!(!event_loop.step(&mut state, &mut pipeline, &[], 1_100, &mut renderer).rendered);
    // a clock that went back renders nothing
    assert!(!event_loop.step(&mut state, &mut pipeline, &[], 10, &mut renderer).rendered);
    assert_eq!(
        *renderer.stats(),
        RenderStats { frames_requested: 3, scenes_rendered: 2 }
    );
}

#[test]
fn null_renderer_repaints_on_scene_change_only() {
    let mut state = RuntimeState::new();
    let mut renderer = NullRenderer::new();
    assert_eq!(*renderer.stats(), RenderStats::new());
    assert!(renderer.render(&state, 0));
    assert!(!renderer.render(&state, 1));
    state.mark_error_with_reason("x");
    assert_eq!(state.scene(), Scene::Error);
    assert!(renderer.render(&state, 2));
    assert!(!renderer.render(&state, 3));
    assert_eq!(*renderer.stats(), RenderStats { frames_requested: 4, scenes_rendered: 2 });
}

#[test]
fn display_renderer_can_be_forced_to_repaint() {
    let state = RuntimeState::new();
    let mut renderer = DisplaySceneRenderer::new(HostDisplayDriver::new(360, 360));
    assert!(renderer.render(&state, 0));
    assert!(!renderer.render(&state, 1));
    renderer.force_render_once();
    assert!(renderer.render(&state, 2));
    assert!(!renderer.render(&state, 3));
    assert_eq!(*renderer.stats(), RenderStats { frames_requested: 4, scenes_rendered: 2 });
    assert_eq!(RenderStats::default(), RenderStats::new());
}
