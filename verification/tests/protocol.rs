use microclaw::protocol::{
    parse_command, parse_status, parse_touch, version_arg, DeviceAction, DeviceStatus, Envelope,
    MessageId, MessageKind, TouchEventPayload, TouchPhase, TransportMessage,
};
use serde_json::Value;

fn json(text: &str) -> Value {
    serde_json::from_str(text).expect("valid json")
}

#[test]
fn creates_envelope_with_seq() {
    let env = Envelope::new("device", "dev1", "sess_default", MessageId::new("m1"));
    assert_eq!(env.seq, 1);
}

#[test]
fn transport_message_expires() {
    let message = TransportMessage {
        envelope: Envelope::new("host", "dev1", "sess", MessageId::new("m1")),
        kind: MessageKind::Heartbeat,
        corr_id: None,
        ttl_ms: Some(100),
        issued_at: Some(0),
        signature: None,
        nonce: None,
        payload: Value::Null,
    };

    assert!(message.is_expired(200));
    assert!(!message.is_expired(50));
}

#[test]
fn message_kind_roundtrip() {
    let serialized = json(
        r#"{"v":1,"seq":1,"source":"host","device_id":"d","session_id":"s","message_id":"m","kind":"command"}"#,
    );
    let parsed: TransportMessage = TransportMessage::from_json(&serialized).unwrap();
    assert_eq!(parsed.kind, MessageKind::Command);
    assert_eq!(parsed.envelope.seq, 1);
}

#[test]
fn can_parse_device_command_payload() {
    let frame = TransportMessage {
        envelope: Envelope::new("host", "d", "s", MessageId::new("c1")),
        kind: MessageKind::Command,
        corr_id: None,
        ttl_ms: None,
        issued_at: None,
        signature: None,
        nonce: None,
        payload: json(
            r#"{
            "action": "reconnect",
            "args": {"source":"host"}
        }"#,
        ),
    };

    let command = frame
        .as_device_command()
        .expect("command payload should parse");
    assert_eq!(command.action, DeviceAction::Reconnect);
    assert_eq!(command.args["source"], "host");
}

#[test]
fn can_parse_touch_event_payload() {
    let frame = TransportMessage {
        envelope: Envelope::new("touch", "d", "s", MessageId::new("t1")),
        kind: MessageKind::TouchEvent,
        corr_id: None,
        ttl_ms: None,
        issued_at: None,
        signature: None,
        nonce: None,
        payload: json(
            r#"{
            "phase":"down",
            "x":12,
            "y":34,
            "pointer_id":1,
            "pressure":512
        }"#,
        ),
    };

    let touch: TouchEventPayload = frame.as_touch_event().expect("touch payload should parse");
    assert_eq!(touch.x, 12);
    assert_eq!(touch.y, 34);
    assert_eq!(touch.pressure, Some(512));
    assert_eq!(touch.pointer_id, 1);
}

#[test]
fn envelope_new_fills_every_field() {
    let env = Envelope::new("device", "dev1", "sess_default", MessageId::new("m1"));
    assert_eq!(env.v, 1);
    assert_eq!(env.source, "device");
    assert_eq!(env.device_id, "dev1");
    assert_eq!(env.session_id, "sess_default");
    assert_eq!(env.message_id.as_str(), "m1");
    let copy = env.clone();
    assert_eq!(copy.message_id.as_str(), "m1");
    assert_eq!(copy.seq, 1);
    assert_eq!(copy.source, "device");
}

#[test]
fn message_kind_tokens_round_trip() {
    let kinds = [
        (MessageKind::HelloAck, "hello_ack"),
        (MessageKind::Heartbeat, "heartbeat"),
        (MessageKind::StatusSnapshot, "status_snapshot"),
        (MessageKind::StatusDelta, "status_delta"),
        (MessageKind::Command, "command"),
        (MessageKind::HostCommand, "host_command"),
        (MessageKind::CommandAck, "command_ack"),
        (MessageKind::CommandResult, "command_result"),
        (MessageKind::Error, "error"),
        (MessageKind::TouchEvent, "touch_event"),
        (MessageKind::Unknown, "unknown"),
    ];
    for (kind, token) in kinds {
        assert_eq!(kind.as_str(), token);
        assert_eq!(MessageKind::from_token(token), kind);
    }
    assert_eq!(MessageKind::from_token("Command"), MessageKind::Unknown);
    assert_eq!(MessageKind::from_token(""), MessageKind::Unknown);
    assert_eq!(MessageKind::from_token("command "), MessageKind::Unknown);
}

#[test]
fn device_action_tokens_round_trip() {
    let actions = [
        (DeviceAction::Retry, "retry"),
        (DeviceAction::Restart, "restart"),
        (DeviceAction::Reconnect, "reconnect"),
        (DeviceAction::WifiReconnect, "wifi_reconnect"),
        (DeviceAction::StatusGet, "status_get"),
        (DeviceAction::OpenConversation, "open_conversation"),
        (DeviceAction::Unpair, "unpair"),
        (DeviceAction::SyncNow, "sync_now"),
        (DeviceAction::Mute, "mute"),
        (DeviceAction::EndSession, "end_session"),
        (DeviceAction::OtaStart, "ota_start"),
        (DeviceAction::DiagnosticsSnapshot, "diagnostics_snapshot"),
        (DeviceAction::Unknown, "unknown"),
    ];
    for (action, token) in actions {
        assert_eq!(action.as_str(), token);
        assert_eq!(DeviceAction::from_token(token), action);
    }
    assert_eq!(DeviceAction::from_token("self_destruct"), DeviceAction::Unknown);
}

#[test]
fn touch_phase_tokens_round_trip() {
    let phases = [
        (TouchPhase::Down, "down"),
        (TouchPhase::Move, "move"),
        (TouchPhase::Up, "up"),
        (TouchPhase::Cancel, "cancel"),
        (TouchPhase::Unknown, "unknown"),
    ];
    for (phase, token) in phases {
        assert_eq!(phase.as_str(), token);
        assert_eq!(TouchPhase::from_token(token), phase);
    }
    assert_eq!(TouchPhase::from_token("hover"), TouchPhase::Unknown);
}

#[test]
fn expiry_needs_both_times_and_is_strict() {
    let mut message = TransportMessage {
        envelope: Envelope::new("host", "dev1", "sess", MessageId::new("m1")),
        kind: MessageKind::Heartbeat,
        corr_id: None,
        ttl_ms: Some(100),
        issued_at: Some(50),
        signature: None,
        nonce: None,
        payload: Value::Null,
    };
    assert!(!message.is_expired(150));
    assert!(message.is_expired(151));
    message.ttl_ms = None;
    assert!(!message.is_expired(u64::MAX));
    message.ttl_ms = Some(100);
    message.issued_at = None;
    assert!(!message.is_expired(u64::MAX));
    // a deadline beyond the end of time never passes
    message.issued_at = Some(u64::MAX);
    message.ttl_ms = Some(1);
    assert!(!message.is_expired(u64::MAX));
    message.issued_at = Some(u64::MAX - 1);
    assert!(!message.is_expired(u64::MAX));
    message.issued_at = Some(u64::MAX - 2);
    assert!(message.is_expired(u64::MAX));
}

#[test]
fn frame_decoding_reads_every_member() {
    let doc = json(
        r#"{"v":2,"seq":18446744073709551615,"source":"host","device_id":"d","session_id":"s",
            "message_id":"m","kind":"command_ack","corr_id":"corr-9","ttl_ms":500,
            "issued_at":1000,"signature":"sig","nonce":"n1","payload":{"a":[1,2]}}"#,
    );
    let frame = TransportMessage::from_json(&doc).expect("frame");
    assert_eq!(frame.envelope.v, 2);
    assert_eq!(frame.envelope.seq, u64::MAX);
    assert_eq!(frame.envelope.source, "host");
    assert_eq!(frame.envelope.device_id, "d");
    assert_eq!(frame.envelope.session_id, "s");
    assert_eq!(frame.envelope.message_id.as_str(), "m");
    assert_eq!(frame.kind, MessageKind::CommandAck);
    assert_eq!(frame.corr_id.as_deref(), Some("corr-9"));
    assert_eq!(frame.ttl_ms, Some(500));
    assert_eq!(frame.issued_at, Some(1000));
    assert_eq!(frame.signature.as_deref(), Some("sig"));
    assert_eq!(frame.nonce.as_deref(), Some("n1"));
    assert_eq!(frame.payload, json(r#"{"a":[1,2]}"#));
    let copy = frame.clone();
    assert_eq!(copy.payload, frame.payload);
    assert_eq!(copy.corr_id, frame.corr_id);
}

#[test]
fn frame_decoding_defaults_and_unknown_kinds() {
    let doc = json(
        r#"{"v":1,"seq":0,"source":"","device_id":"","session_id":"","message_id":"",
            "kind":"telemetry","corr_id":null,"ttl_ms":null}"#,
    );
    let frame = TransportMessage::from_json(&doc).expect("frame");
    assert_eq!(frame.kind, MessageKind::Unknown);
    assert_eq!(frame.corr_id, None);
    assert_eq!(frame.ttl_ms, None);
    assert_eq!(frame.issued_at, None);
    assert_eq!(frame.signature, None);
    assert_eq!(frame.nonce, None);
    assert_eq!(frame.payload, Value::Null);
}

#[test]
fn frame_decoding_refuses_malformed_documents() {
    let base = r#""seq":1,"source":"h","device_id":"d","session_id":"s","message_id":"m","kind":"error""#;
    let refused = [
        "null".to_string(),
        "[]".to_string(),
        format!("{{{}}}", base),
        format!(r#"{{"v":256,{}}}"#, base),
        format!(r#"{{"v":-1,{}}}"#, base),
        format!(r#"{{"v":1.5,{}}}"#, base),
        format!(r#"{{"v":"1",{}}}"#, base),
        format!(r#"{{"v":1,{},"corr_id":7}}"#, base),
        format!(r#"{{"v":1,{},"ttl_ms":"soon"}}"#, base),
        format!(r#"{{"v":1,{},"issued_at":-5}}"#, base),
        r#"{"v":1,"seq":1,"source":"h","device_id":"d","session_id":"s","message_id":"m"}"#
            .to_string(),
        r#"{"v":1,"seq":1,"source":"h","device_id":"d","session_id":"s","message_id":5,"kind":"error"}"#
            .to_string(),
        r#"{"v":1,"seq":"1","source":"h","device_id":"d","session_id":"s","message_id":"m","kind":"error"}"#
            .to_string(),
    ];
    for text in refused.iter() {
        assert!(TransportMessage::from_json(&json(text)).is_none(), "{}", text);
    }
    let accepted = format!(r#"{{"v":255,{}}}"#, base);
    assert!(TransportMessage::from_json(&json(&accepted)).is_some());
}

#[test]
fn status_needs_wifi_and_checks_member_types() {
    let status: DeviceStatus = parse_status(&json(
        r#"{"wifi_ok":true,"host_reachable":true,"mode":"ready","scene":null,"extra":[1]}"#,
    ))
    .expect("status");
    assert!(status.wifi_ok);
    assert!(status.host_reachable);
    assert_eq!(status.mode.as_deref(), Some("ready"));
    assert_eq!(status.scene, None);
    assert_eq!(status.ota_state, None);
    let copy = status.clone();
    assert_eq!(copy.mode, status.mode);
    let lean = parse_status(&json(r#"{"wifi_ok":false}"#)).expect("status");
    assert!(!lean.wifi_ok);
    assert!(!lean.host_reachable);
    assert!(parse_status(&json("{}")).is_none());
    assert!(parse_status(&json(r#"{"connected":true}"#)).is_none());
    assert!(parse_status(&json(r#"{"wifi_ok":1}"#)).is_none());
    assert!(parse_status(&json(r#"{"wifi_ok":null}"#)).is_none());
    assert!(parse_status(&json(r#"{"wifi_ok":true,"host_reachable":"yes"}"#)).is_none());
    assert!(parse_status(&json(r#"{"wifi_ok":true,"scene":3}"#)).is_none());
    assert!(parse_status(&json(r#"{"wifi_ok":true,"ota_state":false}"#)).is_none());
    assert!(parse_status(&json(r#"[true]"#)).is_none());
    let initial = DeviceStatus::default();
    assert!(!initial.wifi_ok && !initial.host_reachable);
    assert!(initial.mode.is_none() && initial.scene.is_none() && initial.ota_state.is_none());
}

#[test]
fn command_args_default_to_null() {
    let command = parse_command(&json(r#"{"action":"mute"}"#)).expect("command");
    assert_eq!(command.action, DeviceAction::Mute);
    assert_eq!(command.args, Value::Null);
    assert_eq!(version_arg(&command.args), None);
    let odd = parse_command(&json(r#"{"action":"fly","args":[1]}"#)).expect("command");
    assert_eq!(odd.action, DeviceAction::Unknown);
    assert_eq!(odd.args, json("[1]"));
    assert_eq!(version_arg(&json(r#"{"version":"9"}"#)).as_deref(), Some("9"));
    assert_eq!(version_arg(&json(r#"{"version":9}"#)), None);
    assert_eq!(version_arg(&json(r#"{"Version":"9"}"#)), None);
}

#[test]
fn touch_payload_checks_ranges() {
    let full = parse_touch(&json(
        r#"{"phase":"move","x":65535,"y":0,"pointer_id":4294967295,"pressure":65535,
            "raw_timestamp_ms":18446744073709551615}"#,
    ))
    .expect("touch");
    assert_eq!(
        full,
        TouchEventPayload {
            pointer_id: u32::MAX,
            phase: TouchPhase::Move,
            x: u16::MAX,
            y: 0,
            pressure: Some(u16::MAX),
            raw_timestamp_ms: Some(u64::MAX),
        }
    );
    let lean = parse_touch(&json(r#"{"phase":"wave","x":1,"y":2,"pointer_id":3}"#)).expect("touch");
    assert_eq!(lean.phase, TouchPhase::Unknown);
    assert_eq!(lean.pressure, None);
    assert_eq!(lean.raw_timestamp_ms, None);
    let refused = [
        r#"{"phase":"down","x":65536,"y":0,"pointer_id":1}"#,
        r#"{"phase":"down","x":0,"y":65536,"pointer_id":1}"#,
        r#"{"phase":"down","x":0,"y":0,"pointer_id":4294967296}"#,
        r#"{"phase":"down","x":0,"y":0,"pointer_id":1,"pressure":65536}"#,
        r#"{"phase":"down","x":-1,"y":0,"pointer_id":1}"#,
        r#"{"phase":"down","x":0.5,"y":0,"pointer_id":1}"#,
        r#"{"phase":"down","y":0,"pointer_id":1}"#,
        r#"{"phase":"down","x":0,"y":0}"#,
        r#"{"x":0,"y":0,"pointer_id":1}"#,
        r#"{"phase":1,"x":0,"y":0,"pointer_id":1}"#,
        r#"{"phase":"down","x":0,"y":0,"pointer_id":1,"raw_timestamp_ms":"now"}"#,
        "null",
    ];
    for text in refused.iter() {
        assert_eq!(parse_touch(&json(text)), None, "{}", text);
    }
}

#[test]
fn frame_encoding_writes_every_member_and_reads_back() {
    let doc = json(
        r#"{"v":2,"seq":18446744073709551615,"source":"host","device_id":"d","session_id":"s",
            "message_id":"m","kind":"command_ack","corr_id":"corr-9","ttl_ms":500,
            "issued_at":1000,"signature":"sig","nonce":"n1","payload":{"a":[1,2]}}"#,
    );
    let frame = TransportMessage::from_json(&doc).expect("frame");
    assert_eq!(frame.to_json(), doc);
    let lean = TransportMessage {
        envelope: Envelope::new("host", "dev1", "sess", MessageId::new("m1")),
        kind: MessageKind::Heartbeat,
        corr_id: None,
        ttl_ms: None,
        issued_at: Some(0),
        signature: None,
        nonce: None,
        payload: Value::Null,
    };
    assert_eq!(
        lean.to_json(),
        json(
            r#"{"v":1,"seq":1,"source":"host","device_id":"dev1","session_id":"sess",
                "message_id":"m1","kind":"heartbeat","issued_at":0,"payload":null}"#
        )
    );
    let back = TransportMessage::from_json(&lean.to_json()).expect("frame");
    assert_eq!(back.envelope.message_id.as_str(), "m1");
    assert_eq!(back.kind, MessageKind::Heartbeat);
    assert_eq!(back.issued_at, Some(0));
    assert_eq!(back.corr_id, None);
    assert_eq!(back.payload, Value::Null);
}
