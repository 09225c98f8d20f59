//! The message vocabulary shared by the device and the host: identifiers,
//! envelopes, the closed sets of kinds, actions and touch phases with their
//! wire tokens, and the typed payloads that travel inside a frame.

use crate::json::{
    json_as_bool, json_as_str, json_as_u64, json_clone, json_insert, json_is_null, json_member,
    json_model, json_null, json_object, json_text, json_unsigned, JsonModel,
};
use crate::text::{opt_string_view, str_eq};
use vstd::prelude::*;
use vstd::string::*;

verus! {

/// Copies an optional string.
pub fn clone_opt_string(text: &Option<String>) -> (copy: Option<String>)
    ensures
        opt_string_view(copy) == opt_string_view(*text),
{
    match text {
        Some(s) => Some(s.clone()),
        None => None,
    }
}

/// Opaque identity of a single transport frame; equality defines replay.
#[derive(Debug)]
pub struct MessageId(String);

impl View for MessageId {
    type V = Seq<char>;

    closed spec fn view(&self) -> Seq<char> {
        self.0@
    }
}

impl MessageId {
    pub fn new(v: &str) -> (id: Self)
        ensures
            id@ == v@,
    {
        MessageId(v.to_owned())
    }

    pub fn as_str(&self) -> (text: &str)
        ensures
            text@ == self@,
    {
        self.0.as_str()
    }
}

impl Clone for MessageId {
    fn clone(&self) -> (copy: Self)
        ensures
            copy@ == self@,
    {
        MessageId(self.0.clone())
    }
}

/// The addressing and ordering tuple attached to every frame.
#[derive(Debug)]
pub struct Envelope {
    pub v: u8,
    pub seq: u64,
    pub source: String,
    pub device_id: String,
    pub session_id: String,
    pub message_id: MessageId,
}

/// What an [`Envelope`] holds.
pub struct EnvelopeModel {
    pub v: u8,
    pub seq: u64,
    pub source: Seq<char>,
    pub device_id: Seq<char>,
    pub session_id: Seq<char>,
    pub message_id: Seq<char>,
}

impl View for Envelope {
    type V = EnvelopeModel;

    open spec fn view(&self) -> EnvelopeModel {
        EnvelopeModel {
            v: self.v,
            seq: self.seq,
            source: self.source@,
            device_id: self.device_id@,
            session_id: self.session_id@,
            message_id: self.message_id@,
        }
    }
}

impl Envelope {
    /// A first-version envelope with sequence number 1.
    pub fn new(source: &str, device_id: &str, session_id: &str, message_id: MessageId) -> (env:
        Self)
        ensures
            env@ == (EnvelopeModel {
                v: 1,
                seq: 1,
                source: source@,
                device_id: device_id@,
                session_id: session_id@,
                message_id: message_id@,
            }),
    {
        Envelope {
            v: 1,
            seq: 1,
            source: source.to_owned(),
            device_id: device_id.to_owned(),
            session_id: session_id.to_owned(),
            message_id,
        }
    }
}

impl Clone for Envelope {
    fn clone(&self) -> (copy: Self)
        ensures
            copy@ == self@,
    {
        Envelope {
            v: self.v,
            seq: self.seq,
            source: self.source.clone(),
            device_id: self.device_id.clone(),
            session_id: self.session_id.clone(),
            message_id: self.message_id.clone(),
        }
    }
}

/// The closed set of frame kinds. A token that names none of them decodes to
/// `Unknown`.
#[derive(Clone, Copy, Debug, PartialEq, Eq, Structural)]
pub enum MessageKind {
    HelloAck,
    Heartbeat,
    StatusSnapshot,
    StatusDelta,
    Command,
    HostCommand,
    CommandAck,
    CommandResult,
    Error,
    TouchEvent,
    Unknown,
}

impl MessageKind {
    /// The wire token of each kind.
    pub open spec fn spec_token(self) -> Seq<char> {
        match self {
            MessageKind::HelloAck => "hello_ack"@,
            MessageKind::Heartbeat => "heartbeat"@,
            MessageKind::StatusSnapshot => "status_snapshot"@,
            MessageKind::StatusDelta => "status_delta"@,
            MessageKind::Command => "command"@,
            MessageKind::HostCommand => "host_command"@,
            MessageKind::CommandAck => "command_ack"@,
            MessageKind::CommandResult => "command_result"@,
            MessageKind::Error => "error"@,
            MessageKind::TouchEvent => "touch_event"@,
            MessageKind::Unknown => "unknown"@,
        }
    }

    /// The kind that a wire token names.
    pub open spec fn spec_from_token(token: Seq<char>) -> MessageKind {
        if token == "hello_ack"@ {
            MessageKind::HelloAck
        } else if token == "heartbeat"@ {
            MessageKind::Heartbeat
        } else if token == "status_snapshot"@ {
            MessageKind::StatusSnapshot
        } else if token == "status_delta"@ {
            MessageKind::StatusDelta
        } else if token == "command"@ {
            MessageKind::Command
        } else if token == "host_command"@ {
            MessageKind::HostCommand
        } else if token == "command_ack"@ {
            MessageKind::CommandAck
        } else if token == "command_result"@ {
            MessageKind::CommandResult
        } else if token == "error"@ {
            MessageKind::Error
        } else if token == "touch_event"@ {
            MessageKind::TouchEvent
        } else {
            MessageKind::Unknown
        }
    }

    pub fn as_str(&self) -> (token: &'static str)
        ensures
            token@ == self.spec_token(),
    {
        match self {
            MessageKind::HelloAck => "hello_ack",
            MessageKind::Heartbeat => "heartbeat",
            MessageKind::StatusSnapshot => "status_snapshot",
            MessageKind::StatusDelta => "status_delta",
            MessageKind::Command => "command",
            MessageKind::HostCommand => "host_command",
            MessageKind::CommandAck => "command_ack",
            MessageKind::CommandResult => "command_result",
            MessageKind::Error => "error",
            MessageKind::TouchEvent => "touch_event",
            MessageKind::Unknown => "unknown",
        }
    }

    pub fn from_token(token: &str) -> (kind: MessageKind)
        ensures
            kind == MessageKind::spec_from_token(token@),
    {
        if str_eq(token, "hello_ack") {
            MessageKind::HelloAck
        } else if str_eq(token, "heartbeat") {
            MessageKind::Heartbeat
        } else if str_eq(token, "status_snapshot") {
            MessageKind::StatusSnapshot
        } else if str_eq(token, "status_delta") {
            MessageKind::StatusDelta
        } else if str_eq(token, "command") {
            MessageKind::Command
        } else if str_eq(token, "host_command") {
            MessageKind::HostCommand
        } else if str_eq(token, "command_ack") {
            MessageKind::CommandAck
        } else if str_eq(token, "command_result") {
            MessageKind::CommandResult
        } else if str_eq(token, "error") {
            MessageKind::Error
        } else if str_eq(token, "touch_event") {
            MessageKind::TouchEvent
        } else {
            MessageKind::Unknown
        }
    }
}

/// Decoding the token of a kind gives that kind back.
pub proof fn message_kind_token_roundtrip(kind: MessageKind)
    ensures
        MessageKind::spec_from_token(kind.spec_token()) == kind,
{
    reveal_strlit("hello_ack");
    reveal_strlit("heartbeat");
    reveal_strlit("status_snapshot");
    reveal_strlit("status_delta");
    reveal_strlit("command");
    reveal_strlit("host_command");
    reveal_strlit("command_ack");
    reveal_strlit("command_result");
    reveal_strlit("error");
    reveal_strlit("touch_event");
    reveal_strlit("unknown");
    assert("hello_ack"@.len() == 9);
    assert("heartbeat"@.len() == 9);
    assert("status_snapshot"@.len() == 15);
    assert("status_delta"@.len() == 12);
    assert("command"@.len() == 7);
    assert("host_command"@.len() == 12);
    assert("command_ack"@.len() == 11);
    assert("command_result"@.len() == 14);
    assert("error"@.len() == 5);
    assert("touch_event"@.len() == 11);
    assert("unknown"@.len() == 7);
    assert("hello_ack"@[2] == 'l' && "heartbeat"@[2] == 'a');
    assert("status_delta"@[0] == 's' && "host_command"@[0] == 'h');
    assert("command_ack"@[0] == 'c' && "touch_event"@[0] == 't');
    assert("command"@[0] == 'c' && "unknown"@[0] == 'u');
}

/// The closed set of commands the device can issue or receive. A token that
/// names none of them decodes to `Unknown`.
#[derive(Clone, Copy, Debug, PartialEq, Eq, Structural)]
pub enum DeviceAction {
    Retry,
    Restart,
    Reconnect,
    WifiReconnect,
    StatusGet,
    OpenConversation,
    Unpair,
    SyncNow,
    Mute,
    EndSession,
    OtaStart,
    DiagnosticsSnapshot,
    Unknown,
}

impl DeviceAction {
    /// The wire token of each action.
    pub open spec fn spec_token(self) -> Seq<char> {
        match self {
            DeviceAction::Retry => "retry"@,
            DeviceAction::Restart => "restart"@,
            DeviceAction::Reconnect => "reconnect"@,
            DeviceAction::WifiReconnect => "wifi_reconnect"@,
            DeviceAction::StatusGet => "status_get"@,
            DeviceAction::OpenConversation => "open_conversation"@,
            DeviceAction::Unpair => "unpair"@,
            DeviceAction::SyncNow => "sync_now"@,
            DeviceAction::Mute => "mute"@,
            DeviceAction::EndSession => "end_session"@,
            DeviceAction::OtaStart => "ota_start"@,
            DeviceAction::DiagnosticsSnapshot => "diagnostics_snapshot"@,
            DeviceAction::Unknown => "unknown"@,
        }
    }

    /// The action that a wire token names.
    pub open spec fn spec_from_token(token: Seq<char>) -> DeviceAction {
        if token == "retry"@ {
            DeviceAction::Retry
        } else if token == "restart"@ {
            DeviceAction::Restart
        } else if token == "reconnect"@ {
            DeviceAction::Reconnect
        } else if token == "wifi_reconnect"@ {
            DeviceAction::WifiReconnect
        } else if token == "status_get"@ {
            DeviceAction::StatusGet
        } else if token == "open_conversation"@ {
            DeviceAction::OpenConversation
        } else if token == "unpair"@ {
            DeviceAction::Unpair
        } else if token == "sync_now"@ {
            DeviceAction::SyncNow
        } else if token == "mute"@ {
            DeviceAction::Mute
        } else if token == "end_session"@ {
            DeviceAction::EndSession
        } else if token == "ota_start"@ {
            DeviceAction::OtaStart
        } else if token == "diagnostics_snapshot"@ {
            DeviceAction::DiagnosticsSnapshot
        } else {
            DeviceAction::Unknown
        }
    }

    pub fn as_str(&self) -> (token: &'static str)
        ensures
            token@ == self.spec_token(),
    {
        match self {
            DeviceAction::Retry => "retry",
            DeviceAction::Restart => "restart",
            DeviceAction::Reconnect => "reconnect",
            DeviceAction::WifiReconnect => "wifi_reconnect",
            DeviceAction::StatusGet => "status_get",
            DeviceAction::OpenConversation => "open_conversation",
            DeviceAction::Unpair => "unpair",
            DeviceAction::SyncNow => "sync_now",
            DeviceAction::Mute => "mute",
            DeviceAction::EndSession => "end_session",
            DeviceAction::OtaStart => "ota_start",
            DeviceAction::DiagnosticsSnapshot => "diagnostics_snapshot",
            DeviceAction::Unknown => "unknown",
        }
    }

    pub fn from_token(token: &str) -> (action: DeviceAction)
        ensures
            action == DeviceAction::spec_from_token(token@),
    {
        if str_eq(token, "retry") {
            DeviceAction::Retry
        } else if str_eq(token, "restart") {
            DeviceAction::Restart
        } else if str_eq(token, "reconnect") {
            DeviceAction::Reconnect
        } else if str_eq(token, "wifi_reconnect") {
            DeviceAction::WifiReconnect
        } else if str_eq(token, "status_get") {
            DeviceAction::StatusGet
        } else if str_eq(token, "open_conversation") {
            DeviceAction::OpenConversation
        } else if str_eq(token, "unpair") {
            DeviceAction::Unpair
        } else if str_eq(token, "sync_now") {
            DeviceAction::SyncNow
        } else if str_eq(token, "mute") {
            DeviceAction::Mute
        } else if str_eq(token, "end_session") {
            DeviceAction::EndSession
        } else if str_eq(token, "ota_start") {
            DeviceAction::OtaStart
        } else if str_eq(token, "diagnostics_snapshot") {
            DeviceAction::DiagnosticsSnapshot
        } else {
            DeviceAction::Unknown
        }
    }
}

/// Decoding the token of an action gives that action back.
pub proof fn device_action_token_roundtrip(action: DeviceAction)
    ensures
        DeviceAction::spec_from_token(action.spec_token()) == action,
{
    reveal_strlit("retry");
    reveal_strlit("restart");
    reveal_strlit("reconnect");
    reveal_strlit("wifi_reconnect");
    reveal_strlit("status_get");
    reveal_strlit("open_conversation");
    reveal_strlit("unpair");
    reveal_strlit("sync_now");
    reveal_strlit("mute");
    reveal_strlit("end_session");
    reveal_strlit("ota_start");
    reveal_strlit("diagnostics_snapshot");
    reveal_strlit("unknown");
    assert("retry"@.len() == 5);
    assert("restart"@.len() == 7);
    assert("reconnect"@.len() == 9);
    assert("wifi_reconnect"@.len() == 14);
    assert("status_get"@.len() == 10);
    assert("open_conversation"@.len() == 17);
    assert("unpair"@.len() == 6);
    assert("sync_now"@.len() == 8);
    assert("mute"@.len() == 4);
    assert("end_session"@.len() == 11);
    assert("ota_start"@.len() == 9);
    assert("diagnostics_snapshot"@.len() == 20);
    assert("unknown"@.len() == 7);
    assert("reconnect"@[0] == 'r' && "ota_start"@[0] == 'o');
    assert("restart"@[0] == 'r' && "unknown"@[0] == 'u');
}

/// The phase of a touch sample. A token that names none of them decodes to
/// `Unknown`.
#[derive(Clone, Copy, Debug, PartialEq, Eq, Structural)]
pub enum TouchPhase {
    Down,
    Move,
    Up,
    Cancel,
    Unknown,
}

impl TouchPhase {
    /// The wire token of each phase.
    pub open spec fn spec_token(self) -> Seq<char> {
        match self {
            TouchPhase::Down => "down"@,
            TouchPhase::Move => "move"@,
            TouchPhase::Up => "up"@,
            TouchPhase::Cancel => "cancel"@,
            TouchPhase::Unknown => "unknown"@,
        }
    }

    /// The phase that a wire token names.
    pub open spec fn spec_from_token(token: Seq<char>) -> TouchPhase {
        if token == "down"@ {
            TouchPhase::Down
        } else if token == "move"@ {
            TouchPhase::Move
        } else if token == "up"@ {
            TouchPhase::Up
        } else if token == "cancel"@ {
            TouchPhase::Cancel
        } else {
            TouchPhase::Unknown
        }
    }

    pub fn as_str(&self) -> (token: &'static str)
        ensures
            token@ == self.spec_token(),
    {
        match self {
            TouchPhase::Down => "down",
            TouchPhase::Move => "move",
            TouchPhase::Up => "up",
            TouchPhase::Cancel => "cancel",
            TouchPhase::Unknown => "unknown",
        }
    }

    pub fn from_token(token: &str) -> (phase: TouchPhase)
        ensures
            phase == TouchPhase::spec_from_token(token@),
    {
        if str_eq(token, "down") {
            TouchPhase::Down
        } else if str_eq(token, "move") {
            TouchPhase::Move
        } else if str_eq(token, "up") {
            TouchPhase::Up
        } else if str_eq(token, "cancel") {
            TouchPhase::Cancel
        } else {
            TouchPhase::Unknown
        }
    }
}

/// Decoding the token of a phase gives that phase back.
pub proof fn touch_phase_token_roundtrip(phase: TouchPhase)
    ensures
        TouchPhase::spec_from_token(phase.spec_token()) == phase,
{
    reveal_strlit("down");
    reveal_strlit("move");
    reveal_strlit("up");
    reveal_strlit("cancel");
    reveal_strlit("unknown");
    assert("down"@.len() == 4);
    assert("move"@.len() == 4);
    assert("up"@.len() == 2);
    assert("cancel"@.len() == 6);
    assert("unknown"@.len() == 7);
    assert("down"@[0] == 'd' && "move"@[0] == 'm');
}

/// One raw touch sample as the touch controller reports it.
#[derive(Clone, Copy, Debug, PartialEq, Eq)]
pub struct TouchEventPayload {
    pub pointer_id: u32,
    pub phase: TouchPhase,
    pub x: u16,
    pub y: u16,
    pub pressure: Option<u16>,
    pub raw_timestamp_ms: Option<u64>,
}

/// The device status that the host reports.
#[derive(Debug)]
pub struct DeviceStatus {
    pub wifi_ok: bool,
    pub host_reachable: bool,
    pub mode: Option<String>,
    pub scene: Option<String>,
    pub ota_state: Option<String>,
}

/// What a [`DeviceStatus`] holds.
pub struct DeviceStatusModel {
    pub wifi_ok: bool,
    pub host_reachable: bool,
    pub mode: Option<Seq<char>>,
    pub scene: Option<Seq<char>>,
    pub ota_state: Option<Seq<char>>,
}

impl DeviceStatusModel {
    /// The status of a device of which nothing has been reported yet.
    pub open spec fn initial() -> DeviceStatusModel {
        DeviceStatusModel {
            wifi_ok: false,
            host_reachable: false,
            mode: None,
            scene: None,
            ota_state: None,
        }
    }
}

impl View for DeviceStatus {
    type V = DeviceStatusModel;

    open spec fn view(&self) -> DeviceStatusModel {
        DeviceStatusModel {
            wifi_ok: self.wifi_ok,
            host_reachable: self.host_reachable,
            mode: opt_string_view(self.mode),
            scene: opt_string_view(self.scene),
            ota_state: opt_string_view(self.ota_state),
        }
    }
}

impl Default for DeviceStatus {
    fn default() -> (status: Self)
        ensures
            status@ == DeviceStatusModel::initial(),
    {
        DeviceStatus {
            wifi_ok: false,
            host_reachable: false,
            mode: None,
            scene: None,
            ota_state: None,
        }
    }
}

impl Clone for DeviceStatus {
    fn clone(&self) -> (copy: Self)
        ensures
            copy@ == self@,
    {
        DeviceStatus {
            wifi_ok: self.wifi_ok,
            host_reachable: self.host_reachable,
            mode: clone_opt_string(&self.mode),
            scene: clone_opt_string(&self.scene),
            ota_state: clone_opt_string(&self.ota_state),
        }
    }
}

/// A command as it travels in the payload of a command frame.
#[derive(Debug)]
pub struct DeviceCommand {
    pub action: DeviceAction,
    pub args: serde_json::Value,
}

/// What a [`DeviceCommand`] holds.
pub struct DeviceCommandModel {
    pub action: DeviceAction,
    pub args: JsonModel,
}

impl View for DeviceCommand {
    type V = DeviceCommandModel;

    open spec fn view(&self) -> DeviceCommandModel {
        DeviceCommandModel { action: self.action, args: json_model(self.args) }
    }
}

/// An optional string member of an object: absent or null reads as
/// `Some(None)`, a string as `Some(Some(..))`, anything else is malformed
/// and reads as `None`.
pub open spec fn optional_text(doc: JsonModel, key: Seq<char>) -> Option<Option<Seq<char>>> {
    match doc.member(key) {
        None => Some(None),
        Some(JsonModel::Null) => Some(None),
        Some(JsonModel::Text(text)) => Some(Some(text)),
        Some(_) => None,
    }
}

/// An optional boolean member of an object, read like [`optional_text`].
pub open spec fn optional_flag(doc: JsonModel, key: Seq<char>) -> Option<Option<bool>> {
    match doc.member(key) {
        None => Some(None),
        Some(JsonModel::Null) => Some(None),
        Some(JsonModel::Bool(flag)) => Some(Some(flag)),
        Some(_) => None,
    }
}

/// A required integer member of an object that lies in `0..=max`.
pub open spec fn required_unsigned(doc: JsonModel, key: Seq<char>, max: u64) -> Option<u64> {
    match doc.member(key) {
        Some(JsonModel::Integer(n)) => if 0 <= n <= max {
            Some(n as u64)
        } else {
            None
        },
        _ => None,
    }
}

/// An optional integer member of an object that lies in `0..=max`, read
/// like [`optional_text`].
pub open spec fn optional_unsigned(doc: JsonModel, key: Seq<char>, max: u64) -> Option<
    Option<u64>,
> {
    match doc.member(key) {
        None => Some(None),
        Some(JsonModel::Null) => Some(None),
        Some(JsonModel::Integer(n)) => if 0 <= n <= max {
            Some(Some(n as u64))
        } else {
            None
        },
        Some(_) => None,
    }
}

/// The status that a payload document denotes: `wifi_ok` must be a boolean,
/// every other member is optional, and a member of the wrong type makes the
/// whole document unreadable.
pub open spec fn spec_parse_status(doc: JsonModel) -> Option<DeviceStatusModel> {
    match (
        doc.member("wifi_ok"@),
        optional_flag(doc, "host_reachable"@),
        optional_text(doc, "mode"@),
        optional_text(doc, "scene"@),
        optional_text(doc, "ota_state"@),
    ) {
        (Some(JsonModel::Bool(wifi_ok)), Some(host), Some(mode), Some(scene), Some(ota_state)) => {
            Some(
                DeviceStatusModel {
                    wifi_ok,
                    host_reachable: match host {
                        Some(flag) => flag,
                        None => false,
                    },
                    mode,
                    scene,
                    ota_state,
                },
            )
        },
        _ => None,
    }
}

/// The command that a payload document denotes: `action` must be a string,
/// read as a wire token; `args` is carried as it stands, null when absent.
pub open spec fn spec_parse_command(doc: JsonModel) -> Option<DeviceCommandModel> {
    match doc.member("action"@) {
        Some(JsonModel::Text(token)) => Some(
            DeviceCommandModel {
                action: DeviceAction::spec_from_token(token),
                args: match doc.member("args"@) {
                    Some(args) => args,
                    None => JsonModel::Null,
                },
            },
        ),
        _ => None,
    }
}

/// The `version` argument of a command, when it is a string.
pub open spec fn spec_version_arg(args: JsonModel) -> Option<Seq<char>> {
    match args.member("version"@) {
        Some(JsonModel::Text(version)) => Some(version),
        _ => None,
    }
}

/// The touch sample that a payload document denotes: `phase` must be a
/// string, read as a wire token; `x`, `y` and `pointer_id` must be integers
/// that fit their fields; `pressure` and `raw_timestamp_ms` are optional.
pub open spec fn spec_parse_touch(doc: JsonModel) -> Option<TouchEventPayload> {
    match (
        doc.member("phase"@),
        required_unsigned(doc, "x"@, 0xffff),
        required_unsigned(doc, "y"@, 0xffff),
        required_unsigned(doc, "pointer_id"@, 0xffff_ffff),
        optional_unsigned(doc, "pressure"@, 0xffff),
        optional_unsigned(doc, "raw_timestamp_ms"@, u64::MAX),
    ) {
        (
            Some(JsonModel::Text(token)),
            Some(x),
            Some(y),
            Some(pointer_id),
            Some(pressure),
            Some(raw_timestamp_ms),
        ) => Some(
            TouchEventPayload {
                pointer_id: pointer_id as u32,
                phase: TouchPhase::spec_from_token(token),
                x: x as u16,
                y: y as u16,
                pressure: match pressure {
                    Some(p) => Some(p as u16),
                    None => None,
                },
                raw_timestamp_ms,
            },
        ),
        _ => None,
    }
}

/// The view of a twice-optional string.
pub open spec fn opt_opt_string_view(text: Option<Option<String>>) -> Option<Option<Seq<char>>> {
    match text {
        Some(inner) => Some(opt_string_view(inner)),
        None => None,
    }
}

fn read_optional_text(doc: &serde_json::Value, key: &str) -> (text: Option<Option<String>>)
    ensures
        opt_opt_string_view(text) == optional_text(json_model(*doc), key@),
{
    match json_member(doc, key) {
        None => Some(None),
        Some(member) => {
            if json_is_null(member) {
                Some(None)
            } else {
                match json_as_str(member) {
                    Some(text) => Some(Some(text.to_owned())),
                    None => None,
                }
            }
        },
    }
}

fn read_optional_flag(doc: &serde_json::Value, key: &str) -> (flag: Option<Option<bool>>)
    ensures
        flag == optional_flag(json_model(*doc), key@),
{
    match json_member(doc, key) {
        None => Some(None),
        Some(member) => {
            if json_is_null(member) {
                Some(None)
            } else {
                match json_as_bool(member) {
                    Some(flag) => Some(Some(flag)),
                    None => None,
                }
            }
        },
    }
}

fn read_required_unsigned(doc: &serde_json::Value, key: &str, max: u64) -> (number: Option<u64>)
    ensures
        number == required_unsigned(json_model(*doc), key@, max),
{
    match json_member(doc, key) {
        None => None,
        Some(member) => match json_as_u64(member) {
            Some(n) => if n <= max {
                Some(n)
            } else {
                None
            },
            None => None,
        },
    }
}

fn read_optional_unsigned(doc: &serde_json::Value, key: &str, max: u64) -> (number: Option<
    Option<u64>,
>)
    ensures
        number == optional_unsigned(json_model(*doc), key@, max),
{
    match json_member(doc, key) {
        None => Some(None),
        Some(member) => {
            if json_is_null(member) {
                Some(None)
            } else {
                match json_as_u64(member) {
                    Some(n) => if n <= max {
                        Some(Some(n))
                    } else {
                        None
                    },
                    None => None,
                }
            }
        },
    }
}

/// Reads a device status out of a payload document.
pub fn parse_status(doc: &serde_json::Value) -> (status: Option<DeviceStatus>)
    ensures
        match status {
            Some(s) => spec_parse_status(json_model(*doc)) == Some(s@),
            None => spec_parse_status(json_model(*doc)) is None,
        },
{
    let wifi_ok = match json_member(doc, "wifi_ok") {
        Some(member) => match json_as_bool(member) {
            Some(flag) => flag,
            None => { return None; },
        },
        None => { return None; },
    };
    let host = match read_optional_flag(doc, "host_reachable") {
        Some(host) => host,
        None => { return None; },
    };
    let mode = match read_optional_text(doc, "mode") {
        Some(mode) => mode,
        None => { return None; },
    };
    let scene = match read_optional_text(doc, "scene") {
        Some(scene) => scene,
        None => { return None; },
    };
    let ota_state = match read_optional_text(doc, "ota_state") {
        Some(ota_state) => ota_state,
        None => { return None; },
    };
    let host_reachable = match host {
        Some(flag) => flag,
        None => false,
    };
    Some(DeviceStatus { wifi_ok, host_reachable, mode, scene, ota_state })
}

/// Reads a command out of a payload document.
pub fn parse_command(doc: &serde_json::Value) -> (command: Option<DeviceCommand>)
    ensures
        match command {
            Some(c) => spec_parse_command(json_model(*doc)) == Some(c@),
            None => spec_parse_command(json_model(*doc)) is None,
        },
{
    let action = match json_member(doc, "action") {
        Some(member) => match json_as_str(member) {
            Some(token) => DeviceAction::from_token(token),
            None => { return None; },
        },
        None => { return None; },
    };
    let args = match json_member(doc, "args") {
        Some(args) => json_clone(args),
        None => json_null(),
    };
    Some(DeviceCommand { action, args })
}

/// Reads the `version` argument of a command.
pub fn version_arg(args: &serde_json::Value) -> (version: Option<String>)
    ensures
        opt_string_view(version) == spec_version_arg(json_model(*args)),
{
    match json_member(args, "version") {
        Some(member) => match json_as_str(member) {
            Some(text) => Some(text.to_owned()),
            None => None,
        },
        None => None,
    }
}

/// Reads a touch sample out of a payload document.
pub fn parse_touch(doc: &serde_json::Value) -> (touch: Option<TouchEventPayload>)
    ensures
        touch == spec_parse_touch(json_model(*doc)),
{
    let phase = match json_member(doc, "phase") {
        Some(member) => match json_as_str(member) {
            Some(token) => TouchPhase::from_token(token),
            None => { return None; },
        },
        None => { return None; },
    };
    let x = match read_required_unsigned(doc, "x", 0xffff) {
        Some(x) => x,
        None => { return None; },
    };
    let y = match read_required_unsigned(doc, "y", 0xffff) {
        Some(y) => y,
        None => { return None; },
    };
    let pointer_id = match read_required_unsigned(doc, "pointer_id", 0xffff_ffff) {
        Some(pointer_id) => pointer_id,
        None => { return None; },
    };
    let pressure = match read_optional_unsigned(doc, "pressure", 0xffff) {
        Some(pressure) => pressure,
        None => { return None; },
    };
    let raw_timestamp_ms = match read_optional_unsigned(doc, "raw_timestamp_ms", u64::MAX) {
        Some(raw_timestamp_ms) => raw_timestamp_ms,
        None => { return None; },
    };
    Some(
        TouchEventPayload {
            pointer_id: pointer_id as u32,
            phase,
            x: x as u16,
            y: y as u16,
            pressure: match pressure {
                Some(p) => Some(p as u16),
                None => None,
            },
            raw_timestamp_ms,
        },
    )
}

/// One transport frame: an envelope, a kind and an optional typed payload.
#[derive(Debug)]
pub struct TransportMessage {
    pub envelope: Envelope,
    pub kind: MessageKind,
    pub corr_id: Option<String>,
    pub ttl_ms: Option<u64>,
    pub issued_at: Option<u64>,
    pub signature: Option<String>,
    pub nonce: Option<String>,
    pub payload: serde_json::Value,
}

/// What a [`TransportMessage`] holds.
pub struct TransportMessageModel {
    pub envelope: EnvelopeModel,
    pub kind: MessageKind,
    pub corr_id: Option<Seq<char>>,
    pub ttl_ms: Option<u64>,
    pub issued_at: Option<u64>,
    pub signature: Option<Seq<char>>,
    pub nonce: Option<Seq<char>>,
    pub payload: JsonModel,
}

impl View for TransportMessage {
    type V = TransportMessageModel;

    open spec fn view(&self) -> TransportMessageModel {
        TransportMessageModel {
            envelope: self.envelope@,
            kind: self.kind,
            corr_id: opt_string_view(self.corr_id),
            ttl_ms: self.ttl_ms,
            issued_at: self.issued_at,
            signature: opt_string_view(self.signature),
            nonce: opt_string_view(self.nonce),
            payload: json_model(self.payload),
        }
    }
}

impl TransportMessageModel {
    /// A frame is expired at `now` when it carries both an issue time and a
    /// time to live, and their sum lies before `now`.
    pub open spec fn expired_at(self, now: u64) -> bool {
        match (self.issued_at, self.ttl_ms) {
            (Some(issued), Some(ttl)) => issued + ttl < now,
            _ => false,
        }
    }
}

/// A required string member of an object.
pub open spec fn required_text(doc: JsonModel, key: Seq<char>) -> Option<Seq<char>> {
    match doc.member(key) {
        Some(JsonModel::Text(text)) => Some(text),
        _ => None,
    }
}

/// The frame that a wire document denotes. The envelope's members stand
/// beside the frame's own; `v`, `seq`, the four identifiers and `kind` are
/// required, the rest is optional, and `payload` is null when absent.
pub open spec fn spec_parse_frame(doc: JsonModel) -> Option<TransportMessageModel> {
    match (
        (
            required_unsigned(doc, "v"@, 0xff),
            required_unsigned(doc, "seq"@, u64::MAX),
            required_text(doc, "source"@),
            required_text(doc, "device_id"@),
            required_text(doc, "session_id"@),
            required_text(doc, "message_id"@),
        ),
        (
            required_text(doc, "kind"@),
            optional_text(doc, "corr_id"@),
            optional_unsigned(doc, "ttl_ms"@, u64::MAX),
            optional_unsigned(doc, "issued_at"@, u64::MAX),
            optional_text(doc, "signature"@),
            optional_text(doc, "nonce"@),
        ),
    ) {
        (
            (Some(v), Some(seq), Some(source), Some(device_id), Some(session_id), Some(message_id)),
            (Some(kind), Some(corr_id), Some(ttl_ms), Some(issued_at), Some(signature), Some(nonce)),
        ) => Some(
            TransportMessageModel {
                envelope: EnvelopeModel {
                    v: v as u8,
                    seq,
                    source,
                    device_id,
                    session_id,
                    message_id,
                },
                kind: MessageKind::spec_from_token(kind),
                corr_id,
                ttl_ms,
                issued_at,
                signature,
                nonce,
                payload: match doc.member("payload"@) {
                    Some(payload) => payload,
                    None => JsonModel::Null,
                },
            },
        ),
        _ => None,
    }
}

fn read_required_text(doc: &serde_json::Value, key: &str) -> (text: Option<String>)
    ensures
        opt_string_view(text) == required_text(json_model(*doc), key@),
{
    match json_member(doc, key) {
        Some(member) => match json_as_str(member) {
            Some(text) => Some(text.to_owned()),
            None => None,
        },
        None => None,
    }
}

impl TransportMessage {
    /// Whether this frame's time to live has run out at `now`.
    pub fn is_expired(&self, now: u64) -> (expired: bool)
        ensures
            expired == self@.expired_at(now),
    {
        match (self.issued_at, self.ttl_ms) {
            (Some(issued), Some(ttl)) => match issued.checked_add(ttl) {
                Some(deadline) => deadline < now,
                None => false,
            },
            _ => false,
        }
    }

    /// The command in this frame's payload, if the payload holds one.
    pub fn as_device_command(&self) -> (command: Option<DeviceCommand>)
        ensures
            match command {
                Some(c) => spec_parse_command(self@.payload) == Some(c@),
                None => spec_parse_command(self@.payload) is None,
            },
    {
        parse_command(&self.payload)
    }

    /// The device status in this frame's payload, if the payload holds one.
    pub fn as_status_snapshot(&self) -> (status: Option<DeviceStatus>)
        ensures
            match status {
                Some(s) => spec_parse_status(self@.payload) == Some(s@),
                None => spec_parse_status(self@.payload) is None,
            },
    {
        parse_status(&self.payload)
    }

    /// The touch sample in this frame's payload, if the payload holds one.
    pub fn as_touch_event(&self) -> (touch: Option<TouchEventPayload>)
        ensures
            touch == spec_parse_touch(self@.payload),
    {
        parse_touch(&self.payload)
    }

    /// Reads a frame from its wire document.
    pub fn from_json(doc: &serde_json::Value) -> (frame: Option<TransportMessage>)
        ensures
            match frame {
                Some(f) => spec_parse_frame(json_model(*doc)) == Some(f@),
                None => spec_parse_frame(json_model(*doc)) is None,
            },
    {
        let v = match read_required_unsigned(doc, "v", 0xff) {
            Some(v) => v,
            None => { return None; },
        };
        let seq = match read_required_unsigned(doc, "seq", u64::MAX) {
            Some(seq) => seq,
            None => { return None; },
        };
        let source = match read_required_text(doc, "source") {
            Some(source) => source,
            None => { return None; },
        };
        let device_id = match read_required_text(doc, "device_id") {
            Some(device_id) => device_id,
            None => { return None; },
        };
        let session_id = match read_required_text(doc, "session_id") {
            Some(session_id) => session_id,
            None => { return None; },
        };
        let message_id = match read_required_text(doc, "message_id") {
            Some(message_id) => message_id,
            None => { return None; },
        };
        let kind = match read_required_text(doc, "kind") {
            Some(token) => MessageKind::from_token(token.as_str()),
            None => { return None; },
        };
        let corr_id = match read_optional_text(doc, "corr_id") {
            Some(corr_id) => corr_id,
            None => { return None; },
        };
        let ttl_ms = match read_optional_unsigned(doc, "ttl_ms", u64::MAX) {
            Some(ttl_ms) => ttl_ms,
            None => { return None; },
        };
        let issued_at = match read_optional_unsigned(doc, "issued_at", u64::MAX) {
            Some(issued_at) => issued_at,
            None => { return None; },
        };
        let signature = match read_optional_text(doc, "signature") {
            Some(signature) => signature,
            None => { return None; },
        };
        let nonce = match read_optional_text(doc, "nonce") {
            Some(nonce) => nonce,
            None => { return None; },
        };
        let payload = match json_member(doc, "payload") {
            Some(payload) => json_clone(payload),
            None => json_null(),
        };
        Some(
            TransportMessage {
                envelope: Envelope {
                    v: v as u8,
                    seq,
                    source,
                    device_id,
                    session_id,
                    message_id: MessageId(message_id),
                },
                kind,
                corr_id,
                ttl_ms,
                issued_at,
                signature,
                nonce,
                payload,
            },
        )
    }
}

impl Clone for TransportMessage {
    fn clone(&self) -> (copy: Self)
        ensures
            copy@ == self@,
    {
        TransportMessage {
            envelope: self.envelope.clone(),
            kind: self.kind,
            corr_id: clone_opt_string(&self.corr_id),
            ttl_ms: self.ttl_ms,
            issued_at: self.issued_at,
            signature: clone_opt_string(&self.signature),
            nonce: clone_opt_string(&self.nonce),
            payload: json_clone(&self.payload),
        }
    }
}

/// `fields` with a string member under `key`, when there is one to store.
pub open spec fn put_opt_text(
    fields: Map<Seq<char>, JsonModel>,
    key: Seq<char>,
    text: Option<Seq<char>>,
) -> Map<Seq<char>, JsonModel> {
    match text {
        Some(text) => fields.insert(key, JsonModel::Text(text)),
        None => fields,
    }
}

/// `fields` with an integer member under `key`, when there is one to store.
pub open spec fn put_opt_unsigned(
    fields: Map<Seq<char>, JsonModel>,
    key: Seq<char>,
    number: Option<u64>,
) -> Map<Seq<char>, JsonModel> {
    match number {
        Some(number) => fields.insert(key, JsonModel::Integer(number as int)),
        None => fields,
    }
}

/// The members of the wire document of a frame: the envelope's members
/// beside the frame's own, a member left out where the frame holds none.
pub open spec fn spec_frame_fields(frame: TransportMessageModel) -> Map<Seq<char>, JsonModel> {
    let required = Map::<Seq<char>, JsonModel>::empty().insert(
        "v"@,
        JsonModel::Integer(frame.envelope.v as int),
    ).insert("seq"@, JsonModel::Integer(frame.envelope.seq as int)).insert(
        "source"@,
        JsonModel::Text(frame.envelope.source),
    ).insert("device_id"@, JsonModel::Text(frame.envelope.device_id)).insert(
        "session_id"@,
        JsonModel::Text(frame.envelope.session_id),
    ).insert("message_id"@, JsonModel::Text(frame.envelope.message_id)).insert(
        "kind"@,
        JsonModel::Text(frame.kind.spec_token()),
    ).insert("payload"@, frame.payload);
    put_opt_text(
        put_opt_text(
            put_opt_unsigned(
                put_opt_unsigned(
                    put_opt_text(required, "corr_id"@, frame.corr_id),
                    "ttl_ms"@,
                    frame.ttl_ms,
                ),
                "issued_at"@,
                frame.issued_at,
            ),
            "signature"@,
            frame.signature,
        ),
        "nonce"@,
        frame.nonce,
    )
}

/// The wire document of a frame.
pub open spec fn spec_frame_doc(frame: TransportMessageModel) -> JsonModel {
    JsonModel::Object(spec_frame_fields(frame))
}

fn insert_opt_text(doc: &mut serde_json::Value, key: &str, text: &Option<String>)
    requires
        json_model(*old(doc)) is Object,
    ensures
        json_model(*final(doc)) == JsonModel::Object(
            put_opt_text(json_model(*old(doc))->Object_0, key@, opt_string_view(*text)),
        ),
{
    match text {
        Some(text) => json_insert(doc, key, json_text(text.as_str())),
        None => {},
    }
}

fn insert_opt_unsigned(doc: &mut serde_json::Value, key: &str, number: Option<u64>)
    requires
        json_model(*old(doc)) is Object,
    ensures
        json_model(*final(doc)) == JsonModel::Object(
            put_opt_unsigned(json_model(*old(doc))->Object_0, key@, number),
        ),
{
    match number {
        Some(number) => json_insert(doc, key, json_unsigned(number)),
        None => {},
    }
}

impl TransportMessage {
    /// Writes the frame as its wire document.
    pub fn to_json(&self) -> (doc: serde_json::Value)
        ensures
            json_model(doc) == spec_frame_doc(self@),
    {
        let mut doc = json_object();
        json_insert(&mut doc, "v", json_unsigned(self.envelope.v as u64));
        json_insert(&mut doc, "seq", json_unsigned(self.envelope.seq));
        json_insert(&mut doc, "source", json_text(self.envelope.source.as_str()));
        json_insert(&mut doc, "device_id", json_text(self.envelope.device_id.as_str()));
        json_insert(&mut doc, "session_id", json_text(self.envelope.session_id.as_str()));
        json_insert(&mut doc, "message_id", json_text(self.envelope.message_id.as_str()));
        json_insert(&mut doc, "kind", json_text(self.kind.as_str()));
        json_insert(&mut doc, "payload", json_clone(&self.payload));
        insert_opt_text(&mut doc, "corr_id", &self.corr_id);
        insert_opt_unsigned(&mut doc, "ttl_ms", self.ttl_ms);
        insert_opt_unsigned(&mut doc, "issued_at", self.issued_at);
        insert_opt_text(&mut doc, "signature", &self.signature);
        insert_opt_text(&mut doc, "nonce", &self.nonce);
        doc
    }
}

/// The thirteen member names of a wire document are pairwise different.
proof fn frame_keys_differ()
    ensures
        seq![
            "v"@,
            "seq"@,
            "source"@,
            "device_id"@,
            "session_id"@,
            "message_id"@,
            "kind"@,
            "payload"@,
            "corr_id"@,
            "ttl_ms"@,
            "issued_at"@,
            "signature"@,
            "nonce"@,
        ].no_duplicates(),
{
    reveal_strlit("v");
    reveal_strlit("seq");
    reveal_strlit("source");
    reveal_strlit("device_id");
    reveal_strlit("session_id");
    reveal_strlit("message_id");
    reveal_strlit("kind");
    reveal_strlit("payload");
    reveal_strlit("corr_id");
    reveal_strlit("ttl_ms");
    reveal_strlit("issued_at");
    reveal_strlit("signature");
    reveal_strlit("nonce");
    assert("v"@.len() == 1 && "seq"@.len() == 3 && "source"@.len() == 6 && "device_id"@.len() == 9);
    assert("session_id"@.len() == 10 && "message_id"@.len() == 10 && "kind"@.len() == 4);
    assert("payload"@.len() == 7 && "corr_id"@.len() == 7 && "ttl_ms"@.len() == 6);
    assert("issued_at"@.len() == 9 && "signature"@.len() == 9 && "nonce"@.len() == 5);
    assert("source"@[0] == 's' && "ttl_ms"@[0] == 't');
    assert("device_id"@[0] == 'd' && "issued_at"@[0] == 'i' && "signature"@[0] == 's');
    assert("session_id"@[0] == 's' && "message_id"@[0] == 'm');
    assert("payload"@[0] == 'p' && "corr_id"@[0] == 'c');
}

/// Reading the wire document of a frame gives the frame back.
pub proof fn frame_doc_roundtrip(frame: TransportMessageModel)
    ensures
        spec_parse_frame(spec_frame_doc(frame)) == Some(frame),
{
    frame_keys_differ();
    let keys = seq![
        "v"@,
        "seq"@,
        "source"@,
        "device_id"@,
        "session_id"@,
        "message_id"@,
        "kind"@,
        "payload"@,
        "corr_id"@,
        "ttl_ms"@,
        "issued_at"@,
        "signature"@,
        "nonce"@,
    ];
    assert forall|i: int, j: int| 0 <= i < 13 && 0 <= j < 13 && i != j implies keys[i] != keys[j] by {}
    assert(keys[0] == "v"@ && keys[1] == "seq"@ && keys[2] == "source"@ && keys[3] == "device_id"@);
    assert(keys[4] == "session_id"@ && keys[5] == "message_id"@ && keys[6] == "kind"@);
    assert(keys[7] == "payload"@ && keys[8] == "corr_id"@ && keys[9] == "ttl_ms"@);
    assert(keys[10] == "issued_at"@ && keys[11] == "signature"@ && keys[12] == "nonce"@);
    message_kind_token_roundtrip(frame.kind);
    let doc = spec_frame_doc(frame);
    let fields = spec_frame_fields(frame);
    assert(required_unsigned(doc, "v"@, 0xff) == Some(frame.envelope.v as u64));
    assert(required_unsigned(doc, "seq"@, u64::MAX) == Some(frame.envelope.seq));
    assert(required_text(doc, "source"@) == Some(frame.envelope.source));
    assert(required_text(doc, "device_id"@) == Some(frame.envelope.device_id));
    assert(required_text(doc, "session_id"@) == Some(frame.envelope.session_id));
    assert(required_text(doc, "message_id"@) == Some(frame.envelope.message_id));
    assert(required_text(doc, "kind"@) == Some(frame.kind.spec_token()));
    assert(optional_text(doc, "corr_id"@) == Some(frame.corr_id));
    assert(optional_unsigned(doc, "ttl_ms"@, u64::MAX) == Some(frame.ttl_ms));
    assert(optional_unsigned(doc, "issued_at"@, u64::MAX) == Some(frame.issued_at));
    assert(optional_text(doc, "signature"@) == Some(frame.signature));
    assert(optional_text(doc, "nonce"@) == Some(frame.nonce));
    assert(doc.member("payload"@) == Some(frame.payload));
}

} // verus!
