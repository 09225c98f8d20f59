//! The device runtime: a single-threaded, message-driven state machine.
//!
//! [`RuntimeModel`] is the mathematical state and its transition functions;
//! [`RuntimeState`] is the executable state, whose every operation is stated
//! as one of those transitions.

use crate::display::{clamp_and_validate_touch, spec_clamp_and_validate, DisplayPoint};
use crate::json::{json_insert, json_object, json_text, JsonModel};
use crate::counting::{saturating_succ_u32, saturating_succ_u64};
use crate::protocol::{
    clone_opt_string, spec_parse_command, spec_parse_status, spec_version_arg,
    version_arg, DeviceAction, DeviceCommandModel, DeviceStatus, DeviceStatusModel, Envelope,
    EnvelopeModel, MessageId, MessageKind, TouchEventPayload, TouchPhase, TransportMessage,
    TransportMessageModel,
};
use crate::text::{
    clone_strings, concat2, contains_str, decimal_digits, opt_str_view, opt_string_view, str_eq,
    strings_view, strs_view, u64_to_decimal,
};
use crate::ui::{spec_action_for_touch, Scene};
use std::collections::VecDeque;
use vstd::prelude::*;

verus! {

/// How many message ids the replay filter remembers before it starts over.
pub const SEEN_CAPACITY: usize = 512;

/// How many diagnostic entries are kept; the oldest is dropped first.
pub const DIAGNOSTICS_CAPACITY: usize = 16;

/// How many denied frames put the device into safe mode, unless chosen
/// otherwise at construction.
pub const DEFAULT_SAFETY_RETRIES: u32 = 5;

/// The connection state of the device.
#[derive(Debug, PartialEq)]
pub enum RuntimeMode {
    Booting,
    Connected,
    Offline,
    Error(String),
    SafeMode(String),
}

/// What a [`RuntimeMode`] holds.
pub enum ModeModel {
    Booting,
    Connected,
    Offline,
    Error(Seq<char>),
    SafeMode(Seq<char>),
}

impl View for RuntimeMode {
    type V = ModeModel;

    open spec fn view(&self) -> ModeModel {
        match self {
            RuntimeMode::Booting => ModeModel::Booting,
            RuntimeMode::Connected => ModeModel::Connected,
            RuntimeMode::Offline => ModeModel::Offline,
            RuntimeMode::Error(reason) => ModeModel::Error(reason@),
            RuntimeMode::SafeMode(reason) => ModeModel::SafeMode(reason@),
        }
    }
}

impl Clone for RuntimeMode {
    fn clone(&self) -> (copy: Self)
        ensures
            copy@ == self@,
    {
        match self {
            RuntimeMode::Booting => RuntimeMode::Booting,
            RuntimeMode::Connected => RuntimeMode::Connected,
            RuntimeMode::Offline => RuntimeMode::Offline,
            RuntimeMode::Error(reason) => RuntimeMode::Error(reason.clone()),
            RuntimeMode::SafeMode(reason) => RuntimeMode::SafeMode(reason.clone()),
        }
    }
}

impl ModeModel {
    /// The scene that each mode shows.
    pub open spec fn scene(self) -> Scene {
        match self {
            ModeModel::Booting => Scene::Boot,
            ModeModel::Connected => Scene::Paired,
            ModeModel::Offline => Scene::Offline,
            ModeModel::Error(_) => Scene::Error,
            ModeModel::SafeMode(_) => Scene::Settings,
        }
    }

    /// The mode that a status report's mode word asks for, if it is one of
    /// the known words.
    pub open spec fn from_status_word(word: Seq<char>) -> Option<ModeModel> {
        if word == "boot"@ {
            Some(ModeModel::Booting)
        } else if word == "connected"@ || word == "paired"@ || word == "ready"@ {
            Some(ModeModel::Connected)
        } else if word == "offline"@ {
            Some(ModeModel::Offline)
        } else if word == "safe_mode"@ {
            Some(ModeModel::SafeMode("host_reported_safe_mode"@))
        } else if word == "error"@ {
            Some(ModeModel::Error("host_reported_error"@))
        } else {
            None
        }
    }
}

/// What the runtime asks its caller to do after an input.
#[derive(Debug, PartialEq)]
pub enum RuntimeAction {
    Nothing,
    EmitAck { corr_id: String, status: &'static str },
    EmitCommand { action: DeviceAction },
    RaiseUiState { message: &'static str },
}

/// What a [`RuntimeAction`] holds.
pub enum ActionModel {
    Nothing,
    EmitAck { corr_id: Seq<char>, status: Seq<char> },
    EmitCommand { action: DeviceAction },
    RaiseUiState { message: Seq<char> },
}

impl View for RuntimeAction {
    type V = ActionModel;

    open spec fn view(&self) -> ActionModel {
        match self {
            RuntimeAction::Nothing => ActionModel::Nothing,
            RuntimeAction::EmitAck { corr_id, status } => ActionModel::EmitAck {
                corr_id: corr_id@,
                status: status@,
            },
            RuntimeAction::EmitCommand { action } => ActionModel::EmitCommand { action: *action },
            RuntimeAction::RaiseUiState { message } => ActionModel::RaiseUiState {
                message: message@,
            },
        }
    }
}

impl Clone for RuntimeAction {
    fn clone(&self) -> (copy: Self)
        ensures
            copy@ == self@,
    {
        match self {
            RuntimeAction::Nothing => RuntimeAction::Nothing,
            RuntimeAction::EmitAck { corr_id, status } => RuntimeAction::EmitAck {
                corr_id: corr_id.clone(),
                status: *status,
            },
            RuntimeAction::EmitCommand { action } => RuntimeAction::EmitCommand { action: *action },
            RuntimeAction::RaiseUiState { message } => RuntimeAction::RaiseUiState {
                message: *message,
            },
        }
    }
}

/// An outbound command whose acknowledgement or result has not arrived.
#[derive(Debug)]
pub struct InFlightCommand {
    pub corr_id: String,
    pub action: DeviceAction,
    pub enqueued_at_ms: u64,
}

/// What an [`InFlightCommand`] holds.
pub struct InFlightModel {
    pub corr_id: Seq<char>,
    pub action: DeviceAction,
    pub enqueued_at_ms: u64,
}

impl View for InFlightCommand {
    type V = InFlightModel;

    open spec fn view(&self) -> InFlightModel {
        InFlightModel {
            corr_id: self.corr_id@,
            action: self.action,
            enqueued_at_ms: self.enqueued_at_ms,
        }
    }
}

impl Clone for InFlightCommand {
    fn clone(&self) -> (copy: Self)
        ensures
            copy@ == self@,
    {
        InFlightCommand {
            corr_id: self.corr_id.clone(),
            action: self.action,
            enqueued_at_ms: self.enqueued_at_ms,
        }
    }
}

/// The correlation id of the command emitted with sequence number `seq`.
pub open spec fn corr_id_for(seq: u64) -> Seq<char> {
    "corr-"@ + decimal_digits(seq as nat)
}

/// The message id of the command emitted with sequence number `seq`.
pub open spec fn message_id_for(seq: u64) -> Seq<char> {
    "cmd-"@ + decimal_digits(seq as nat)
}

/// `commands` without the entries that carry `corr_id`.
pub open spec fn without_corr(commands: Seq<InFlightModel>, corr_id: Seq<char>) -> Seq<
    InFlightModel,
>
    decreases commands.len(),
{
    if commands.len() == 0 {
        commands
    } else if commands.last().corr_id == corr_id {
        without_corr(commands.drop_last(), corr_id)
    } else {
        without_corr(commands.drop_last(), corr_id).push(commands.last())
    }
}

/// Whether one of `commands` carries `corr_id`.
pub open spec fn has_corr(commands: Seq<InFlightModel>, corr_id: Seq<char>) -> bool {
    exists|i: int| 0 <= i < commands.len() && (#[trigger] commands[i]).corr_id == corr_id
}

/// Whether no two of `commands` carry the same correlation id.
pub open spec fn corr_ids_unique(commands: Seq<InFlightModel>) -> bool {
    forall|i: int, j: int|
        0 <= i < j < commands.len() ==> (#[trigger] commands[i]).corr_id != (
        #[trigger] commands[j]).corr_id
}

/// `entries` with `entry` appended, the oldest entries dropped so that at
/// most sixteen remain.
pub open spec fn push_bounded(entries: Seq<Seq<char>>, entry: Seq<char>) -> Seq<Seq<char>> {
    let pushed = entries.push(entry);
    if pushed.len() > DIAGNOSTICS_CAPACITY {
        pushed.skip(pushed.len() - DIAGNOSTICS_CAPACITY)
    } else {
        pushed
    }
}

/// The mathematical state of the device runtime.
pub struct RuntimeModel {
    pub mode: ModeModel,
    pub last_seq: u64,
    pub seen: Seq<Seq<char>>,
    pub in_flight: Seq<InFlightModel>,
    pub diagnostics: Seq<Seq<char>>,
    pub status: DeviceStatusModel,
    pub offline_since_ms: Option<u64>,
    pub last_heartbeat_ms: Option<u64>,
    pub allowlist: Seq<Seq<char>>,
    pub safety_fail_count: u32,
    pub safety_fail_limit: u32,
    pub ota_in_progress: bool,
    pub ota_target_version: Option<Seq<char>>,
    pub ota_error_reason: Option<Seq<char>>,
}

impl RuntimeModel {
    /// The state of a freshly started device.
    pub open spec fn initial(allowlist: Seq<Seq<char>>, safety_fail_limit: u32) -> RuntimeModel {
        RuntimeModel {
            mode: ModeModel::Booting,
            last_seq: 0,
            seen: Seq::empty(),
            in_flight: Seq::empty(),
            diagnostics: Seq::empty(),
            status: DeviceStatusModel::initial(),
            offline_since_ms: None,
            last_heartbeat_ms: None,
            allowlist,
            safety_fail_count: 0,
            safety_fail_limit,
            ota_in_progress: false,
            ota_target_version: None,
            ota_error_reason: None,
        }
    }

    /// The bounds that every reachable state keeps: the replay filter holds
    /// at most 512 distinct ids, the diagnostics at most 16 entries, and no
    /// two commands in flight share a correlation id.
    pub open spec fn wf(self) -> bool {
        &&& self.seen.len() <= SEEN_CAPACITY
        &&& self.seen.no_duplicates()
        &&& self.diagnostics.len() <= DIAGNOSTICS_CAPACITY
        &&& corr_ids_unique(self.in_flight)
    }

    /// The scene that this state shows.
    pub open spec fn scene(self) -> Scene {
        self.mode.scene()
    }

    /// Whether frames from `source` are let in: always when the allowlist is
    /// empty, else when it names the source or holds the wildcard `*`.
    pub open spec fn host_allowed(self, source: Seq<char>) -> bool {
        self.allowlist.len() == 0 || self.allowlist.contains(source) || self.allowlist.contains(
            "*"@,
        )
    }

    /// Whether a frame with this sequence number and id is a replay.
    pub open spec fn is_duplicate_or_stale(self, seq: u64, message_id: Seq<char>) -> bool {
        seq <= self.last_seq || self.seen.contains(message_id)
    }

    /// The replay filter after it has taken in `message_id`: a full filter
    /// starts over with that id alone.
    pub open spec fn seen_after(self, message_id: Seq<char>) -> Seq<Seq<char>> {
        if self.seen.len() >= SEEN_CAPACITY {
            seq![message_id]
        } else {
            self.seen.push(message_id)
        }
    }

    /// Going offline at `now` for `reason`; a state that is offline already
    /// stays as it is.
    pub open spec fn marked_offline(self, reason: Seq<char>, now: u64) -> RuntimeModel {
        if self.mode is Offline {
            self
        } else {
            RuntimeModel {
                mode: ModeModel::Offline,
                offline_since_ms: Some(now),
                diagnostics: push_bounded(self.diagnostics, reason),
                ..self
            }
        }
    }

    /// Taking in a status report at `now`.
    pub open spec fn with_status(self, status: DeviceStatusModel, now: u64) -> RuntimeModel {
        let stored = RuntimeModel { status, ..self };
        if !status.wifi_ok {
            stored.marked_offline("status_wifi_not_ok"@, now)
        } else {
            match status.mode {
                Some(word) => match ModeModel::from_status_word(word) {
                    Some(mode) => RuntimeModel { mode, ..stored },
                    None => stored,
                },
                None => stored,
            }
        }
    }

    /// What a status frame that arrives at `now` does, given what its
    /// payload reads as. A report without wifi takes the device offline at
    /// `now` and nothing more happens. Any other report, and a payload that
    /// cannot be read, clears the offline stamp.
    pub open spec fn after_status_frame(self, status: Option<DeviceStatusModel>, now: u64) -> RuntimeModel {
        match status {
            Some(status) => if status.wifi_ok {
                RuntimeModel { offline_since_ms: None, ..self.with_status(status, now) }
            } else {
                self.with_status(status, now)
            },
            None => RuntimeModel { offline_since_ms: None, ..self },
        }
    }

    /// Carrying out a command that the host sent.
    pub open spec fn after_command(self, command: DeviceCommandModel) -> (RuntimeModel, ActionModel) {
        match command.action {
            DeviceAction::Reconnect => (
                RuntimeModel { mode: ModeModel::Offline, ..self },
                ActionModel::RaiseUiState { message: "command_reconnect"@ },
            ),
            DeviceAction::Retry => (
                RuntimeModel { mode: ModeModel::Booting, ..self },
                ActionModel::RaiseUiState { message: "command_retry"@ },
            ),
            DeviceAction::Restart => (
                RuntimeModel { mode: ModeModel::Booting, ..self },
                ActionModel::RaiseUiState { message: "command_restart"@ },
            ),
            DeviceAction::OtaStart => (
                RuntimeModel {
                    ota_target_version: spec_version_arg(command.args),
                    ota_error_reason: None,
                    ota_in_progress: true,
                    ..self
                },
                ActionModel::RaiseUiState { message: "command_ota_start"@ },
            ),
            DeviceAction::DiagnosticsSnapshot => (
                self,
                ActionModel::RaiseUiState { message: "command_diagnostics"@ },
            ),
            _ => (self, ActionModel::RaiseUiState { message: "command_received"@ }),
        }
    }

    /// The bookkeeping of an accepted frame: the sequence number advances to
    /// the frame's, the replay filter takes in its id, and the heartbeat is
    /// the frame's issue time, or `now` when it carries none.
    pub open spec fn accepted(self, msg: TransportMessageModel, now: u64) -> RuntimeModel {
        RuntimeModel {
            last_seq: msg.envelope.seq,
            seen: self.seen_after(msg.envelope.message_id),
            last_heartbeat_ms: Some(
                match msg.issued_at {
                    Some(issued) => issued,
                    None => now,
                },
            ),
            ..self
        }
    }

    /// What an accepted frame does, by its kind.
    pub open spec fn dispatched(self, msg: TransportMessageModel, now: u64) -> (
        RuntimeModel,
        ActionModel,
    ) {
        match msg.kind {
            MessageKind::HelloAck => (
                RuntimeModel {
                    mode: ModeModel::Connected,
                    offline_since_ms: None,
                    safety_fail_count: 0,
                    ..self
                },
                ActionModel::RaiseUiState { message: "connected"@ },
            ),
            MessageKind::StatusDelta | MessageKind::StatusSnapshot => (
                self.after_status_frame(spec_parse_status(msg.payload), now),
                ActionModel::RaiseUiState { message: "status_updated"@ },
            ),
            MessageKind::Command | MessageKind::HostCommand => match spec_parse_command(
                msg.payload,
            ) {
                Some(command) => self.after_command(command),
                None => (self, ActionModel::RaiseUiState { message: "command_parse_error"@ }),
            },
            MessageKind::CommandAck => match msg.corr_id {
                Some(corr_id) => (
                    RuntimeModel { in_flight: without_corr(self.in_flight, corr_id), ..self },
                    ActionModel::EmitAck { corr_id, status: "command_ack"@ },
                ),
                None => (self, ActionModel::Nothing),
            },
            MessageKind::CommandResult => (
                match msg.corr_id {
                    Some(corr_id) => RuntimeModel {
                        in_flight: without_corr(self.in_flight, corr_id),
                        ..self
                    },
                    None => self,
                },
                ActionModel::RaiseUiState { message: "command_result"@ },
            ),
            MessageKind::Error => (self, ActionModel::RaiseUiState { message: "host_error"@ }),
            MessageKind::Heartbeat => (
                RuntimeModel { mode: ModeModel::Connected, ..self },
                ActionModel::Nothing,
            ),
            _ => (self, ActionModel::Nothing),
        }
    }

    /// Whether the state lets `msg` in: its source is allowed and it is no
    /// replay.
    pub open spec fn accepts(self, msg: TransportMessageModel) -> bool {
        self.host_allowed(msg.envelope.source) && !self.is_duplicate_or_stale(
            msg.envelope.seq,
            msg.envelope.message_id,
        )
    }

    /// The whole transition for one inbound frame that arrives at `now`.
    pub open spec fn step(self, msg: TransportMessageModel, now: u64) -> (
        RuntimeModel,
        ActionModel,
    ) {
        if !self.host_allowed(msg.envelope.source) {
            (
                RuntimeModel {
                    safety_fail_count: saturating_succ_u32(self.safety_fail_count),
                    ..self
                },
                ActionModel::RaiseUiState { message: "command_denied_unauthorized_source"@ },
            )
        } else if self.is_duplicate_or_stale(msg.envelope.seq, msg.envelope.message_id) {
            (self, ActionModel::RaiseUiState { message: "replay_or_duplicate_rejected"@ })
        } else {
            self.accepted(msg, now).dispatched(msg, now)
        }
    }

    /// The frame that carries `action` out, emitted at `now` from this state.
    pub open spec fn emitted_frame(self, action: DeviceAction, now: u64) -> TransportMessageModel {
        let seq = saturating_succ_u64(self.last_seq);
        TransportMessageModel {
            envelope: EnvelopeModel {
                v: 1,
                seq,
                source: "device"@,
                device_id: "microclaw-device"@,
                session_id: "boot"@,
                message_id: message_id_for(seq),
            },
            kind: MessageKind::Command,
            corr_id: Some(corr_id_for(seq)),
            ttl_ms: None,
            issued_at: Some(now),
            signature: None,
            nonce: None,
            payload: JsonModel::single_text("action"@, action.spec_token()),
        }
    }

    /// The state after `action` has been emitted at `now`: the sequence
    /// number is consumed and the command is in flight under its fresh
    /// correlation id.
    pub open spec fn after_emit(self, action: DeviceAction, now: u64) -> RuntimeModel {
        let seq = saturating_succ_u64(self.last_seq);
        RuntimeModel {
            last_seq: seq,
            in_flight: without_corr(self.in_flight, corr_id_for(seq)).push(
                InFlightModel { corr_id: corr_id_for(seq), action, enqueued_at_ms: now },
            ),
            ..self
        }
    }

    /// What a touch at `point` asks for in the scene on show.
    pub open spec fn touch_action(self, point: DisplayPoint) -> ActionModel {
        match spec_action_for_touch(self.scene(), point) {
            Some(action) => ActionModel::EmitCommand { action },
            None => ActionModel::Nothing,
        }
    }

    /// What a raw touch sample asks for: nothing when the finger leaves the
    /// screen or the sample falls outside the safe circle.
    pub open spec fn touch_event_action(self, event: TouchEventPayload) -> ActionModel {
        match event.phase {
            TouchPhase::Up | TouchPhase::Cancel => ActionModel::Nothing,
            _ => match spec_clamp_and_validate(event.x, event.y) {
                Some(point) => self.touch_action(point),
                None => ActionModel::Nothing,
            },
        }
    }

    /// Whether the last heartbeat lies more than `timeout` before `now`, in
    /// a state that is not offline yet.
    pub open spec fn is_stale(self, now: u64, timeout: u64) -> bool {
        !(self.mode is Offline) && match self.last_heartbeat_ms {
            Some(last) => now - last > timeout,
            None => false,
        }
    }

    /// The state after a staleness check at `now`.
    pub open spec fn after_stale_check(self, now: u64, timeout: u64) -> RuntimeModel {
        if self.is_stale(now, timeout) {
            self.marked_offline("heartbeat_stale"@, now)
        } else {
            self
        }
    }

    /// Whether a lockdown check moves this state into safe mode.
    pub open spec fn must_lock_down(self) -> bool {
        !(self.mode is SafeMode) && self.safety_fail_count >= self.safety_fail_limit
    }

    /// The state after a lockdown check.
    pub open spec fn after_lockdown_check(self) -> RuntimeModel {
        if self.must_lock_down() {
            RuntimeModel {
                mode: ModeModel::SafeMode("safety_retries_exhausted_entering_safe_mode"@),
                ..self
            }
        } else {
            self
        }
    }

    /// The state after an update has finished, well or badly.
    pub open spec fn after_ota(self, success: bool, reason: Option<Seq<char>>) -> RuntimeModel {
        RuntimeModel {
            ota_in_progress: false,
            ota_error_reason: reason,
            status: DeviceStatusModel {
                ota_state: Some(
                    if success {
                        "active"@
                    } else {
                        "failed"@
                    },
                ),
                ..self.status
            },
            ..self
        }
    }
}

/// In a list without repeated correlation ids, dropping the entries that
/// carry the id found at `i` removes exactly that entry.
pub proof fn without_corr_removes_entry(commands: Seq<InFlightModel>, i: int)
    requires
        corr_ids_unique(commands),
        0 <= i < commands.len(),
    ensures
        without_corr(commands, commands[i].corr_id) == commands.remove(i),
    decreases commands.len(),
{
    let corr_id = commands[i].corr_id;
    let front = commands.drop_last();
    if i == commands.len() - 1 {
        without_corr_keeps_others(front, corr_id);
        assert(commands.remove(i) =~= front);
    } else {
        assert(front[i] == commands[i]);
        without_corr_removes_entry(front, i);
        assert(commands.last().corr_id != corr_id);
        assert(front.remove(i).push(commands.last()) =~= commands.remove(i));
    }
}

/// Dropping the entries that carry an id which no entry carries changes
/// nothing.
pub proof fn without_corr_keeps_others(commands: Seq<InFlightModel>, corr_id: Seq<char>)
    requires
        !has_corr(commands, corr_id),
    ensures
        without_corr(commands, corr_id) == commands,
    decreases commands.len(),
{
    if commands.len() > 0 {
        let front = commands.drop_last();
        assert(commands[commands.len() - 1].corr_id != corr_id);
        assert forall|i: int| 0 <= i < front.len() implies (#[trigger] front[i]).corr_id
            != corr_id by {
            assert(front[i] == commands[i]);
        }
        without_corr_keeps_others(front, corr_id);
        assert(front.push(commands.last()) =~= commands);
    }
}

/// Dropping entries keeps the others in order: what remains is a list
/// without the id, no longer than before, and still free of repeats.
pub proof fn without_corr_properties(commands: Seq<InFlightModel>, corr_id: Seq<char>)
    ensures
        !has_corr(without_corr(commands, corr_id), corr_id),
        without_corr(commands, corr_id).len() <= commands.len(),
        forall|k: int|
            0 <= k < without_corr(commands, corr_id).len() ==> has_corr(
                commands,
                (#[trigger] without_corr(commands, corr_id)[k]).corr_id,
            ),
        corr_ids_unique(commands) ==> corr_ids_unique(without_corr(commands, corr_id)),
    decreases commands.len(),
{
    let kept = without_corr(commands, corr_id);
    if commands.len() > 0 {
        let front = commands.drop_last();
        let last = commands.last();
        without_corr_properties(front, corr_id);
        let kept_front = without_corr(front, corr_id);
        assert forall|k: int| 0 <= k < kept.len() implies has_corr(
            commands,
            (#[trigger] kept[k]).corr_id,
        ) by {
            if k < kept_front.len() {
                assert(kept[k] == kept_front[k]);
                let w = choose|w: int|
                    0 <= w < front.len() && (#[trigger] front[w]).corr_id == kept_front[k].corr_id;
                assert(commands[w] == front[w]);
            } else {
                assert(kept[k] == last);
                assert(commands[commands.len() - 1] == last);
            }
        }
        if corr_ids_unique(commands) {
            assert forall|a: int, b: int| 0 <= a < b < front.len() implies (#[trigger] front[a]).corr_id
                != (#[trigger] front[b]).corr_id by {
                assert(front[a] == commands[a]);
                assert(front[b] == commands[b]);
            }
            assert forall|a: int, b: int| 0 <= a < b < kept.len() implies (#[trigger] kept[a]).corr_id
                != (#[trigger] kept[b]).corr_id by {
                if b < kept_front.len() {
                    assert(kept[a] == kept_front[a]);
                    assert(kept[b] == kept_front[b]);
                } else {
                    assert(kept[b] == last);
                    assert(kept[a] == kept_front[a]);
                    let w = choose|w: int|
                        0 <= w < front.len() && (#[trigger] front[w]).corr_id
                            == kept_front[a].corr_id;
                    assert(commands[w] == front[w]);
                    assert(commands[commands.len() - 1] == last);
                }
            }
        }
    }
}

/// The current time, in whole milliseconds since the Unix epoch, as
/// `SystemTime::now` reports it; 0 when the clock stands before the epoch.
/// Nothing is promised of the value.
#[verifier::external_body]
pub fn now_ms() -> u64 {
    match std::time::SystemTime::now().duration_since(std::time::UNIX_EPOCH) {
        Ok(elapsed) => elapsed.as_millis() as u64,
        Err(_) => 0,
    }
}

/// The views of a list of commands in flight.
pub open spec fn in_flight_view(commands: Seq<InFlightCommand>) -> Seq<InFlightModel> {
    commands.map_values(|c: InFlightCommand| c@)
}

/// The executable state of the device runtime.
#[derive(Debug)]
pub struct RuntimeState {
    mode: RuntimeMode,
    last_seq: u64,
    seen_message_ids: Vec<String>,
    in_flight: Vec<InFlightCommand>,
    diagnostics: VecDeque<String>,
    last_status: DeviceStatus,
    offline_since_ms: Option<u64>,
    last_heartbeat_ms: Option<u64>,
    host_allowlist: Vec<String>,
    safety_fail_count: u32,
    safety_fail_limit: u32,
    ota_in_progress: bool,
    ota_target_version: Option<String>,
    ota_error_reason: Option<String>,
}

impl View for RuntimeState {
    type V = RuntimeModel;

    closed spec fn view(&self) -> RuntimeModel {
        RuntimeModel {
            mode: self.mode@,
            last_seq: self.last_seq,
            seen: strings_view(self.seen_message_ids@),
            in_flight: in_flight_view(self.in_flight@),
            diagnostics: strings_view(self.diagnostics@),
            status: self.last_status@,
            offline_since_ms: self.offline_since_ms,
            last_heartbeat_ms: self.last_heartbeat_ms,
            allowlist: strings_view(self.host_allowlist@),
            safety_fail_count: self.safety_fail_count,
            safety_fail_limit: self.safety_fail_limit,
            ota_in_progress: self.ota_in_progress,
            ota_target_version: opt_string_view(self.ota_target_version),
            ota_error_reason: opt_string_view(self.ota_error_reason),
        }
    }
}

/// Copies a list of commands in flight.
fn clone_in_flight(commands: &Vec<InFlightCommand>) -> (copy: Vec<InFlightCommand>)
    ensures
        in_flight_view(copy@) == in_flight_view(commands@),
{
    let mut copy: Vec<InFlightCommand> = Vec::new();
    let mut i: usize = 0;
    while i < commands.len()
        invariant
            i <= commands.len(),
            copy@.len() == i,
            forall|j: int| 0 <= j < i ==> (#[trigger] copy@[j])@ == commands@[j]@,
        decreases commands.len() - i,
    {
        copy.push(commands[i].clone());
        i += 1;
    }
    assert(in_flight_view(copy@) =~= in_flight_view(commands@));
    copy
}

/// Copies a list of diagnostic entries.
fn clone_entries(entries: &VecDeque<String>) -> (copy: VecDeque<String>)
    ensures
        strings_view(copy@) == strings_view(entries@),
{
    let mut copy: VecDeque<String> = VecDeque::new();
    let mut i: usize = 0;
    while i < entries.len()
        invariant
            i <= entries.len(),
            copy@.len() == i,
            forall|j: int| 0 <= j < i ==> (#[trigger] copy@[j])@ == entries@[j]@,
        decreases entries.len() - i,
    {
        copy.push_back(entries[i].clone());
        i += 1;
    }
    assert(strings_view(copy@) =~= strings_view(entries@));
    copy
}

/// Appends `entry` to `entries`, dropping the oldest entry of a full list.
fn push_diagnostic(entries: &mut VecDeque<String>, entry: String)
    requires
        old(entries)@.len() <= DIAGNOSTICS_CAPACITY,
    ensures
        strings_view(final(entries)@) == push_bounded(strings_view(old(entries)@), entry@),
        final(entries)@.len() <= DIAGNOSTICS_CAPACITY,
{
    if entries.len() >= DIAGNOSTICS_CAPACITY {
        let _ = entries.pop_front();
    }
    entries.push_back(entry);
    assert(strings_view(entries@) =~= push_bounded(strings_view(old(entries)@), entry@));
}

/// Takes `message_id` into the replay filter `seen`, starting over when it
/// is full.
fn track_message_id(seen: &mut Vec<String>, message_id: &MessageId)
    requires
        old(seen)@.len() <= SEEN_CAPACITY,
        strings_view(old(seen)@).no_duplicates(),
        !strings_view(old(seen)@).contains(message_id@),
    ensures
        final(seen)@.len() <= SEEN_CAPACITY,
        strings_view(final(seen)@).no_duplicates(),
        strings_view(final(seen)@) == if old(seen)@.len() >= SEEN_CAPACITY {
            seq![message_id@]
        } else {
            strings_view(old(seen)@).push(message_id@)
        },
{
    if seen.len() >= SEEN_CAPACITY {
        seen.clear();
    }
    let ghost before = strings_view(seen@);
    seen.push(message_id.as_str().to_owned());
    assert(strings_view(seen@) =~= before.push(message_id@));
    assert forall|i: int, j: int|
        0 <= i < strings_view(seen@).len() && 0 <= j < strings_view(seen@).len() && i
            != j implies strings_view(seen@)[i] != strings_view(seen@)[j] by {
        if i < before.len() && j < before.len() {
            assert(before[i] != before[j]);
        } else if i < before.len() {
            assert(before.contains(before[i]));
        } else {
            assert(before.contains(before[j]));
        }
    }
    proof {
        if old(seen)@.len() >= SEEN_CAPACITY {
            assert(before =~= Seq::<Seq<char>>::empty());
            assert(strings_view(seen@) =~= seq![message_id@]);
        } else {
            assert(before == strings_view(old(seen)@));
        }
    }
}

/// Drops from `commands` the entry that carries `corr_id`, if there is one.
fn remove_in_flight(commands: &mut Vec<InFlightCommand>, corr_id: &str)
    requires
        corr_ids_unique(in_flight_view(old(commands)@)),
    ensures
        in_flight_view(final(commands)@) == without_corr(
            in_flight_view(old(commands)@),
            corr_id@,
        ),
        corr_ids_unique(in_flight_view(final(commands)@)),
{
    let ghost before = in_flight_view(commands@);
    proof {
        without_corr_properties(before, corr_id@);
    }
    let mut i: usize = 0;
    while i < commands.len()
        invariant
            i <= commands.len(),
            commands@ == old(commands)@,
            before == in_flight_view(commands@),
            corr_ids_unique(before),
            corr_ids_unique(without_corr(before, corr_id@)),
            forall|j: int| 0 <= j < i ==> (#[trigger] before[j]).corr_id != corr_id@,
        decreases commands.len() - i,
    {
        if str_eq(commands[i].corr_id.as_str(), corr_id) {
            proof {
                assert(before[i as int].corr_id == corr_id@);
                without_corr_removes_entry(before, i as int);
            }
            let _ = commands.remove(i);
            assert(in_flight_view(commands@) =~= before.remove(i as int));
            return ;
        }
        i += 1;
    }
    proof {
        without_corr_keeps_others(before, corr_id@);
    }
}

fn owned_strings(strs: &[&str]) -> (owned: Vec<String>)
    ensures
        strings_view(owned@) == strs_view(strs@),
{
    let mut owned: Vec<String> = Vec::new();
    let mut i: usize = 0;
    while i < strs.len()
        invariant
            i <= strs.len(),
            owned@.len() == i,
            forall|j: int| 0 <= j < i ==> (#[trigger] owned@[j])@ == strs@[j]@,
        decreases strs.len() - i,
    {
        owned.push(strs[i].to_owned());
        i += 1;
    }
    assert(strings_view(owned@) =~= strs_view(strs@));
    owned
}

impl Clone for RuntimeState {
    fn clone(&self) -> (copy: Self)
        ensures
            copy@ == self@,
    {
        proof {
            use_type_invariant(self);
        }
        RuntimeState {
            mode: self.mode.clone(),
            last_seq: self.last_seq,
            seen_message_ids: clone_strings(&self.seen_message_ids),
            in_flight: clone_in_flight(&self.in_flight),
            diagnostics: clone_entries(&self.diagnostics),
            last_status: self.last_status.clone(),
            offline_since_ms: self.offline_since_ms,
            last_heartbeat_ms: self.last_heartbeat_ms,
            host_allowlist: clone_strings(&self.host_allowlist),
            safety_fail_count: self.safety_fail_count,
            safety_fail_limit: self.safety_fail_limit,
            ota_in_progress: self.ota_in_progress,
            ota_target_version: clone_opt_string(&self.ota_target_version),
            ota_error_reason: clone_opt_string(&self.ota_error_reason),
        }
    }
}

impl RuntimeState {
    #[verifier::type_invariant]
    spec fn inv(self) -> bool {
        self@.reachable_inv()
    }

    /// A freshly started device that lets every source in.
    pub fn new() -> (state: Self)
        ensures
            state@ == RuntimeModel::initial(Seq::empty(), DEFAULT_SAFETY_RETRIES),
    {
        let hosts: Vec<String> = Vec::new();
        assert(strings_view(hosts@) =~= Seq::<Seq<char>>::empty());
        Self::start(hosts, DEFAULT_SAFETY_RETRIES)
    }

    /// A freshly started device that lets in only the sources in `hosts`
    /// (every source when `hosts` is empty or names `*`).
    pub fn with_host_allowlist(hosts: &[&str]) -> (state: Self)
        ensures
            state@ == RuntimeModel::initial(strs_view(hosts@), DEFAULT_SAFETY_RETRIES),
    {
        Self::start(owned_strings(hosts), DEFAULT_SAFETY_RETRIES)
    }

    /// Like [`Self::with_host_allowlist`], with the number of denied frames
    /// that puts the device into safe mode chosen by the caller.
    pub fn with_safety_limit(hosts: &[&str], safety_fail_limit: u32) -> (state: Self)
        ensures
            state@ == RuntimeModel::initial(strs_view(hosts@), safety_fail_limit),
    {
        Self::start(owned_strings(hosts), safety_fail_limit)
    }

    fn start(hosts: Vec<String>, safety_fail_limit: u32) -> (state: Self)
        ensures
            state@ == RuntimeModel::initial(strings_view(hosts@), safety_fail_limit),
    {
        let seen: Vec<String> = Vec::new();
        let in_flight: Vec<InFlightCommand> = Vec::new();
        let diagnostics: VecDeque<String> = VecDeque::new();
        assert(strings_view(seen@) =~= Seq::<Seq<char>>::empty());
        assert(strings_view(diagnostics@) =~= Seq::<Seq<char>>::empty());
        assert(in_flight_view(in_flight@) =~= Seq::<InFlightModel>::empty());
        RuntimeState {
            mode: RuntimeMode::Booting,
            last_seq: 0,
            seen_message_ids: seen,
            in_flight,
            diagnostics,
            last_status: DeviceStatus::default(),
            offline_since_ms: None,
            last_heartbeat_ms: None,
            host_allowlist: hosts,
            safety_fail_count: 0,
            safety_fail_limit,
            ota_in_progress: false,
            ota_target_version: None,
            ota_error_reason: None,
        }
    }

    pub fn mode(&self) -> (mode: &RuntimeMode)
        ensures
            mode@ == self@.mode,
    {
        &self.mode
    }

    pub fn last_seq(&self) -> (seq: u64)
        ensures
            seq == self@.last_seq,
    {
        self.last_seq
    }

    pub fn in_flight_count(&self) -> (count: usize)
        ensures
            count == self@.in_flight.len(),
    {
        self.in_flight.len()
    }

    pub fn diagnostics(&self) -> (entries: &VecDeque<String>)
        ensures
            strings_view(entries@) == self@.diagnostics,
            entries@.len() <= DIAGNOSTICS_CAPACITY,
    {
        proof {
            use_type_invariant(self);
        }
        &self.diagnostics
    }

    pub fn offline_since_ms(&self) -> (since: Option<u64>)
        ensures
            since == self@.offline_since_ms,
    {
        self.offline_since_ms
    }

    pub fn safety_fail_count(&self) -> (count: u32)
        ensures
            count == self@.safety_fail_count,
    {
        self.safety_fail_count
    }

    pub fn ota_in_progress(&self) -> (running: bool)
        ensures
            running == self@.ota_in_progress,
    {
        self.ota_in_progress
    }

    pub fn ota_target_version(&self) -> (version: Option<&str>)
        ensures
            opt_str_view(version) == self@.ota_target_version,
    {
        match &self.ota_target_version {
            Some(version) => Some(version.as_str()),
            None => None,
        }
    }

    pub fn ota_error_reason(&self) -> (reason: Option<&str>)
        ensures
            opt_str_view(reason) == self@.ota_error_reason,
    {
        match &self.ota_error_reason {
            Some(reason) => Some(reason.as_str()),
            None => None,
        }
    }

    /// The scene on show: a function of the mode alone.
    pub fn scene(&self) -> (scene: Scene)
        ensures
            scene == self@.scene(),
    {
        match &self.mode {
            RuntimeMode::Booting => Scene::Boot,
            RuntimeMode::Connected => Scene::Paired,
            RuntimeMode::Offline => Scene::Offline,
            RuntimeMode::Error(_) => Scene::Error,
            RuntimeMode::SafeMode(_) => Scene::Settings,
        }
    }

    pub fn status(&self) -> (status: &DeviceStatus)
        ensures
            status@ == self@.status,
    {
        &self.last_status
    }

    /// Whether frames from `source` are let in.
    pub fn is_host_allowed(&self, source: &str) -> (allowed: bool)
        ensures
            allowed == self@.host_allowed(source@),
    {
        if self.host_allowlist.len() == 0 {
            return true;
        }
        contains_str(&self.host_allowlist, source) || contains_str(&self.host_allowlist, "*")
    }

    /// What a touch at `point` asks for in the scene on show. The state
    /// stays as it is.
    pub fn process_touch(&mut self, point: DisplayPoint) -> (action: RuntimeAction)
        ensures
            action@ == old(self)@.touch_action(point),
            final(self)@ == old(self)@,
    {
        match self.scene().action_for_touch(point) {
            Some(action) => RuntimeAction::EmitCommand { action },
            None => RuntimeAction::Nothing,
        }
    }

    /// What a raw touch sample asks for. The state stays as it is.
    pub fn apply_touch_event(&mut self, event: &TouchEventPayload) -> (action: RuntimeAction)
        ensures
            action@ == old(self)@.touch_event_action(*event),
            final(self)@ == old(self)@,
    {
        match event.phase {
            TouchPhase::Up | TouchPhase::Cancel => RuntimeAction::Nothing,
            TouchPhase::Down | TouchPhase::Move | TouchPhase::Unknown => {
                match clamp_and_validate_touch(event.x, event.y) {
                    Some(point) => self.process_touch(point),
                    None => RuntimeAction::Nothing,
                }
            },
        }
    }

    fn is_duplicate_or_stale(&self, seq: u64, message_id: &MessageId) -> (replay: bool)
        ensures
            replay == self@.is_duplicate_or_stale(seq, message_id@),
    {
        if seq <= self.last_seq {
            return true;
        }
        contains_str(&self.seen_message_ids, message_id.as_str())
    }

    /// Goes offline at `now_ms` and notes `reason` in the diagnostics,
    /// unless the device is offline already.
    pub fn mark_offline_with_reason(&mut self, reason: &str, now_ms: u64)
        ensures
            final(self)@ == old(self)@.marked_offline(reason@, now_ms),
    {
        proof {
            use_type_invariant(&*self);
        }
        if !matches!(self.mode, RuntimeMode::Offline) {
            self.mode = RuntimeMode::Offline;
            self.offline_since_ms = Some(now_ms);
            let mut entries: VecDeque<String> = VecDeque::new();
            assert(strings_view(entries@) =~= Seq::<Seq<char>>::empty());
            core::mem::swap(&mut self.diagnostics, &mut entries);
            push_diagnostic(&mut entries, reason.to_owned());
            self.diagnostics = entries;
        }
    }

    /// Enters the error mode with `reason`.
    pub fn mark_error_with_reason(&mut self, reason: &str)
        ensures
            final(self)@ == (RuntimeModel { mode: ModeModel::Error(reason@), ..old(self)@ }),
    {
        proof {
            use_type_invariant(&*self);
        }
        self.mode = RuntimeMode::Error(reason.to_owned());
    }

    /// Goes offline when the last heartbeat lies more than
    /// `heartbeat_timeout_ms` before `now_ms`; says whether it did.
    pub fn mark_offline_if_stale(&mut self, now_ms: u64, heartbeat_timeout_ms: u64) -> (stale:
        bool)
        ensures
            stale == old(self)@.is_stale(now_ms, heartbeat_timeout_ms),
            final(self)@ == old(self)@.after_stale_check(now_ms, heartbeat_timeout_ms),
    {
        if matches!(self.mode, RuntimeMode::Offline) {
            return false;
        }
        let last_seen = match self.last_heartbeat_ms {
            Some(last) => last,
            None => now_ms,
        };
        if now_ms > last_seen && now_ms - last_seen > heartbeat_timeout_ms {
            self.mark_offline_with_reason("heartbeat_stale", now_ms);
            true
        } else {
            false
        }
    }

    /// Enters safe mode when the count of denied frames has reached the
    /// limit; says whether it did. A device in safe mode stays there.
    pub fn safety_lockdown_check(&mut self) -> (locked: bool)
        ensures
            locked == old(self)@.must_lock_down(),
            final(self)@ == old(self)@.after_lockdown_check(),
    {
        proof {
            use_type_invariant(&*self);
        }
        if matches!(self.mode, RuntimeMode::SafeMode(_)) {
            return false;
        }
        if self.safety_fail_count >= self.safety_fail_limit {
            self.mode = RuntimeMode::SafeMode(
                "safety_retries_exhausted_entering_safe_mode".to_owned(),
            );
            true
        } else {
            false
        }
    }

    /// Sets the time of the last heartbeat.
    pub fn note_last_heartbeat_for_tests(&mut self, issued_at: u64)
        ensures
            final(self)@ == (RuntimeModel { last_heartbeat_ms: Some(issued_at), ..old(self)@ }),
    {
        proof {
            use_type_invariant(&*self);
        }
        self.last_heartbeat_ms = Some(issued_at);
    }

    /// Records the end of an update.
    pub fn mark_ota_complete(&mut self, success: bool, reason: Option<String>) -> (action:
        RuntimeAction)
        ensures
            final(self)@ == old(self)@.after_ota(success, opt_string_view(reason)),
            action@ == (ActionModel::RaiseUiState {
                message: if success {
                    "ota_complete"@
                } else {
                    "ota_failed"@
                },
            }),
    {
        proof {
            use_type_invariant(&*self);
        }
        self.ota_in_progress = false;
        self.ota_error_reason = reason;
        if success {
            self.last_status.ota_state = Some("active".to_owned());
            RuntimeAction::RaiseUiState { message: "ota_complete" }
        } else {
            self.last_status.ota_state = Some("failed".to_owned());
            RuntimeAction::RaiseUiState { message: "ota_failed" }
        }
    }

    fn apply_status_snapshot(&mut self, status: DeviceStatus, now: u64)
        ensures
            final(self)@ == old(self)@.with_status(status@, now),
    {
        proof {
            use_type_invariant(&*self);
        }
        let wifi_ok = status.wifi_ok;
        let word = clone_opt_string(&status.mode);
        self.last_status = status;
        if !wifi_ok {
            self.mark_offline_with_reason("status_wifi_not_ok", now);
            return ;
        }
        if let Some(word) = word {
            let word = word.as_str();
            if str_eq(word, "boot") {
                self.mode = RuntimeMode::Booting;
            } else if str_eq(word, "connected") || str_eq(word, "paired") || str_eq(
                word,
                "ready",
            ) {
                self.mode = RuntimeMode::Connected;
            } else if str_eq(word, "offline") {
                self.mode = RuntimeMode::Offline;
            } else if str_eq(word, "safe_mode") {
                self.mode = RuntimeMode::SafeMode("host_reported_safe_mode".to_owned());
            } else if str_eq(word, "error") {
                self.mode = RuntimeMode::Error("host_reported_error".to_owned());
            }
        }
    }
}

impl RuntimeState {
    fn run_command(&mut self, action: DeviceAction, args: &serde_json::Value) -> (raised:
        RuntimeAction)
        ensures
            (final(self)@, raised@) == old(self)@.after_command(
                DeviceCommandModel { action, args: crate::json::json_model(*args) },
            ),
    {
        proof {
            use_type_invariant(&*self);
        }
        match action {
            DeviceAction::Reconnect => {
                self.mode = RuntimeMode::Offline;
                RuntimeAction::RaiseUiState { message: "command_reconnect" }
            },
            DeviceAction::Retry => {
                self.mode = RuntimeMode::Booting;
                RuntimeAction::RaiseUiState { message: "command_retry" }
            },
            DeviceAction::Restart => {
                self.mode = RuntimeMode::Booting;
                RuntimeAction::RaiseUiState { message: "command_restart" }
            },
            DeviceAction::OtaStart => {
                self.ota_target_version = version_arg(args);
                self.ota_error_reason = None;
                self.ota_in_progress = true;
                RuntimeAction::RaiseUiState { message: "command_ota_start" }
            },
            DeviceAction::DiagnosticsSnapshot => RuntimeAction::RaiseUiState {
                message: "command_diagnostics",
            },
            _ => RuntimeAction::RaiseUiState { message: "command_received" },
        }
    }

    fn resolve_in_flight(&mut self, corr_id: &str)
        ensures
            final(self)@ == (RuntimeModel {
                in_flight: without_corr(old(self)@.in_flight, corr_id@),
                ..old(self)@
            }),
    {
        proof {
            use_type_invariant(&*self);
        }
        let mut commands: Vec<InFlightCommand> = Vec::new();
        assert(in_flight_view(commands@) =~= Seq::<InFlightModel>::empty());
        core::mem::swap(&mut self.in_flight, &mut commands);
        remove_in_flight(&mut commands, corr_id);
        proof {
            resolve_keeps_invariant(old(self)@, corr_id@);
        }
        self.in_flight = commands;
    }

    fn accept(&mut self, msg: &TransportMessage, now: u64)
        requires
            !old(self)@.is_duplicate_or_stale(msg@.envelope.seq, msg@.envelope.message_id),
        ensures
            final(self)@ == old(self)@.accepted(msg@, now),
    {
        proof {
            use_type_invariant(&*self);
        }
        proof {
            sequence_advance_keeps_invariant(self@, msg.envelope.seq);
        }
        self.last_seq = msg.envelope.seq;
        let mut seen: Vec<String> = Vec::new();
        assert(strings_view(seen@) =~= Seq::<Seq<char>>::empty());
        core::mem::swap(&mut self.seen_message_ids, &mut seen);
        track_message_id(&mut seen, &msg.envelope.message_id);
        self.seen_message_ids = seen;
        self.last_heartbeat_ms = Some(
            match msg.issued_at {
                Some(issued) => issued,
                None => now,
            },
        );
    }

    fn dispatch(&mut self, msg: &TransportMessage, now: u64) -> (action: RuntimeAction)
        ensures
            (final(self)@, action@) == old(self)@.dispatched(msg@, now),
    {
        proof {
            use_type_invariant(&*self);
        }
        match msg.kind {
            MessageKind::HelloAck => {
                self.mode = RuntimeMode::Connected;
                self.offline_since_ms = None;
                self.safety_fail_count = 0;
                RuntimeAction::RaiseUiState { message: "connected" }
            },
            MessageKind::StatusDelta | MessageKind::StatusSnapshot => {
                match msg.as_status_snapshot() {
                    Some(status) => {
                        let wifi_ok = status.wifi_ok;
                        self.apply_status_snapshot(status, now);
                        proof {
                            use_type_invariant(&*self);
                        }
                        if wifi_ok {
                            self.offline_since_ms = None;
                        }
                    },
                    None => {
                        self.offline_since_ms = None;
                    },
                }
                RuntimeAction::RaiseUiState { message: "status_updated" }
            },
            MessageKind::Command | MessageKind::HostCommand => match msg.as_device_command() {
                Some(command) => self.run_command(command.action, &command.args),
                None => RuntimeAction::RaiseUiState { message: "command_parse_error" },
            },
            MessageKind::CommandAck => match &msg.corr_id {
                Some(corr_id) => {
                    self.resolve_in_flight(corr_id.as_str());
                    RuntimeAction::EmitAck { corr_id: corr_id.clone(), status: "command_ack" }
                },
                None => RuntimeAction::Nothing,
            },
            MessageKind::CommandResult => {
                if let Some(corr_id) = &msg.corr_id {
                    self.resolve_in_flight(corr_id.as_str());
                }
                RuntimeAction::RaiseUiState { message: "command_result" }
            },
            MessageKind::Error => RuntimeAction::RaiseUiState { message: "host_error" },
            MessageKind::Heartbeat => {
                self.mode = RuntimeMode::Connected;
                RuntimeAction::Nothing
            },
            _ => RuntimeAction::Nothing,
        }
    }

    /// Takes in one inbound frame that arrives at `now`: the allowlist gate,
    /// the replay gate, the bookkeeping of an accepted frame, and what the
    /// frame's kind asks for, in that order.
    pub fn apply_transport_message_at(&mut self, msg: &TransportMessage, now: u64) -> (action:
        RuntimeAction)
        ensures
            (final(self)@, action@) == old(self)@.step(msg@, now),
            final(self)@.reachable_inv(),
    {
        proof {
            use_type_invariant(&*self);
        }
        if !self.is_host_allowed(msg.envelope.source.as_str()) {
            if self.safety_fail_count < u32::MAX {
                self.safety_fail_count = self.safety_fail_count + 1;
            }
            proof {
                use_type_invariant(&*self);
            }
            return RuntimeAction::RaiseUiState { message: "command_denied_unauthorized_source" };
        }
        if self.is_duplicate_or_stale(msg.envelope.seq, &msg.envelope.message_id) {
            return RuntimeAction::RaiseUiState { message: "replay_or_duplicate_rejected" };
        }
        self.accept(msg, now);
        let action = self.dispatch(msg, now);
        proof {
            use_type_invariant(&*self);
        }
        action
    }

    /// Takes in one inbound frame at the time the clock shows: the
    /// transition of [`Self::apply_transport_message_at`] for that time.
    pub fn apply_transport_message(&mut self, msg: &TransportMessage) -> (action: RuntimeAction)
        ensures
            exists|now: u64| #[trigger] old(self)@.step(msg@, now) == (final(self)@, action@),
    {
        let now = now_ms();
        let action = self.apply_transport_message_at(msg, now);
        assert(old(self)@.step(msg@, now) == (self@, action@));
        action
    }

    /// Emits `action` as a command frame at `now`: consumes the next
    /// sequence number and tracks the command under a fresh correlation id.
    pub fn emit_command_at(&mut self, action: DeviceAction, now: u64) -> (frame: TransportMessage)
        ensures
            final(self)@ == old(self)@.after_emit(action, now),
            frame@ == old(self)@.emitted_frame(action, now),
            old(self)@.last_seq < u64::MAX ==> final(self)@.in_flight == old(self)@.in_flight.push(
                InFlightModel {
                    corr_id: corr_id_for((old(self)@.last_seq + 1) as u64),
                    action,
                    enqueued_at_ms: now,
                },
            ),
            final(self)@.reachable_inv(),
    {
        proof {
            use_type_invariant(&*self);
        }
        let seq = if self.last_seq < u64::MAX {
            self.last_seq + 1
        } else {
            self.last_seq
        };
        proof {
            sequence_advance_keeps_invariant(self@, seq);
            input_keeps_invariant(self@, RuntimeInput::Emit { action, now });
            if self@.last_seq < u64::MAX {
                emit_tracks_one_more(self@, action, now);
            }
        }
        self.last_seq = seq;
        let digits = u64_to_decimal(seq);
        let message_id = MessageId::new(concat2("cmd-", digits.as_str()).as_str());
        let corr_id = concat2("corr-", digits.as_str());
        let envelope = Envelope {
            v: 1,
            seq,
            source: "device".to_owned(),
            device_id: "microclaw-device".to_owned(),
            session_id: "boot".to_owned(),
            message_id,
        };
        let mut commands: Vec<InFlightCommand> = Vec::new();
        assert(in_flight_view(commands@) =~= Seq::<InFlightModel>::empty());
        core::mem::swap(&mut self.in_flight, &mut commands);
        remove_in_flight(&mut commands, corr_id.as_str());
        let ghost kept = in_flight_view(commands@);
        let entry = InFlightCommand { corr_id: corr_id.clone(), action, enqueued_at_ms: now };
        commands.push(entry);
        proof {
            without_corr_properties(old(self)@.in_flight, corr_id@);
            assert(in_flight_view(commands@) =~= kept.push(entry@));
            assert forall|i: int, j: int|
                0 <= i < j < in_flight_view(commands@).len() implies (#[trigger] in_flight_view(
                commands@,
            )[i]).corr_id != (#[trigger] in_flight_view(commands@)[j]).corr_id by {
                if j < kept.len() {
                    assert(kept[i].corr_id != kept[j].corr_id);
                } else {
                    assert(kept[i].corr_id != corr_id@);
                }
            }
            assert(in_flight_view(commands@) == old(self)@.after_emit(action, now).in_flight);
        }
        self.in_flight = commands;
        let mut payload = json_object();
        json_insert(&mut payload, "action", json_text(action.as_str()));
        TransportMessage {
            envelope,
            kind: MessageKind::Command,
            corr_id: Some(corr_id),
            ttl_ms: None,
            issued_at: Some(now),
            signature: None,
            nonce: None,
            payload,
        }
    }

    /// Emits `action` as a command frame at the time the clock shows: the
    /// transition of [`Self::emit_command_at`] for that time.
    pub fn emit_command(&mut self, action: DeviceAction) -> (frame: TransportMessage)
        ensures
            exists|now: u64|
                final(self)@ == #[trigger] old(self)@.after_emit(action, now) && frame@ == old(
                    self,
                )@.emitted_frame(action, now),
            old(self)@.last_seq < u64::MAX ==> final(self)@.in_flight.len() == old(
                self,
            )@.in_flight.len() + 1,
            final(self)@.reachable_inv(),
    {
        let now = now_ms();
        let frame = self.emit_command_at(action, now);
        assert(self@ == old(self)@.after_emit(action, now));
        frame
    }
}

/// Whether every one of `commands` carries the correlation id of a
/// sequence number up to `last_seq`.
pub open spec fn ids_issued(commands: Seq<InFlightModel>, last_seq: u64) -> bool {
    forall|i: int| 0 <= i < commands.len() ==> id_issued((#[trigger] commands[i]).corr_id, last_seq)
}

/// Whether `corr_id` is the correlation id of a sequence number up to
/// `last_seq`.
pub open spec fn id_issued(corr_id: Seq<char>, last_seq: u64) -> bool {
    exists|seq: u64| seq <= last_seq && corr_id == corr_id_for(seq)
}

/// An id that was issued up to one sequence number was issued up to every
/// later one.
pub proof fn id_issued_later(corr_id: Seq<char>, last_seq: u64, ahead: u64)
    requires
        id_issued(corr_id, last_seq),
        last_seq <= ahead,
    ensures
        id_issued(corr_id, ahead),
{
    let seq = choose|seq: u64| seq <= last_seq && corr_id == corr_id_for(seq);
    assert(seq <= ahead && corr_id == corr_id_for(seq));
}

/// One input to the runtime, with the time at which it arrives where the
/// transition depends on it.
pub enum RuntimeInput {
    Frame { msg: TransportMessageModel, now: u64 },
    Emit { action: DeviceAction, now: u64 },
    StaleCheck { now: u64, timeout: u64 },
    LockdownCheck,
    OtaComplete { success: bool, failure: Option<Seq<char>> },
    MarkOffline { reason: Seq<char>, now: u64 },
    MarkError { reason: Seq<char> },
    Heartbeat { issued_at: u64 },
    Touch { event: TouchEventPayload },
}

impl RuntimeModel {
    /// The state after one input.
    pub open spec fn after(self, input: RuntimeInput) -> RuntimeModel {
        match input {
            RuntimeInput::Frame { msg, now } => self.step(msg, now).0,
            RuntimeInput::Emit { action, now } => self.after_emit(action, now),
            RuntimeInput::StaleCheck { now, timeout } => self.after_stale_check(now, timeout),
            RuntimeInput::LockdownCheck => self.after_lockdown_check(),
            RuntimeInput::OtaComplete { success, failure } => self.after_ota(success, failure),
            RuntimeInput::MarkOffline { reason, now } => self.marked_offline(reason, now),
            RuntimeInput::MarkError { reason } => RuntimeModel {
                mode: ModeModel::Error(reason),
                ..self
            },
            RuntimeInput::Heartbeat { issued_at } => RuntimeModel {
                last_heartbeat_ms: Some(issued_at),
                ..self
            },
            RuntimeInput::Touch { event } => self,
        }
    }

    /// The state after a run of inputs, taken in order.
    pub open spec fn after_all(self, inputs: Seq<RuntimeInput>) -> RuntimeModel
        decreases inputs.len(),
    {
        if inputs.len() == 0 {
            self
        } else {
            self.after(inputs[0]).after_all(inputs.skip(1))
        }
    }

    /// Whether every command in flight carries the correlation id of a
    /// sequence number that has been consumed.
    pub open spec fn tracks_issued_ids(self) -> bool {
        ids_issued(self.in_flight, self.last_seq)
    }

    /// What holds of every state that a freshly started device can reach.
    pub open spec fn reachable_inv(self) -> bool {
        self.wf() && self.tracks_issued_ids()
    }
}

/// A freshly started device satisfies the invariant of reachable states.
pub proof fn initial_state_is_well_formed(allowlist: Seq<Seq<char>>, limit: u32)
    ensures
        RuntimeModel::initial(allowlist, limit).reachable_inv(),
{
}

/// Different sequence numbers give different correlation ids.
pub proof fn corr_ids_differ(a: u64, b: u64)
    requires
        a != b,
    ensures
        corr_id_for(a) != corr_id_for(b),
{
    let prefix = "corr-"@;
    let da = decimal_digits(a as nat);
    let db = decimal_digits(b as nat);
    if prefix + da == prefix + db {
        assert((prefix + da).skip(prefix.len() as int) =~= da);
        assert((prefix + db).skip(prefix.len() as int) =~= db);
        crate::text::decimal_digits_injective(a as nat, b as nat);
    }
}

/// No input breaks the invariant of reachable states: the replay filter
/// and the diagnostics keep their bounds, and correlation ids stay unique.
pub proof fn input_keeps_invariant(state: RuntimeModel, input: RuntimeInput)
    requires
        state.reachable_inv(),
    ensures
        state.after(input).reachable_inv(),
        state.after(input).last_seq >= state.last_seq,
{
    let next = state.after(input);
    match input {
        RuntimeInput::Frame { msg, now } => {
            if state.accepts(msg) {
                let taken = state.accepted(msg, now);
                if state.seen.len() < SEEN_CAPACITY {
                    assert forall|i: int, j: int|
                        0 <= i < taken.seen.len() && 0 <= j < taken.seen.len() && i
                            != j implies taken.seen[i] != taken.seen[j] by {
                        if i < state.seen.len() && j < state.seen.len() {
                        } else if i < state.seen.len() {
                            assert(state.seen.contains(state.seen[i]));
                        } else {
                            assert(state.seen.contains(state.seen[j]));
                        }
                    }
                }
                assert(taken.wf());
                assert(taken.tracks_issued_ids()) by {
                    assert forall|i: int| 0 <= i < taken.in_flight.len() implies id_issued(
                        (#[trigger] taken.in_flight[i]).corr_id,
                        taken.last_seq,
                    ) by {
                        id_issued_later(state.in_flight[i].corr_id, state.last_seq, taken.last_seq);
                    }
                }
                dispatch_keeps_invariant(taken, msg, now);
            }
        },
        RuntimeInput::Emit { action, now } => {
            let seq = saturating_succ_u64(state.last_seq);
            let kept = without_corr(state.in_flight, corr_id_for(seq));
            without_corr_properties(state.in_flight, corr_id_for(seq));
            assert forall|i: int, j: int| 0 <= i < j < next.in_flight.len() implies (
            #[trigger] next.in_flight[i]).corr_id != (#[trigger] next.in_flight[j]).corr_id by {
                if j < kept.len() {
                    assert(kept[i].corr_id != kept[j].corr_id);
                } else {
                    assert(kept[i].corr_id != corr_id_for(seq));
                }
            }
            assert forall|i: int| 0 <= i < next.in_flight.len() implies id_issued(
                (#[trigger] next.in_flight[i]).corr_id,
                next.last_seq,
            ) by {
                if i < kept.len() {
                    subset_keeps_issued_ids(state, kept, i);
                    id_issued_later(kept[i].corr_id, state.last_seq, next.last_seq);
                } else {
                    assert(seq <= next.last_seq && next.in_flight[i].corr_id == corr_id_for(seq));
                }
            }
        },
        _ => {},
    }
}

/// An entry that survives the dropping of a correlation id carries the id
/// of a consumed sequence number, as every entry did before.
proof fn subset_keeps_issued_ids(state: RuntimeModel, kept: Seq<InFlightModel>, i: int)
    requires
        state.tracks_issued_ids(),
        0 <= i < kept.len(),
        has_corr(state.in_flight, kept[i].corr_id),
    ensures
        id_issued(kept[i].corr_id, state.last_seq),
{
    let w = choose|w: int|
        0 <= w < state.in_flight.len() && (#[trigger] state.in_flight[w]).corr_id
            == kept[i].corr_id;
    assert(id_issued(state.in_flight[w].corr_id, state.last_seq));
}

/// What a frame's kind asks for keeps the invariant of reachable states and
/// touches neither the sequence number nor the replay filter.
pub proof fn dispatch_keeps_invariant(state: RuntimeModel, msg: TransportMessageModel, now: u64)
    requires
        state.reachable_inv(),
    ensures
        state.dispatched(msg, now).0.reachable_inv(),
        state.dispatched(msg, now).0.last_seq == state.last_seq,
        state.dispatched(msg, now).0.seen == state.seen,
        state.dispatched(msg, now).0.allowlist == state.allowlist,
{
    let next = state.dispatched(msg, now).0;
    match msg.kind {
        MessageKind::CommandAck | MessageKind::CommandResult => {
            if let Some(corr_id) = msg.corr_id {
                without_corr_properties(state.in_flight, corr_id);
                assert forall|i: int| 0 <= i < next.in_flight.len() implies id_issued(
                    (#[trigger] next.in_flight[i]).corr_id,
                    next.last_seq,
                ) by {
                    subset_keeps_issued_ids(state, next.in_flight, i);
                }
            }
        },
        _ => {},
    }
}

/// A sequence number that moves forward keeps the invariant of reachable
/// states.
pub proof fn sequence_advance_keeps_invariant(state: RuntimeModel, ahead: u64)
    requires
        state.reachable_inv(),
        ahead >= state.last_seq,
    ensures
        (RuntimeModel { last_seq: ahead, ..state }).reachable_inv(),
{
    let commands = state.in_flight;
    assert forall|i: int| 0 <= i < commands.len() implies id_issued(
        (#[trigger] commands[i]).corr_id,
        ahead,
    ) by {
        id_issued_later(commands[i].corr_id, state.last_seq, ahead);
    }
}

/// Taking a command out of flight keeps the invariant of reachable states.
pub proof fn resolve_keeps_invariant(state: RuntimeModel, corr_id: Seq<char>)
    requires
        state.reachable_inv(),
    ensures
        (RuntimeModel { in_flight: without_corr(state.in_flight, corr_id), ..state }).reachable_inv(),
{
    let kept = without_corr(state.in_flight, corr_id);
    without_corr_properties(state.in_flight, corr_id);
    assert forall|i: int| 0 <= i < kept.len() implies id_issued(
        (#[trigger] kept[i]).corr_id,
        state.last_seq,
    ) by {
        subset_keeps_issued_ids(state, kept, i);
    }
}

/// No run of inputs breaks the invariant of reachable states, and the
/// sequence number never moves backwards.
pub proof fn inputs_keep_invariant(state: RuntimeModel, inputs: Seq<RuntimeInput>)
    requires
        state.reachable_inv(),
    ensures
        state.after_all(inputs).reachable_inv(),
        state.after_all(inputs).last_seq >= state.last_seq,
    decreases inputs.len(),
{
    if inputs.len() > 0 {
        input_keeps_invariant(state, inputs[0]);
        inputs_keep_invariant(state.after(inputs[0]), inputs.skip(1));
    }
}

/// After an accepted frame the sequence number is the frame's, and the
/// frame's id is in the replay filter.
pub proof fn accepted_frame_advances_sequence(state: RuntimeModel, msg: TransportMessageModel, now: u64)
    requires
        state.accepts(msg),
    ensures
        state.step(msg, now).0.last_seq == msg.envelope.seq,
        state.step(msg, now).0.seen.contains(msg.envelope.message_id),
        state.step(msg, now).0.last_seq > state.last_seq,
{
    let taken = state.accepted(msg, now);
    let id = msg.envelope.message_id;
    if state.seen.len() >= SEEN_CAPACITY {
        assert(taken.seen[0] == id);
    } else {
        assert(taken.seen[state.seen.len() as int] == id);
    }
}

/// A frame that was accepted once is rejected for ever after, whatever
/// inputs came in between: its sequence number is no longer ahead.
pub proof fn processed_frame_stays_rejected(
    state: RuntimeModel,
    msg: TransportMessageModel,
    now: u64,
    inputs: Seq<RuntimeInput>,
)
    requires
        state.reachable_inv(),
        state.accepts(msg),
    ensures
        !state.step(msg, now).0.after_all(inputs).accepts(msg),
        state.step(msg, now).0.after_all(inputs).last_seq >= msg.envelope.seq,
{
    accepted_frame_advances_sequence(state, msg, now);
    input_keeps_invariant(state, RuntimeInput::Frame { msg, now });
    inputs_keep_invariant(state.step(msg, now).0, inputs);
}

/// A message id in the replay filter is still there after one more input,
/// as long as the filter has room left: every frame that carries it is
/// rejected.
pub proof fn seen_id_stays_rejected(
    state: RuntimeModel,
    id: Seq<char>,
    input: RuntimeInput,
    again: TransportMessageModel,
)
    requires
        state.seen.contains(id),
        state.seen.len() < SEEN_CAPACITY,
        again.envelope.message_id == id,
    ensures
        state.after(input).seen.contains(id),
        !state.after(input).accepts(again),
        !state.accepts(again),
{
    let next = state.after(input);
    let at = choose|at: int| 0 <= at < state.seen.len() && state.seen[at] == id;
    match input {
        RuntimeInput::Frame { msg, now } => {
            if state.accepts(msg) {
                let taken = state.accepted(msg, now);
                assert(taken.seen[at] == id);
                assert(next.seen == taken.seen);
            }
        },
        _ => {},
    }
    assert(next.seen[at] == id);
}

/// A message id in the replay filter stays there, and every frame that
/// carries it stays rejected, through any run of inputs that the filter has
/// room for.
pub proof fn seen_id_stays_rejected_while_room(
    state: RuntimeModel,
    id: Seq<char>,
    inputs: Seq<RuntimeInput>,
    again: TransportMessageModel,
)
    requires
        state.seen.contains(id),
        state.seen.len() + inputs.len() <= SEEN_CAPACITY,
        again.envelope.message_id == id,
    ensures
        state.after_all(inputs).seen.contains(id),
        !state.after_all(inputs).accepts(again),
        state.after_all(inputs).seen.len() <= state.seen.len() + inputs.len(),
    decreases inputs.len(),
{
    if inputs.len() > 0 {
        let next = state.after(inputs[0]);
        seen_id_stays_rejected(state, id, inputs[0], again);
        match inputs[0] {
            RuntimeInput::Frame { msg, now } => {
                if state.accepts(msg) {
                    assert(next.seen == state.accepted(msg, now).seen);
                }
            },
            _ => {},
        }
        assert(next.seen.len() <= state.seen.len() + 1);
        seen_id_stays_rejected_while_room(next, id, inputs.skip(1), again);
    }
}

/// An accepted hello acknowledgement connects the device and clears the
/// count of denied frames.
pub proof fn hello_ack_connects(state: RuntimeModel, msg: TransportMessageModel, now: u64)
    requires
        state.accepts(msg),
        msg.kind == MessageKind::HelloAck,
    ensures
        state.step(msg, now).0.mode == ModeModel::Connected,
        state.step(msg, now).0.safety_fail_count == 0,
        state.step(msg, now).1 == (ActionModel::RaiseUiState { message: "connected"@ }),
{
}

/// An accepted status frame that reports no wifi takes a device that was
/// not offline offline at the time the frame arrives, whatever mode the
/// report names: the report is stored, the reason is the newest diagnostic,
/// and the offline stamp is that time. A device that was offline already
/// keeps its stamp.
pub proof fn status_without_wifi_goes_offline(
    state: RuntimeModel,
    msg: TransportMessageModel,
    now: u64,
    status: DeviceStatusModel,
)
    requires
        state.accepts(msg),
        msg.kind == MessageKind::StatusSnapshot || msg.kind == MessageKind::StatusDelta,
        spec_parse_status(msg.payload) == Some(status),
        !status.wifi_ok,
    ensures
        state.step(msg, now).0.mode == ModeModel::Offline,
        state.step(msg, now).0.status == status,
        state.step(msg, now).1 == (ActionModel::RaiseUiState { message: "status_updated"@ }),
        !(state.mode is Offline) ==> state.step(msg, now).0.offline_since_ms == Some(now)
            && state.step(msg, now).0.diagnostics.len() > 0 && state.step(
            msg,
            now,
        ).0.diagnostics.last() == "status_wifi_not_ok"@,
        state.mode is Offline ==> state.step(msg, now).0.offline_since_ms
            == state.offline_since_ms && state.step(msg, now).0.diagnostics == state.diagnostics,
{
}

/// The count of denied frames moves only when a frame is denied, which
/// raises it by one, or when a hello acknowledgement is accepted, which
/// clears it.
pub proof fn fail_count_moves_on_denial_or_hello(
    state: RuntimeModel,
    msg: TransportMessageModel,
    now: u64,
)
    ensures
        !state.host_allowed(msg.envelope.source) ==> state.step(msg, now).0.safety_fail_count
            == saturating_succ_u32(state.safety_fail_count),
        state.accepts(msg) && msg.kind == MessageKind::HelloAck ==> state.step(
            msg,
            now,
        ).0.safety_fail_count == 0,
        state.host_allowed(msg.envelope.source) && !(state.accepts(msg) && msg.kind
            == MessageKind::HelloAck) ==> state.step(msg, now).0.safety_fail_count
            == state.safety_fail_count,
{
}

/// Emitting a command from a reachable state whose sequence numbers are
/// not used up puts exactly one more command in flight, under a correlation
/// id that no other command in flight carries.
pub proof fn emit_tracks_one_more(state: RuntimeModel, action: DeviceAction, now: u64)
    requires
        state.reachable_inv(),
        state.last_seq < u64::MAX,
    ensures
        state.after_emit(action, now).in_flight == state.in_flight.push(
            InFlightModel {
                corr_id: corr_id_for((state.last_seq + 1) as u64),
                action,
                enqueued_at_ms: now,
            },
        ),
        !has_corr(state.in_flight, corr_id_for((state.last_seq + 1) as u64)),
        state.after_emit(action, now).last_seq == state.last_seq + 1,
{
    let seq = (state.last_seq + 1) as u64;
    assert forall|i: int| 0 <= i < state.in_flight.len() implies (
    #[trigger] state.in_flight[i]).corr_id != corr_id_for(seq) by {
        let k = choose|k: u64|
            k <= state.last_seq && state.in_flight[i].corr_id == corr_id_for(k);
        corr_ids_differ(k, seq);
    }
    without_corr_keeps_others(state.in_flight, corr_id_for(seq));
}

/// An accepted acknowledgement or result takes the command with its
/// correlation id out of flight, that one alone; one that matches no
/// command in flight changes nothing there.
pub proof fn matching_reply_resolves_command(
    state: RuntimeModel,
    msg: TransportMessageModel,
    now: u64,
    corr_id: Seq<char>,
)
    requires
        state.reachable_inv(),
        state.accepts(msg),
        msg.kind == MessageKind::CommandAck || msg.kind == MessageKind::CommandResult,
        msg.corr_id == Some(corr_id),
    ensures
        !has_corr(state.step(msg, now).0.in_flight, corr_id),
        forall|i: int|
            0 <= i < state.in_flight.len() && (#[trigger] state.in_flight[i]).corr_id == corr_id
                ==> state.step(msg, now).0.in_flight == state.in_flight.remove(i),
        !has_corr(state.in_flight, corr_id) ==> state.step(msg, now).0.in_flight
            == state.in_flight,
{
    let taken = state.accepted(msg, now);
    without_corr_properties(taken.in_flight, corr_id);
    if !has_corr(state.in_flight, corr_id) {
        without_corr_keeps_others(state.in_flight, corr_id);
    }
    assert forall|i: int|
        0 <= i < state.in_flight.len() && (#[trigger] state.in_flight[i]).corr_id
            == corr_id implies state.step(msg, now).0.in_flight == state.in_flight.remove(i) by {
        without_corr_removes_entry(state.in_flight, i);
    }
}

/// Every mode shows a scene, and the scene tells the mode's kind: booting
/// shows the boot scene, connected the paired scene, offline the offline
/// scene, an error the error scene, and safe mode the settings.
pub proof fn scene_follows_mode(mode: ModeModel)
    ensures
        mode is Booting <==> mode.scene() == Scene::Boot,
        mode is Connected <==> mode.scene() == Scene::Paired,
        mode is Offline <==> mode.scene() == Scene::Offline,
        mode is Error <==> mode.scene() == Scene::Error,
        mode is SafeMode <==> mode.scene() == Scene::Settings,
{
}

} // verus!
