//! The cooperative device loop: one step drains the touch pipeline, takes
//! in the inbound frames, checks for a stale heartbeat, lets the renderer
//! show the scene, and hands back what is to be sent.

use crate::pipeline::{TouchEventFrame, TouchPipeline, TouchPipelineModel};
use crate::protocol::{TouchPhase, TransportMessage, TransportMessageModel};
use crate::renderer::SceneRenderer;
use crate::runtime::{ActionModel, RuntimeAction, RuntimeModel, RuntimeState};
use crate::text::strs_view;
use vstd::prelude::*;

verus! {

/// How often the loop renders and how long it waits for a heartbeat.
#[derive(Clone, Copy, Debug, PartialEq, Eq, Structural)]
pub struct EventLoopConfig {
    pub render_interval_ms: u64,
    pub offline_timeout_ms: u64,
}

/// What one step of the loop hands back.
#[derive(Debug)]
pub struct StepOutput {
    pub ui_messages: Vec<&'static str>,
    pub outbound: Vec<TransportMessage>,
    pub rendered: bool,
    pub offline_entered: bool,
}

/// The views of a run of frames.
pub open spec fn frames_view(frames: Seq<TransportMessage>) -> Seq<TransportMessageModel> {
    frames.map_values(|frame: TransportMessage| frame@)
}

/// What has come of a run of inputs: the state they led to, the ui
/// messages they raised and the frames they put out.
pub struct Progress {
    pub state: RuntimeModel,
    pub ui_messages: Seq<Seq<char>>,
    pub outbound: Seq<TransportMessageModel>,
}

impl Progress {
    /// The progress before any input.
    pub open spec fn start(state: RuntimeModel) -> Progress {
        Progress { state, ui_messages: Seq::empty(), outbound: Seq::empty() }
    }

    /// The progress after what `action` asks for was done at `now`: a ui
    /// state is noted by its message, an acknowledgement by its status, and
    /// a command is emitted.
    pub open spec fn with_action(self, action: ActionModel, now: u64) -> Progress {
        match action {
            ActionModel::Nothing => self,
            ActionModel::RaiseUiState { message } => Progress {
                ui_messages: self.ui_messages.push(message),
                ..self
            },
            ActionModel::EmitAck { corr_id, status } => Progress {
                ui_messages: self.ui_messages.push(status),
                ..self
            },
            ActionModel::EmitCommand { action } => Progress {
                state: self.state.after_emit(action, now),
                outbound: self.outbound.push(self.state.emitted_frame(action, now)),
                ..self
            },
        }
    }

    /// The progress after the pipeline slot `slot` was taken out at `now`:
    /// a frame whose finger is on the screen is a touch in the scene on
    /// show.
    pub open spec fn with_slot(self, slot: Option<TouchEventFrame>, now: u64) -> Progress {
        match slot {
            Some(frame) => match frame.phase {
                TouchPhase::Up | TouchPhase::Cancel => self,
                _ => self.with_action(self.state.touch_action(frame.point), now),
            },
            None => self,
        }
    }

    /// The progress after every slot of `slots` was taken out, oldest
    /// first.
    pub open spec fn with_slots(self, slots: Seq<Option<TouchEventFrame>>, now: u64) -> Progress
        decreases slots.len(),
    {
        if slots.len() == 0 {
            self
        } else {
            self.with_slots(slots.drop_last(), now).with_slot(slots.last(), now)
        }
    }

    /// The progress after the inbound frame `msg` was taken in at `now`.
    pub open spec fn with_frame(self, msg: TransportMessageModel, now: u64) -> Progress {
        (Progress { state: self.state.step(msg, now).0, ..self }).with_action(
            self.state.step(msg, now).1,
            now,
        )
    }

    /// The progress after every frame of `frames` was taken in, in order.
    pub open spec fn with_frames(self, frames: Seq<TransportMessageModel>, now: u64) -> Progress
        decreases frames.len(),
    {
        if frames.len() == 0 {
            self
        } else {
            self.with_frames(frames.drop_last(), now).with_frame(frames.last(), now)
        }
    }
}

/// The loop's own state: its configuration and when it last rendered.
pub struct DeviceEventLoop {
    config: EventLoopConfig,
    last_render_ms: Option<u64>,
}

/// What a [`DeviceEventLoop`] holds.
pub struct EventLoopModel {
    pub config: EventLoopConfig,
    pub last_render_ms: Option<u64>,
}

impl EventLoopModel {
    /// Whether a step at `now` renders: always the first time, then when
    /// the render interval has passed since the last time.
    pub open spec fn render_due(self, now: u64) -> bool {
        match self.last_render_ms {
            Some(last) => now - last >= self.config.render_interval_ms,
            None => true,
        }
    }

    /// The loop after a step at `now`.
    pub open spec fn stepped(self, now: u64) -> EventLoopModel {
        if self.render_due(now) {
            EventLoopModel { last_render_ms: Some(now), ..self }
        } else {
            self
        }
    }
}

impl View for DeviceEventLoop {
    type V = EventLoopModel;

    closed spec fn view(&self) -> EventLoopModel {
        EventLoopModel { config: self.config, last_render_ms: self.last_render_ms }
    }
}

/// Does what `action` asks for and notes it in `output`.
fn absorb(output: &mut StepOutput, state: &mut RuntimeState, action: RuntimeAction, now: u64)
    ensures
        final(output).rendered == old(output).rendered,
        final(output).offline_entered == old(output).offline_entered,
        (Progress {
            state: final(state)@,
            ui_messages: strs_view(final(output).ui_messages@),
            outbound: frames_view(final(output).outbound@),
        }) == (Progress {
            state: old(state)@,
            ui_messages: strs_view(old(output).ui_messages@),
            outbound: frames_view(old(output).outbound@),
        }).with_action(action@, now),
{
    match action {
        RuntimeAction::Nothing => {},
        RuntimeAction::RaiseUiState { message } => {
            output.ui_messages.push(message);
            assert(strs_view(output.ui_messages@) =~= strs_view(old(output).ui_messages@).push(
                message@,
            ));
        },
        RuntimeAction::EmitAck { corr_id, status } => {
            output.ui_messages.push(status);
            assert(strs_view(output.ui_messages@) =~= strs_view(old(output).ui_messages@).push(
                status@,
            ));
        },
        RuntimeAction::EmitCommand { action } => {
            let frame = state.emit_command_at(action, now);
            output.outbound.push(frame);
            assert(frames_view(output.outbound@) =~= frames_view(old(output).outbound@).push(
                frame@,
            ));
        },
    }
}

impl DeviceEventLoop {
    pub fn new(config: EventLoopConfig) -> (event_loop: Self)
        ensures
            event_loop@ == (EventLoopModel { config, last_render_ms: None }),
    {
        DeviceEventLoop { config, last_render_ms: None }
    }

    /// One step of the loop at `now`.
    ///
    /// The touch pipeline is drained, oldest slot first, and every touch is
    /// answered by the scene on show. Then the inbound frames are taken in,
    /// in arrival order. Then the heartbeat is checked. Last, when a render
    /// is due, the renderer shows the scene. The output holds the ui
    /// messages raised and the commands emitted on the way, in order.
    pub fn step<R: SceneRenderer>(
        &mut self,
        state: &mut RuntimeState,
        pipeline: &mut TouchPipeline,
        inbound: &[TransportMessage],
        now: u64,
        renderer: &mut R,
    ) -> (output: StepOutput)
        ensures
            ({
                let progress = Progress::start(old(state)@).with_slots(
                    old(pipeline)@.slots,
                    now,
                ).with_frames(frames_view(inbound@), now);
                let timeout = old(self)@.config.offline_timeout_ms;
                &&& final(state)@ == progress.state.after_stale_check(now, timeout)
                &&& output.offline_entered == progress.state.is_stale(now, timeout)
                &&& strs_view(output.ui_messages@) == progress.ui_messages
                &&& frames_view(output.outbound@) == progress.outbound
            }),
            final(pipeline)@ == (TouchPipelineModel { slots: Seq::empty(), ..old(pipeline)@ }),
            final(self)@ == old(self)@.stepped(now),
            !old(self)@.render_due(now) ==> !output.rendered,
    {
        let mut output = StepOutput {
            ui_messages: Vec::new(),
            outbound: Vec::new(),
            rendered: false,
            offline_entered: false,
        };
        let ghost slots = pipeline@.slots;
        let ghost first = Progress::start(state@);
        proof {
            assert(strs_view(output.ui_messages@) =~= Seq::<Seq<char>>::empty());
            assert(frames_view(output.outbound@) =~= Seq::<TransportMessageModel>::empty());
            assert(slots.skip(0) =~= slots);
        }
        let ghost mut taken: int = 0;
        while pipeline.queue_depth() > 0
            invariant
                0 <= taken <= slots.len(),
                pipeline@.slots == slots.skip(taken),
                pipeline@.dropped_count == old(pipeline)@.dropped_count,
                !output.rendered && !output.offline_entered,
                (Progress {
                    state: state@,
                    ui_messages: strs_view(output.ui_messages@),
                    outbound: frames_view(output.outbound@),
                }) == first.with_slots(slots.take(taken), now),
            decreases slots.len() - taken,
        {
            proof {
                let next = slots.take(taken + 1);
                assert(next.drop_last() =~= slots.take(taken));
                assert(next.last() == slots[taken]);
                assert(slots.skip(taken)[0] == slots[taken]);
                assert(slots.skip(taken).skip(1) =~= slots.skip(taken + 1));
            }
            let slot = pipeline.next_frame();
            if let Some(frame) = slot {
                match frame.phase {
                    TouchPhase::Up | TouchPhase::Cancel => {},
                    _ => {
                        let action = state.process_touch(frame.point);
                        absorb(&mut output, state, action, now);
                    },
                }
            }
            proof {
                taken = taken + 1;
            }
        }
        proof {
            assert(slots.take(taken) =~= slots);
            assert(pipeline@.slots =~= Seq::<Option<TouchEventFrame>>::empty());
        }
        let ghost drained = first.with_slots(slots, now);
        let ghost frames = frames_view(inbound@);
        let mut i: usize = 0;
        while i < inbound.len()
            invariant
                i <= inbound.len(),
                frames == frames_view(inbound@),
                !output.rendered && !output.offline_entered,
                (Progress {
                    state: state@,
                    ui_messages: strs_view(output.ui_messages@),
                    outbound: frames_view(output.outbound@),
                }) == drained.with_frames(frames.take(i as int), now),
            decreases inbound.len() - i,
        {
            proof {
                let next = frames.take(i as int + 1);
                assert(next.drop_last() =~= frames.take(i as int));
                assert(next.last() == frames[i as int]);
            }
            let action = state.apply_transport_message_at(&inbound[i], now);
            absorb(&mut output, state, action, now);
            i += 1;
        }
        proof {
            assert(frames.take(i as int) =~= frames);
        }
        output.offline_entered = state.mark_offline_if_stale(now, self.config.offline_timeout_ms);
        let due = match self.last_render_ms {
            Some(last) => now >= last && now - last >= self.config.render_interval_ms,
            None => true,
        };
        if due {
            output.rendered = renderer.render(state, now);
            self.last_render_ms = Some(now);
        }
        output
    }
}

} // verus!
