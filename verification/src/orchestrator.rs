//! The frame loop as a state machine: which phase it is in, what an event
//! does to it, and what a frame takes from and hands to the caller.
//!
//! The caller owns the window, the clock and the GPU. It feeds every event
//! to `Orchestrator::handle` and does what the returned `Action` says. For
//! `Action::RenderFrame` it calls `begin_frame`, integrates the plan it
//! gets into a new pose, calls `finish_frame` with that pose and submits
//! what comes back, stage by stage in the order of `frame_stages`.

use vstd::prelude::*;
use crate::camera::CameraState;
use crate::camera::pitch_settled;
use crate::camera::CameraView;
use crate::camera::Pose;
use crate::camera::SpeedLevel;
use crate::config::FrameConfig;
use crate::dispatch::dispatch_groups;
use crate::dispatch::whole_tiles;
use crate::input::InputState;
use crate::input::InputView;
use crate::input::Key;
use crate::input::Motion;
use crate::input::MouseDelta;
use crate::timing::diagnostic_due;
use crate::timing::next_tick;
use crate::timing::since;
use crate::timing::FrameTiming;
use crate::timing::Tick;
use crate::timing::TimingView;

verus! {

/// Logical width of the viewer's window, which cannot be resized.
pub const WINDOW_WIDTH: u32 = 800;

/// Logical height of the viewer's window.
pub const WINDOW_HEIGHT: u32 = 600;

/// Where the loop stands.
#[derive(Clone, Copy, Debug, PartialEq, Eq, Structural)]
pub enum Phase {
    /// Device and surface are being acquired.
    Initializing,
    /// Frames are rendered.
    Running,
    /// The loop has stopped; nothing leaves this phase.
    Terminating,
}

/// What went wrong beyond repair.
#[derive(Clone, Copy, Debug, PartialEq, Eq, Structural)]
pub enum Failure {
    /// No compatible adapter was found.
    NoAdapter,
    /// The device could not be created.
    NoDevice,
    /// The next image of the display surface could not be acquired.
    SurfaceLost,
}

/// What the caller reports to the loop.
#[derive(Clone, Copy, Debug, PartialEq, Eq, Structural)]
pub enum Event {
    /// Device and surface are there.
    Ready,
    /// Something failed beyond repair.
    Failed(Failure),
    /// A key went down (`pressed`) or up.
    Key { key: Key, pressed: bool },
    /// The mouse moved; both parts are single-precision bit patterns.
    MouseMotion { dx: u32, dy: u32 },
    /// All pending events have been delivered.
    EventsCleared,
    /// The window wants to be painted.
    RedrawRequested,
    /// The window was asked to close.
    CloseRequested,
    /// Anything else.
    Other,
}

/// What the caller is to do after an event.
#[derive(Clone, Copy, Debug, PartialEq, Eq, Structural)]
pub enum Action {
    /// Nothing.
    Idle,
    /// Ask the window for a redraw.
    RequestRedraw,
    /// Render and present one frame.
    RenderFrame,
    /// Leave the loop.
    Exit,
    /// Stop the process with a diagnostic.
    Abort(Failure),
}

/// A step of the work that one frame submits.
#[derive(Clone, Copy, Debug, PartialEq, Eq, Structural)]
pub enum FrameStage {
    /// Copy the encoded record into the uniform buffer.
    Upload,
    /// Dispatch the image-synthesis kernel.
    Compute,
    /// Paint the display surface from the intermediate image.
    Blit,
    /// Hand the painted image to the display.
    Present,
}

/// The part of the loop's state that decides its next step.
pub struct LoopState {
    pub phase: Phase,
    pub input: InputView,
}

/// The input after `event` was recorded in it.
pub open spec fn recorded(input: InputView, event: Event) -> InputView {
    match event {
        Event::Key { key, pressed } => input.key(key, pressed),
        Event::MouseMotion { dx, dy } => input.mouse(MouseDelta { dx, dy }),
        Event::CloseRequested => input.stop(),
        _ => input,
    }
}

/// Whether `event` asks the loop to stop: Escape going down, or the
/// window being asked to close.
pub open spec fn is_stop(event: Event) -> bool {
    event == (Event::Key { key: Key::Escape, pressed: true }) || event == Event::CloseRequested
}

/// One step of the loop: the state after `event`, and what the caller is
/// to do.
///
/// Once terminating, the loop ignores everything. Before that a failure
/// aborts; any other event is recorded in the input, and if the input then
/// asks to stop, the loop terminates. Otherwise `Ready` starts the
/// running phase, and while running the end of the event queue asks for a
/// redraw and a redraw request renders a frame.
pub open spec fn step(state: LoopState, event: Event) -> (LoopState, Action) {
    if state.phase == Phase::Terminating {
        (state, Action::Idle)
    } else if let Event::Failed(failure) = event {
        (LoopState { phase: Phase::Terminating, input: state.input }, Action::Abort(failure))
    } else {
        let input = recorded(state.input, event);
        if input.quit {
            (LoopState { phase: Phase::Terminating, input }, Action::Exit)
        } else if state.phase == Phase::Initializing {
            if event == Event::Ready {
                (LoopState { phase: Phase::Running, input }, Action::Idle)
            } else {
                (LoopState { phase: Phase::Initializing, input }, Action::Idle)
            }
        } else if event == Event::EventsCleared {
            (LoopState { phase: Phase::Running, input }, Action::RequestRedraw)
        } else if event == Event::RedrawRequested {
            (LoopState { phase: Phase::Running, input }, Action::RenderFrame)
        } else {
            (LoopState { phase: Phase::Running, input }, Action::Idle)
        }
    }
}

/// The state after a sequence of events.
pub open spec fn run(state: LoopState, events: Seq<Event>) -> LoopState
    decreases events.len(),
{
    if events.len() == 0 {
        state
    } else {
        step(run(state, events.drop_last()), events.last()).0
    }
}

/// What the caller is told after the last of a sequence of events.
pub open spec fn last_action(state: LoopState, events: Seq<Event>) -> Action
    recommends
        events.len() > 0,
{
    step(run(state, events.drop_last()), events.last()).1
}

/// The stages of a frame in the order of their submission.
pub open spec fn stage_order() -> Seq<FrameStage> {
    seq![FrameStage::Upload, FrameStage::Compute, FrameStage::Blit, FrameStage::Present]
}

/// The stages of a frame in the order of their submission: the record is
/// uploaded before the kernel reads it, and the kernel has written the
/// image before the blit samples it.
pub fn frame_stages() -> (stages: Vec<FrameStage>)
    ensures
        stages@ == stage_order(),
{
    let mut stages: Vec<FrameStage> = Vec::new();
    stages.push(FrameStage::Upload);
    stages.push(FrameStage::Compute);
    stages.push(FrameStage::Blit);
    stages.push(FrameStage::Present);
    assert(stages@ =~= stage_order());
    stages
}

impl Failure {
    /// The diagnostic that goes with the failure.
    pub fn message(self) -> (text: &'static str)
        ensures
            text@ == match self {
                Failure::NoAdapter => "error finding adapter"@,
                Failure::NoDevice => "error creating device"@,
                Failure::SurfaceLost => "error getting texture from swap chain"@,
            },
    {
        match self {
            Failure::NoAdapter => "error finding adapter",
            Failure::NoDevice => "error creating device",
            Failure::SurfaceLost => "error getting texture from swap chain",
        }
    }
}

/// What an `Orchestrator` holds, as a plain value.
pub struct OrchestratorView {
    pub phase: Phase,
    pub input: InputView,
    pub camera: CameraView,
    pub timing: TimingView,
    /// Display width in pixels.
    pub width: u32,
    /// Display height in pixels.
    pub height: u32,
}

impl OrchestratorView {
    /// The part that decides the next step.
    pub open spec fn loop_state(self) -> LoopState {
        LoopState { phase: self.phase, input: self.input }
    }
}

/// What a frame starts from: the time step, the input gathered since the
/// frame before, and the pose to integrate from.
pub struct FramePlan {
    /// Time since the frame before and since the start.
    pub tick: Tick,
    /// The mouse motions to turn by, oldest first.
    pub turns: Vec<MouseDelta>,
    /// The held directions, in the order in which to apply them.
    pub motions: Vec<Motion>,
    /// The speed at which to move.
    pub speed: SpeedLevel,
    /// The pose before the frame.
    pub pose: Pose,
}

/// What a frame submits: the encoded record to upload and the grid of
/// work-groups to dispatch.
pub struct FrameOutput {
    /// The record that was encoded.
    pub config: FrameConfig,
    /// Its `CONFIG_SIZE` bytes.
    pub record: Vec<u8>,
    /// Work-groups along x, y and z.
    pub groups: (u32, u32, u32),
}

/// The frame loop: phase, input, camera and timing of one viewer with a
/// display of fixed size.
pub struct Orchestrator {
    phase: Phase,
    input: InputState,
    camera: CameraState,
    timing: FrameTiming,
    width: u32,
    height: u32,
}

impl View for Orchestrator {
    type V = OrchestratorView;

    closed spec fn view(&self) -> OrchestratorView {
        OrchestratorView {
            phase: self.phase,
            input: self.input@,
            camera: self.camera@,
            timing: self.timing@,
            width: self.width,
            height: self.height,
        }
    }
}

impl Orchestrator {
    /// A loop that is initializing, for a display of `width` x `height`
    /// pixels, with the clock at `start`: no input yet, the camera at the
    /// origin.
    pub fn new(width: u32, height: u32, start: u64) -> (orchestrator: Orchestrator)
        ensures
            orchestrator@ == (OrchestratorView {
                phase: Phase::Initializing,
                input: InputView::initial(),
                camera: CameraView { pose: Pose::origin(), speed: SpeedLevel::Normal },
                timing: TimingView { start, last_tick: start, tick: 0 },
                width,
                height,
            }),
    {
        Orchestrator {
            phase: Phase::Initializing,
            input: InputState::new(),
            camera: CameraState::new(),
            timing: FrameTiming::new(start),
            width,
            height,
        }
    }

    /// Takes one event: records it and says what the caller is to do.
    /// Phase and input change as `step` says; camera, timing and display
    /// size stay.
    pub fn handle(&mut self, event: Event) -> (action: Action)
        ensures
            (final(self)@.loop_state(), action) == step(old(self)@.loop_state(), event),
            final(self)@.camera == old(self)@.camera,
            final(self)@.timing == old(self)@.timing,
            final(self)@.width == old(self)@.width,
            final(self)@.height == old(self)@.height,
            old(self)@.phase == Phase::Terminating ==> action == Action::Idle && final(self)@
                == old(self)@,
            action == Action::RenderFrame ==> final(self)@.phase == Phase::Running,
    {
        match self.phase {
            Phase::Terminating => {
                return Action::Idle;
            },
            _ => {},
        }
        match event {
            Event::Failed(failure) => {
                self.phase = Phase::Terminating;
                return Action::Abort(failure);
            },
            Event::Key { key, pressed } => {
                self.input.on_key(key, pressed);
            },
            Event::MouseMotion { dx, dy } => {
                self.input.on_mouse_delta(dx, dy);
            },
            Event::CloseRequested => {
                self.input.on_close_requested();
            },
            _ => {},
        }
        if self.input.quit_requested() {
            self.phase = Phase::Terminating;
            return Action::Exit;
        }
        match (self.phase, event) {
            (Phase::Initializing, Event::Ready) => {
                self.phase = Phase::Running;
                Action::Idle
            },
            (Phase::Running, Event::EventsCleared) => Action::RequestRedraw,
            (Phase::Running, Event::RedrawRequested) => Action::RenderFrame,
            _ => Action::Idle,
        }
    }

    /// Starts a frame at time `now`. While running, it ticks the timing,
    /// takes the pending mouse motions out of the input, sets the camera's
    /// speed from the sprint key and hands out the plan; in any other
    /// phase it gives `None` and changes nothing.
    pub fn begin_frame(&mut self, now: u64) -> (plan: Option<FramePlan>)
        ensures
            plan.is_some() <==> old(self)@.phase == Phase::Running,
            plan.is_none() ==> final(self)@ == old(self)@,
            plan matches Some(plan) ==> {
                &&& plan.tick.delta == since(old(self)@.timing.last_tick, now)
                &&& plan.tick.elapsed == since(old(self)@.timing.start, now)
                &&& plan.tick.diagnostic == diagnostic_due(old(self)@.timing.tick)
                &&& plan.turns@ == old(self)@.input.pending
                &&& plan.motions@ == old(self)@.input.held.motions()
                &&& plan.speed == SpeedLevel::of(old(self)@.input.sprint)
                &&& plan.pose == old(self)@.camera.pose
                &&& final(self)@.phase == Phase::Running
                &&& final(self)@.input == old(self)@.input.drained()
                &&& final(self)@.camera == (CameraView { pose: plan.pose, speed: plan.speed })
                &&& final(self)@.timing.start == old(self)@.timing.start
                &&& final(self)@.timing.last_tick == now
                &&& final(self)@.timing.tick == next_tick(old(self)@.timing.tick)
                &&& final(self)@.width == old(self)@.width
                &&& final(self)@.height == old(self)@.height
            },
    {
        match self.phase {
            Phase::Running => {},
            _ => {
                return None;
            },
        }
        let tick = self.timing.advance(now);
        let motions = self.input.held().active_motions();
        let speed = SpeedLevel::from_sprint(self.input.sprint());
        let turns = self.input.drain_mouse();
        self.camera.set_speed(speed);
        let pose = self.camera.pose();
        Some(FramePlan { tick, turns, motions, speed, pose })
    }

    /// Ends a frame with the pose that the caller integrated and the time
    /// to show, a single-precision bit pattern. While running, it puts the
    /// camera at `pose`, the pitch clamped into -pi/2 to pi/2, and hands
    /// out the record of that camera and the grid to dispatch; in any
    /// other phase it gives `None` and changes nothing.
    pub fn finish_frame(&mut self, pose: Pose, time: u32) -> (output: Option<FrameOutput>)
        ensures
            output.is_some() <==> old(self)@.phase == Phase::Running,
            output.is_none() ==> final(self)@ == old(self)@,
            output matches Some(output) ==> {
                &&& output.config == FrameConfig::of_pose(
                    old(self)@.width,
                    old(self)@.height,
                    time,
                    pose.settled(),
                )
                &&& output.record@ == output.config.encoding()
                &&& output.groups == (
                    whole_tiles(old(self)@.width),
                    whole_tiles(old(self)@.height),
                    1u32,
                )
                &&& final(self)@.camera == (CameraView {
                    pose: pose.settled(),
                    speed: old(self)@.camera.speed,
                })
                &&& final(self)@.phase == Phase::Running
                &&& final(self)@.input == old(self)@.input
                &&& final(self)@.timing == old(self)@.timing
                &&& final(self)@.width == old(self)@.width
                &&& final(self)@.height == old(self)@.height
            },
    {
        match self.phase {
            Phase::Running => {},
            _ => {
                return None;
            },
        }
        self.camera.set_pose(pose);
        let config = FrameConfig::new(self.width, self.height, time, &self.camera);
        let record = config.encode();
        let groups = dispatch_groups(self.width, self.height);
        Some(FrameOutput { config, record, groups })
    }

    /// The phase.
    pub fn phase(&self) -> (phase: Phase)
        ensures
            phase == self@.phase,
    {
        self.phase
    }

    /// The pose of the camera. Its pitch lies from -pi/2 to pi/2, unless
    /// it is a NaN.
    pub fn pose(&self) -> (pose: Pose)
        ensures
            pose == self@.camera.pose,
            pitch_settled(pose.pitch),
    {
        self.camera.pose()
    }

    /// The speed of the camera.
    pub fn speed(&self) -> (speed: SpeedLevel)
        ensures
            speed == self@.camera.speed,
    {
        self.camera.speed()
    }

    /// Width and height of the display in pixels.
    pub fn display_size(&self) -> (size: (u32, u32))
        ensures
            size == (self@.width, self@.height),
    {
        (self.width, self.height)
    }
}

/// Once the loop terminates it stays so, and nothing is asked of the
/// caller any more: no frame, no redraw.
pub proof fn lemma_terminating_is_final(state: LoopState, events: Seq<Event>)
    requires
        state.phase == Phase::Terminating,
    ensures
        run(state, events) == state,
        events.len() > 0 ==> last_action(state, events) == Action::Idle,
    decreases events.len(),
{
    if events.len() > 0 {
        lemma_terminating_is_final(state, events.drop_last());
    }
}

/// An event that asks to stop terminates the loop, whatever was held or
/// pending, and the caller is told to leave.
pub proof fn lemma_stop_terminates(state: LoopState, event: Event)
    requires
        state.phase != Phase::Terminating,
        is_stop(event),
    ensures
        step(state, event).0.phase == Phase::Terminating,
        step(state, event).1 == Action::Exit,
{
}

/// Running a sequence of events is running its first part and then the
/// rest.
pub proof fn lemma_run_splits(state: LoopState, events: Seq<Event>, at: int)
    requires
        0 <= at <= events.len(),
    ensures
        run(state, events) == run(run(state, events.take(at)), events.skip(at)),
    decreases events.len(),
{
    if at == events.len() {
        assert(events.take(at) =~= events);
        assert(events.skip(at) =~= Seq::<Event>::empty());
    } else {
        let shorter = events.drop_last();
        lemma_run_splits(state, shorter, at);
        assert(shorter.take(at) =~= events.take(at));
        assert(shorter.skip(at) =~= events.skip(at).drop_last());
        assert(events.skip(at).last() == events.last());
    }
}

/// After an event that asks to stop, no later event makes the caller
/// render a frame: the loop terminates at that event and every later
/// action is `Idle`.
pub proof fn lemma_no_frame_after_stop(state: LoopState, events: Seq<Event>, stop_at: int, later: int)
    requires
        0 <= stop_at < later < events.len(),
        is_stop(events[stop_at]),
    ensures
        run(state, events.take(later + 1)).phase == Phase::Terminating,
        last_action(state, events.take(later + 1)) == Action::Idle,
        last_action(state, events.take(later + 1)) != Action::RenderFrame,
{
    let upto_stop = events.take(stop_at + 1);
    let before = run(state, upto_stop.drop_last());
    assert(upto_stop.last() == events[stop_at]);
    let stopped = run(state, upto_stop);
    assert(stopped.phase == Phase::Terminating);
    let prefix = events.take(later + 1);
    let head = prefix.drop_last();
    assert(head =~= events.take(later));
    lemma_run_splits(state, head, stop_at + 1);
    assert(head.take(stop_at + 1) =~= upto_stop);
    lemma_terminating_is_final(stopped, head.skip(stop_at + 1));
    assert(run(state, head) == stopped);
}

} // verus!
