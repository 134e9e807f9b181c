use frame_core::camera::{Pose, SpeedLevel};
use frame_core::config::FrameConfig;
use frame_core::input::{Key, Motion, MouseDelta};
use frame_core::orchestrator::{
    frame_stages, Action, Event, Failure, FrameStage, Orchestrator, Phase,
};
use frame_core::pattern::HALF_PI_BITS;

const ALL_EVENTS: [Event; 12] = [
    Event::Ready,
    Event::Failed(Failure::NoAdapter),
    Event::Failed(Failure::NoDevice),
    Event::Failed(Failure::SurfaceLost),
    Event::Key { key: Key::W, pressed: true },
    Event::Key { key: Key::Escape, pressed: true },
    Event::Key { key: Key::Escape, pressed: false },
    Event::MouseMotion { dx: 0x3f80_0000, dy: 0x4000_0000 },
    Event::EventsCleared,
    Event::RedrawRequested,
    Event::CloseRequested,
    Event::Other,
];

fn running() -> Orchestrator {
    let mut orchestrator = Orchestrator::new(800, 600, 0);
    assert_eq!(orchestrator.handle(Event::Ready), Action::Idle);
    assert_eq!(orchestrator.phase(), Phase::Running);
    orchestrator
}

#[test]
fn starts_initializing() {
    let orchestrator = Orchestrator::new(800, 600, 42);
    assert_eq!(orchestrator.phase(), Phase::Initializing);
    assert_eq!(orchestrator.display_size(), (800, 600));
    assert_eq!(orchestrator.pose(), Pose { x: 0, y: 0, z: 0, yaw: 0, pitch: 0 });
    assert_eq!(orchestrator.speed(), SpeedLevel::Normal);
}

#[test]
fn ready_starts_the_running_phase() {
    let mut orchestrator = Orchestrator::new(800, 600, 0);
    assert_eq!(orchestrator.handle(Event::EventsCleared), Action::Idle);
    assert_eq!(orchestrator.handle(Event::RedrawRequested), Action::Idle);
    assert_eq!(orchestrator.phase(), Phase::Initializing);
    assert_eq!(orchestrator.handle(Event::Ready), Action::Idle);
    assert_eq!(orchestrator.phase(), Phase::Running);
    assert_eq!(orchestrator.handle(Event::Ready), Action::Idle);
    assert_eq!(orchestrator.phase(), Phase::Running);
}

#[test]
fn no_frame_before_running() {
    let mut orchestrator = Orchestrator::new(800, 600, 0);
    assert!(orchestrator.begin_frame(10).is_none());
    assert!(orchestrator.finish_frame(Pose { x: 1, y: 2, z: 3, yaw: 4, pitch: 5 }, 0).is_none());
    assert_eq!(orchestrator.pose(), Pose { x: 0, y: 0, z: 0, yaw: 0, pitch: 0 });
    assert_eq!(orchestrator.phase(), Phase::Initializing);
}

#[test]
fn startup_failure_aborts() {
    for failure in [Failure::NoAdapter, Failure::NoDevice] {
        let mut orchestrator = Orchestrator::new(800, 600, 0);
        assert_eq!(orchestrator.handle(Event::Failed(failure)), Action::Abort(failure));
        assert_eq!(orchestrator.phase(), Phase::Terminating);
        assert_eq!(orchestrator.handle(Event::Ready), Action::Idle);
        assert_eq!(orchestrator.phase(), Phase::Terminating);
    }
}

#[test]
fn surface_error_while_running_aborts() {
    let mut orchestrator = running();
    assert_eq!(
        orchestrator.handle(Event::Failed(Failure::SurfaceLost)),
        Action::Abort(Failure::SurfaceLost)
    );
    assert_eq!(orchestrator.phase(), Phase::Terminating);
    assert!(orchestrator.begin_frame(1).is_none());
}

#[test]
fn failure_messages() {
    assert_eq!(Failure::NoAdapter.message(), "error finding adapter");
    assert_eq!(Failure::NoDevice.message(), "error creating device");
    assert_eq!(Failure::SurfaceLost.message(), "error getting texture from swap chain");
}

#[test]
fn running_loop_asks_for_redraws_and_frames() {
    let mut orchestrator = running();
    assert_eq!(orchestrator.handle(Event::EventsCleared), Action::RequestRedraw);
    assert_eq!(orchestrator.handle(Event::RedrawRequested), Action::RenderFrame);
    assert_eq!(orchestrator.handle(Event::Other), Action::Idle);
    assert_eq!(orchestrator.handle(Event::Key { key: Key::W, pressed: true }), Action::Idle);
    assert_eq!(orchestrator.handle(Event::MouseMotion { dx: 1, dy: 2 }), Action::Idle);
    assert_eq!(orchestrator.handle(Event::Key { key: Key::Other, pressed: true }), Action::Idle);
    assert_eq!(orchestrator.phase(), Phase::Running);
}

#[test]
fn escape_terminates() {
    let mut orchestrator = running();
    assert_eq!(
        orchestrator.handle(Event::Key { key: Key::Escape, pressed: true }),
        Action::Exit
    );
    assert_eq!(orchestrator.phase(), Phase::Terminating);
}

#[test]
fn escape_coming_up_does_nothing() {
    let mut orchestrator = running();
    assert_eq!(
        orchestrator.handle(Event::Key { key: Key::Escape, pressed: false }),
        Action::Idle
    );
    assert_eq!(orchestrator.phase(), Phase::Running);
}

#[test]
fn close_terminates() {
    let mut orchestrator = running();
    assert_eq!(orchestrator.handle(Event::CloseRequested), Action::Exit);
    assert_eq!(orchestrator.phase(), Phase::Terminating);
}

#[test]
fn stop_during_startup_terminates() {
    let mut orchestrator = Orchestrator::new(800, 600, 0);
    assert_eq!(orchestrator.handle(Event::CloseRequested), Action::Exit);
    assert_eq!(orchestrator.phase(), Phase::Terminating);
    assert_eq!(orchestrator.handle(Event::Ready), Action::Idle);
    assert_eq!(orchestrator.phase(), Phase::Terminating);
}

#[test]
fn no_frame_after_termination() {
    let stops = [Event::Key { key: Key::Escape, pressed: true }, Event::CloseRequested];
    for stop in stops {
        let mut orchestrator = running();
        orchestrator.handle(Event::Key { key: Key::W, pressed: true });
        assert_eq!(orchestrator.handle(Event::RedrawRequested), Action::RenderFrame);
        assert_eq!(orchestrator.handle(stop), Action::Exit);
        for _ in 0..3 {
            for event in ALL_EVENTS {
                assert_eq!(orchestrator.handle(event), Action::Idle);
                assert_eq!(orchestrator.phase(), Phase::Terminating);
            }
        }
        let pose = orchestrator.pose();
        assert!(orchestrator.begin_frame(100).is_none());
        assert!(orchestrator
            .finish_frame(Pose { x: 9, y: 9, z: 9, yaw: 9, pitch: 9 }, 1)
            .is_none());
        assert_eq!(orchestrator.pose(), pose);
    }
}

#[test]
fn stages_in_submission_order() {
    assert_eq!(
        frame_stages(),
        vec![FrameStage::Upload, FrameStage::Compute, FrameStage::Blit, FrameStage::Present]
    );
    let stages = frame_stages();
    let at = |stage: FrameStage| stages.iter().position(|s| *s == stage).unwrap();
    assert!(at(FrameStage::Upload) < at(FrameStage::Compute));
    assert!(at(FrameStage::Compute) < at(FrameStage::Blit));
    assert!(at(FrameStage::Blit) < at(FrameStage::Present));
}

#[test]
fn begin_frame_hands_out_the_gathered_input() {
    let mut orchestrator = Orchestrator::new(800, 600, 1_000);
    orchestrator.handle(Event::Ready);
    orchestrator.handle(Event::Key { key: Key::D, pressed: true });
    orchestrator.handle(Event::Key { key: Key::W, pressed: true });
    orchestrator.handle(Event::Key { key: Key::LControl, pressed: true });
    orchestrator.handle(Event::MouseMotion { dx: 11, dy: 12 });
    orchestrator.handle(Event::MouseMotion { dx: 21, dy: 22 });
    let plan = orchestrator.begin_frame(4_000).unwrap();
    assert_eq!(plan.tick.delta, 3_000);
    assert_eq!(plan.tick.elapsed, 3_000);
    assert_eq!(plan.turns, vec![MouseDelta { dx: 11, dy: 12 }, MouseDelta { dx: 21, dy: 22 }]);
    assert_eq!(plan.motions, vec![Motion::Forward, Motion::StrafeRight]);
    assert_eq!(plan.speed, SpeedLevel::Sprint);
    assert_eq!(plan.pose, Pose { x: 0, y: 0, z: 0, yaw: 0, pitch: 0 });
    assert_eq!(orchestrator.speed(), SpeedLevel::Sprint);

    let plan = orchestrator.begin_frame(4_500).unwrap();
    assert_eq!(plan.tick.delta, 500);
    assert_eq!(plan.tick.elapsed, 3_500);
    assert!(plan.turns.is_empty());
    assert_eq!(plan.motions, vec![Motion::Forward, Motion::StrafeRight]);
}

#[test]
fn finish_frame_hands_out_record_and_grid() {
    let mut orchestrator = running();
    let pose = Pose {
        x: 1.0f32.to_bits(),
        y: 2.0f32.to_bits(),
        z: 3.0f32.to_bits(),
        yaw: 4.0f32.to_bits(),
        pitch: 0.5f32.to_bits(),
    };
    let output = orchestrator.finish_frame(pose, 7.5f32.to_bits()).unwrap();
    assert_eq!(output.groups, (50, 37, 1));
    assert_eq!(
        output.config,
        FrameConfig {
            width: 800,
            height: 600,
            time: 7.5f32.to_bits(),
            x: pose.x,
            y: pose.y,
            z: pose.z,
            yaw: pose.yaw,
            pitch: pose.pitch,
        }
    );
    assert_eq!(output.record.len(), 32);
    assert_eq!(output.record, output.config.encode());
    assert_eq!(FrameConfig::decode(&output.record), Ok(output.config));
    assert_eq!(orchestrator.pose(), pose);
}

#[test]
fn finish_frame_clamps_the_pitch() {
    let mut orchestrator = running();
    let pose = Pose { x: 0, y: 0, z: 0, yaw: 0, pitch: 3.0f32.to_bits() };
    let output = orchestrator.finish_frame(pose, 0).unwrap();
    assert_eq!(output.config.pitch, HALF_PI_BITS);
    assert_eq!(orchestrator.pose().pitch, HALF_PI_BITS);
    let decoded = FrameConfig::decode(&output.record).unwrap();
    assert_eq!(f32::from_bits(decoded.pitch), std::f32::consts::FRAC_PI_2);
}

#[test]
fn events_leave_camera_and_size() {
    let mut orchestrator = running();
    let pose = Pose { x: 5, y: 6, z: 7, yaw: 8, pitch: 9 };
    orchestrator.finish_frame(pose, 0).unwrap();
    for event in ALL_EVENTS {
        let mut copy = running();
        copy.finish_frame(pose, 0).unwrap();
        copy.handle(event);
        assert_eq!(copy.pose(), pose);
        assert_eq!(copy.display_size(), (800, 600));
    }
}
