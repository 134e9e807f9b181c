use frame_core::input::{key_binding, Binding, Held, InputState, Key, Motion, MouseDelta};

const ALL_KEYS: [Key; 9] = [
    Key::W,
    Key::A,
    Key::S,
    Key::D,
    Key::Space,
    Key::LShift,
    Key::LControl,
    Key::Escape,
    Key::Other,
];

const ALL_MOTIONS: [Motion; 6] = [
    Motion::Forward,
    Motion::StrafeLeft,
    Motion::Back,
    Motion::StrafeRight,
    Motion::Ascend,
    Motion::Descend,
];

#[test]
fn key_map() {
    assert_eq!(key_binding(Key::W), Binding::Move(Motion::Forward));
    assert_eq!(key_binding(Key::A), Binding::Move(Motion::StrafeLeft));
    assert_eq!(key_binding(Key::S), Binding::Move(Motion::Back));
    assert_eq!(key_binding(Key::D), Binding::Move(Motion::StrafeRight));
    assert_eq!(key_binding(Key::Space), Binding::Move(Motion::Ascend));
    assert_eq!(key_binding(Key::LShift), Binding::Move(Motion::Descend));
    assert_eq!(key_binding(Key::LControl), Binding::Sprint);
    assert_eq!(key_binding(Key::Escape), Binding::Quit);
    assert_eq!(key_binding(Key::Other), Binding::Unbound);
}

#[test]
fn new_input_is_empty() {
    let input = InputState::new();
    assert_eq!(input.held(), Held::new());
    assert!(!input.sprint());
    assert!(!input.quit_requested());
    assert_eq!(input.pending_len(), 0);
    for motion in ALL_MOTIONS {
        assert!(!input.held().is_held(motion));
    }
}

#[test]
fn movement_keys_set_and_clear_their_flag() {
    let keys = [
        (Key::W, Motion::Forward),
        (Key::A, Motion::StrafeLeft),
        (Key::S, Motion::Back),
        (Key::D, Motion::StrafeRight),
        (Key::Space, Motion::Ascend),
        (Key::LShift, Motion::Descend),
    ];
    for (key, motion) in keys {
        let mut input = InputState::new();
        input.on_key(key, true);
        for other in ALL_MOTIONS {
            assert_eq!(input.held().is_held(other), other == motion);
        }
        assert!(!input.sprint());
        assert!(!input.quit_requested());
        input.on_key(key, false);
        assert_eq!(input.held(), Held::new());
    }
}

#[test]
fn flags_are_independent() {
    let mut input = InputState::new();
    input.on_key(Key::W, true);
    input.on_key(Key::D, true);
    input.on_key(Key::Space, true);
    input.on_key(Key::D, false);
    let held = input.held();
    assert!(held.forward && held.ascend);
    assert!(!held.strafe_right && !held.back && !held.strafe_left && !held.descend);
}

#[test]
fn unrecognized_key_is_a_no_op() {
    let mut input = InputState::new();
    input.on_key(Key::W, true);
    input.on_key(Key::LControl, true);
    input.on_mouse_delta(7, 9);
    let held = input.held();
    for pressed in [true, false] {
        input.on_key(Key::Other, pressed);
        assert_eq!(input.held(), held);
        assert!(input.sprint());
        assert!(!input.quit_requested());
        assert_eq!(input.pending_len(), 1);
    }
}

#[test]
fn sprint_follows_the_modifier() {
    let mut input = InputState::new();
    input.on_key(Key::LControl, true);
    assert!(input.sprint());
    input.on_key(Key::LControl, true);
    assert!(input.sprint());
    input.on_key(Key::LControl, false);
    assert!(!input.sprint());
    assert_eq!(input.held(), Held::new());
}

#[test]
fn escape_down_asks_to_stop() {
    let mut input = InputState::new();
    input.on_key(Key::Escape, false);
    assert!(!input.quit_requested());
    input.on_key(Key::Escape, true);
    assert!(input.quit_requested());
    input.on_key(Key::Escape, false);
    assert!(input.quit_requested());
}

#[test]
fn escape_and_close_raise_the_same_signal() {
    let mut by_escape = InputState::new();
    by_escape.on_escape_pressed();
    assert!(by_escape.quit_requested());
    let mut by_close = InputState::new();
    by_close.on_close_requested();
    assert!(by_close.quit_requested());
    assert_eq!(by_escape.held(), by_close.held());
}

#[test]
fn no_other_key_asks_to_stop() {
    for key in ALL_KEYS {
        if key == Key::Escape {
            continue;
        }
        let mut input = InputState::new();
        input.on_key(key, true);
        input.on_key(key, false);
        assert!(!input.quit_requested());
    }
}

#[test]
fn mouse_motion_is_gathered_and_drained() {
    let mut input = InputState::new();
    input.on_key(Key::W, true);
    input.on_mouse_delta(1.5f32.to_bits(), (-2.0f32).to_bits());
    input.on_mouse_delta(0.25f32.to_bits(), 4.0f32.to_bits());
    assert_eq!(input.pending_len(), 2);
    let deltas = input.drain_mouse();
    assert_eq!(
        deltas,
        vec![
            MouseDelta { dx: 1.5f32.to_bits(), dy: (-2.0f32).to_bits() },
            MouseDelta { dx: 0.25f32.to_bits(), dy: 4.0f32.to_bits() },
        ]
    );
    assert_eq!(input.pending_len(), 0);
    assert!(input.held().forward);
    assert!(input.drain_mouse().is_empty());
}

#[test]
fn motions_come_in_fixed_order() {
    let mut held = Held::new();
    assert!(held.active_motions().is_empty());
    held.set(Motion::Descend, true);
    held.set(Motion::StrafeRight, true);
    held.set(Motion::Forward, true);
    assert_eq!(
        held.active_motions(),
        vec![Motion::Forward, Motion::StrafeRight, Motion::Descend]
    );
    for motion in ALL_MOTIONS {
        held.set(motion, true);
    }
    assert_eq!(held.active_motions(), ALL_MOTIONS.to_vec());
    held.set(Motion::Back, false);
    assert_eq!(
        held.active_motions(),
        vec![
            Motion::Forward,
            Motion::StrafeLeft,
            Motion::StrafeRight,
            Motion::Ascend,
            Motion::Descend
        ]
    );
}

#[test]
fn each_held_motion_is_applied_once() {
    for mask in 0u32..64 {
        let mut held = Held::new();
        for (i, motion) in ALL_MOTIONS.iter().enumerate() {
            held.set(*motion, mask & (1 << i) != 0);
        }
        let motions = held.active_motions();
        assert_eq!(motions.len() as u32, mask.count_ones());
        for (i, motion) in ALL_MOTIONS.iter().enumerate() {
            let times = motions.iter().filter(|m| *m == motion).count();
            assert_eq!(times, if mask & (1 << i) != 0 { 1 } else { 0 });
            assert_eq!(held.is_held(*motion), mask & (1 << i) != 0);
        }
    }
}
