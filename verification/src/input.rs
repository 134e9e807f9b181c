//! Raw key and mouse events, gathered between two frames.

use vstd::prelude::*;

verus! {

/// A key of the keyboard, as far as the viewer tells keys apart.
#[derive(Clone, Copy, Debug, PartialEq, Eq, Structural)]
pub enum Key {
    W,
    A,
    S,
    D,
    Space,
    LShift,
    LControl,
    Escape,
    /// Any key that has no meaning here.
    Other,
}

/// A direction in which the camera moves while its key is held.
#[derive(Clone, Copy, Debug, PartialEq, Eq, Structural)]
pub enum Motion {
    Forward,
    StrafeLeft,
    Back,
    StrafeRight,
    Ascend,
    Descend,
}

/// What a key is bound to.
#[derive(Clone, Copy, Debug, PartialEq, Eq, Structural)]
pub enum Binding {
    /// Held: move in this direction.
    Move(Motion),
    /// Held: move at sprint speed.
    Sprint,
    /// Pressed: stop the viewer.
    Quit,
    /// Nothing.
    Unbound,
}

/// One relative mouse motion: two single-precision bit patterns, the
/// horizontal and the vertical part.
#[derive(Clone, Copy, Debug, PartialEq, Eq, Structural)]
pub struct MouseDelta {
    pub dx: u32,
    pub dy: u32,
}

/// The six movement flags: which directions are held.
#[derive(Clone, Copy, Debug, PartialEq, Eq, Structural)]
pub struct Held {
    pub forward: bool,
    pub strafe_left: bool,
    pub back: bool,
    pub strafe_right: bool,
    pub ascend: bool,
    pub descend: bool,
}

/// The key map: W, A, S, D walk and strafe, Space and left Shift rise and
/// sink, left Control sprints, Escape quits.
pub open spec fn binding_of(key: Key) -> Binding {
    match key {
        Key::W => Binding::Move(Motion::Forward),
        Key::A => Binding::Move(Motion::StrafeLeft),
        Key::S => Binding::Move(Motion::Back),
        Key::D => Binding::Move(Motion::StrafeRight),
        Key::Space => Binding::Move(Motion::Ascend),
        Key::LShift => Binding::Move(Motion::Descend),
        Key::LControl => Binding::Sprint,
        Key::Escape => Binding::Quit,
        Key::Other => Binding::Unbound,
    }
}

/// Looks a key up in the key map.
pub fn key_binding(key: Key) -> (binding: Binding)
    ensures
        binding == binding_of(key),
{
    match key {
        Key::W => Binding::Move(Motion::Forward),
        Key::A => Binding::Move(Motion::StrafeLeft),
        Key::S => Binding::Move(Motion::Back),
        Key::D => Binding::Move(Motion::StrafeRight),
        Key::Space => Binding::Move(Motion::Ascend),
        Key::LShift => Binding::Move(Motion::Descend),
        Key::LControl => Binding::Sprint,
        Key::Escape => Binding::Quit,
        Key::Other => Binding::Unbound,
    }
}

/// `seq![motion]` where `flag` holds, nothing where it does not.
pub open spec fn taken(flag: bool, motion: Motion) -> Seq<Motion> {
    if flag {
        seq![motion]
    } else {
        Seq::empty()
    }
}

impl Held {
    /// No direction held.
    pub open spec fn none() -> Held {
        Held {
            forward: false,
            strafe_left: false,
            back: false,
            strafe_right: false,
            ascend: false,
            descend: false,
        }
    }

    /// Whether `motion` is held.
    pub open spec fn holds(self, motion: Motion) -> bool {
        match motion {
            Motion::Forward => self.forward,
            Motion::StrafeLeft => self.strafe_left,
            Motion::Back => self.back,
            Motion::StrafeRight => self.strafe_right,
            Motion::Ascend => self.ascend,
            Motion::Descend => self.descend,
        }
    }

    /// The flags with the one of `motion` set to `pressed`.
    pub open spec fn with(self, motion: Motion, pressed: bool) -> Held {
        match motion {
            Motion::Forward => Held { forward: pressed, ..self },
            Motion::StrafeLeft => Held { strafe_left: pressed, ..self },
            Motion::Back => Held { back: pressed, ..self },
            Motion::StrafeRight => Held { strafe_right: pressed, ..self },
            Motion::Ascend => Held { ascend: pressed, ..self },
            Motion::Descend => Held { descend: pressed, ..self },
        }
    }

    /// The held directions in the order in which a frame applies them:
    /// forward, strafe left, back, strafe right, ascend, descend.
    pub open spec fn motions(self) -> Seq<Motion> {
        taken(self.forward, Motion::Forward) + taken(self.strafe_left, Motion::StrafeLeft)
            + taken(self.back, Motion::Back) + taken(self.strafe_right, Motion::StrafeRight)
            + taken(self.ascend, Motion::Ascend) + taken(self.descend, Motion::Descend)
    }

    /// Whether the two sets of flags have no direction in common.
    pub open spec fn disjoint(self, other: Held) -> bool {
        &&& !(self.forward && other.forward)
        &&& !(self.strafe_left && other.strafe_left)
        &&& !(self.back && other.back)
        &&& !(self.strafe_right && other.strafe_right)
        &&& !(self.ascend && other.ascend)
        &&& !(self.descend && other.descend)
    }

    /// The directions held in either set of flags.
    pub open spec fn union(self, other: Held) -> Held {
        Held {
            forward: self.forward || other.forward,
            strafe_left: self.strafe_left || other.strafe_left,
            back: self.back || other.back,
            strafe_right: self.strafe_right || other.strafe_right,
            ascend: self.ascend || other.ascend,
            descend: self.descend || other.descend,
        }
    }

    /// Flags with nothing held.
    pub fn new() -> (held: Held)
        ensures
            held == Held::none(),
    {
        Held {
            forward: false,
            strafe_left: false,
            back: false,
            strafe_right: false,
            ascend: false,
            descend: false,
        }
    }

    /// Whether `motion` is held.
    pub fn is_held(&self, motion: Motion) -> (held: bool)
        ensures
            held == self.holds(motion),
    {
        match motion {
            Motion::Forward => self.forward,
            Motion::StrafeLeft => self.strafe_left,
            Motion::Back => self.back,
            Motion::StrafeRight => self.strafe_right,
            Motion::Ascend => self.ascend,
            Motion::Descend => self.descend,
        }
    }

    /// Sets the flag of `motion` to `pressed` and leaves the other five.
    pub fn set(&mut self, motion: Motion, pressed: bool)
        ensures
            *final(self) == old(self).with(motion, pressed),
            final(self).holds(motion) == pressed,
            forall|other: Motion| other != motion ==> final(self).holds(other) == old(self).holds(other),
    {
        match motion {
            Motion::Forward => self.forward = pressed,
            Motion::StrafeLeft => self.strafe_left = pressed,
            Motion::Back => self.back = pressed,
            Motion::StrafeRight => self.strafe_right = pressed,
            Motion::Ascend => self.ascend = pressed,
            Motion::Descend => self.descend = pressed,
        }
    }

    /// The held directions, in the order of `motions`.
    pub fn active_motions(&self) -> (out: Vec<Motion>)
        ensures
            out@ == self.motions(),
    {
        let mut out: Vec<Motion> = Vec::new();
        if self.forward {
            out.push(Motion::Forward);
        }
        if self.strafe_left {
            out.push(Motion::StrafeLeft);
        }
        if self.back {
            out.push(Motion::Back);
        }
        if self.strafe_right {
            out.push(Motion::StrafeRight);
        }
        if self.ascend {
            out.push(Motion::Ascend);
        }
        if self.descend {
            out.push(Motion::Descend);
        }
        assert(out@ =~= self.motions());
        out
    }
}

/// What an `InputState` holds, as a plain value.
pub struct InputView {
    /// The movement flags.
    pub held: Held,
    /// Whether the sprint key is down.
    pub sprint: bool,
    /// Whether the user asked to stop.
    pub quit: bool,
    /// The mouse motions that no frame has consumed yet, oldest first.
    pub pending: Seq<MouseDelta>,
}

impl InputView {
    /// Nothing held, nothing pending.
    pub open spec fn initial() -> InputView {
        InputView { held: Held::none(), sprint: false, quit: false, pending: Seq::empty() }
    }

    /// The state after `key` went down (`pressed`) or up.
    ///
    /// A movement key sets or clears its flag, the sprint key sets or
    /// clears sprint, the quit key asks to stop when it goes down and does
    /// nothing when it comes up, and any other key does nothing.
    pub open spec fn key(self, key: Key, pressed: bool) -> InputView {
        match binding_of(key) {
            Binding::Move(motion) => InputView { held: self.held.with(motion, pressed), ..self },
            Binding::Sprint => InputView { sprint: pressed, ..self },
            Binding::Quit => InputView { quit: self.quit || pressed, ..self },
            Binding::Unbound => self,
        }
    }

    /// The state after one more mouse motion.
    pub open spec fn mouse(self, delta: MouseDelta) -> InputView {
        InputView { pending: self.pending.push(delta), ..self }
    }

    /// The state after a request to stop.
    pub open spec fn stop(self) -> InputView {
        InputView { quit: true, ..self }
    }

    /// The state after a frame consumed the pending mouse motions.
    pub open spec fn drained(self) -> InputView {
        InputView { pending: Seq::empty(), ..self }
    }
}

/// Keys held and mouse motion gathered since the last frame.
pub struct InputState {
    held: Held,
    sprint: bool,
    quit: bool,
    pending: Vec<MouseDelta>,
}

impl View for InputState {
    type V = InputView;

    closed spec fn view(&self) -> InputView {
        InputView {
            held: self.held,
            sprint: self.sprint,
            quit: self.quit,
            pending: self.pending@,
        }
    }
}

impl InputState {
    /// A state with no key held and no motion pending.
    pub fn new() -> (state: InputState)
        ensures
            state@ == InputView::initial(),
    {
        InputState { held: Held::new(), sprint: false, quit: false, pending: Vec::new() }
    }

    /// Records that `key` went down (`pressed`) or up.
    pub fn on_key(&mut self, key: Key, pressed: bool)
        ensures
            final(self)@ == old(self)@.key(key, pressed),
    {
        match key_binding(key) {
            Binding::Move(motion) => {
                self.held.set(motion, pressed);
            },
            Binding::Sprint => {
                self.sprint = pressed;
            },
            Binding::Quit => {
                if pressed {
                    self.quit = true;
                }
            },
            Binding::Unbound => {},
        }
    }

    /// Records one relative mouse motion, behind those already pending.
    pub fn on_mouse_delta(&mut self, dx: u32, dy: u32)
        ensures
            final(self)@ == old(self)@.mouse(MouseDelta { dx, dy }),
    {
        self.pending.push(MouseDelta { dx, dy });
    }

    /// Records that Escape went down: the user asks to stop.
    pub fn on_escape_pressed(&mut self)
        ensures
            final(self)@ == old(self)@.stop(),
            final(self)@ == old(self)@.key(Key::Escape, true),
    {
        self.quit = true;
    }

    /// Records that the window was asked to close.
    pub fn on_close_requested(&mut self)
        ensures
            final(self)@ == old(self)@.stop(),
    {
        self.quit = true;
    }

    /// The movement flags.
    pub fn held(&self) -> (held: Held)
        ensures
            held == self@.held,
    {
        self.held
    }

    /// Whether the sprint key is down.
    pub fn sprint(&self) -> (sprint: bool)
        ensures
            sprint == self@.sprint,
    {
        self.sprint
    }

    /// Whether the user asked to stop.
    pub fn quit_requested(&self) -> (quit: bool)
        ensures
            quit == self@.quit,
    {
        self.quit
    }

    /// How many mouse motions are pending.
    pub fn pending_len(&self) -> (n: usize)
        ensures
            n == self@.pending.len(),
    {
        self.pending.len()
    }

    /// Hands out the pending mouse motions, oldest first, and leaves none
    /// pending. Keys stay as they are.
    pub fn drain_mouse(&mut self) -> (deltas: Vec<MouseDelta>)
        ensures
            deltas@ == old(self)@.pending,
            final(self)@ == old(self)@.drained(),
    {
        let mut deltas: Vec<MouseDelta> = Vec::new();
        core::mem::swap(&mut self.pending, &mut deltas);
        deltas
    }
}

/// What appending `taken(flag, motion)` does to a sequence.
proof fn lemma_append_taken(prefix: Seq<Motion>, flag: bool, motion: Motion)
    requires
        prefix.no_duplicates(),
        !prefix.contains(motion),
    ensures
        (prefix + taken(flag, motion)).no_duplicates(),
        (prefix + taken(flag, motion)).len() == prefix.len() + (if flag { 1int } else { 0int }),
        forall|m: Motion|
            #![trigger (prefix + taken(flag, motion)).contains(m)]
            (prefix + taken(flag, motion)).contains(m) <==> prefix.contains(m) || (flag && m
                == motion),
{
    let joined = prefix + taken(flag, motion);
    if flag {
        assert(joined =~= prefix.push(motion));
        assert(joined[prefix.len() as int] == motion);
        assert forall|m: Motion| joined.contains(m) implies prefix.contains(m) || m
            == motion by {
            let i = choose|i: int| 0 <= i < joined.len() && joined[i] == m;
            if i < prefix.len() {
                assert(prefix[i] == m);
            }
        }
        assert forall|m: Motion| prefix.contains(m) implies joined.contains(m) by {
            let i = choose|i: int| 0 <= i < prefix.len() && prefix[i] == m;
            assert(joined[i] == m);
        }
    } else {
        assert(joined =~= prefix);
    }
}

impl Held {
    /// How many directions are held.
    pub open spec fn count(self) -> int {
        (if self.forward { 1int } else { 0 }) + (if self.strafe_left { 1int } else { 0 }) + (
        if self.back { 1int } else { 0 }) + (if self.strafe_right { 1int } else { 0 }) + (
        if self.ascend { 1int } else { 0 }) + (if self.descend { 1int } else { 0 })
    }
}

/// A direction is among the directions that a frame applies exactly when
/// it is held, and none is applied twice.
pub proof fn lemma_motions_are_the_held(held: Held)
    ensures
        forall|motion: Motion| held.motions().contains(motion) <==> held.holds(motion),
        held.motions().no_duplicates(),
        held.motions().len() == held.count(),
{
    let s1 = taken(held.forward, Motion::Forward);
    let s2 = s1 + taken(held.strafe_left, Motion::StrafeLeft);
    let s3 = s2 + taken(held.back, Motion::Back);
    let s4 = s3 + taken(held.strafe_right, Motion::StrafeRight);
    let s5 = s4 + taken(held.ascend, Motion::Ascend);
    let s6 = s5 + taken(held.descend, Motion::Descend);
    let nothing = Seq::<Motion>::empty();
    assert(nothing + s1 =~= s1);
    lemma_append_taken(nothing, held.forward, Motion::Forward);
    lemma_append_taken(s1, held.strafe_left, Motion::StrafeLeft);
    lemma_append_taken(s2, held.back, Motion::Back);
    lemma_append_taken(s3, held.strafe_right, Motion::StrafeRight);
    lemma_append_taken(s4, held.ascend, Motion::Ascend);
    lemma_append_taken(s5, held.descend, Motion::Descend);
    assert(held.motions() == s6);
    assert forall|motion: Motion| held.motions().contains(motion) <==> held.holds(
        motion) by {
        assert(!nothing.contains(motion));
        assert(s1.contains(motion) <==> (nothing + s1).contains(motion));
        assert(s2.contains(motion) <==> s1.contains(motion) || (held.strafe_left && motion
            == Motion::StrafeLeft));
        assert(s3.contains(motion) <==> s2.contains(motion) || (held.back && motion
            == Motion::Back));
        assert(s4.contains(motion) <==> s3.contains(motion) || (held.strafe_right && motion
            == Motion::StrafeRight));
        assert(s5.contains(motion) <==> s4.contains(motion) || (held.ascend && motion
            == Motion::Ascend));
        assert(s6.contains(motion) <==> s5.contains(motion) || (held.descend && motion
            == Motion::Descend));
    }
}

/// The flags of a union of two disjoint sets of flags.
proof fn lemma_union_of_disjoint(a: Held, b: Held)
    requires
        a.disjoint(b),
    ensures
        a.union(b).count() == a.count() + b.count(),
        forall|motion: Motion|
            #![trigger a.union(b).holds(motion)]
            a.union(b).holds(motion) <==> a.holds(motion) || b.holds(motion),
{
}

/// Holding two sets of directions at once applies every direction of
/// both, each in full: none is dropped, merged or scaled down.
pub proof fn lemma_motions_compose(a: Held, b: Held)
    requires
        a.disjoint(b),
    ensures
        a.union(b).motions().len() == a.motions().len() + b.motions().len(),
        forall|motion: Motion|
            a.union(b).motions().contains(motion) <==> a.motions().contains(motion)
                || b.motions().contains(motion),
{
    lemma_motions_are_the_held(a);
    lemma_motions_are_the_held(b);
    lemma_motions_are_the_held(a.union(b));
    lemma_union_of_disjoint(a, b);
    assert forall|motion: Motion|
        a.union(b).motions().contains(motion) <==> a.motions().contains(motion)
            || b.motions().contains(motion) by {
        assert(a.union(b).holds(motion) <==> a.holds(motion) || b.holds(motion));
    }
}

} // verus!
