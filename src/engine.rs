//! What the core exchanges with its host: the per-tick key snapshot, the
//! fixed-timestep scheduler, and the draw commands handed to a renderer.
use vstd::prelude::*;
use crate::math::{Point, Rect};

verus! {

/// Scheduler time units in one microsecond: with them one tick of a
/// sixtieth of a second is a whole number.
pub const TIME_SCALE: u64 = 60;

/// One logical tick (1000/60 ms), in scheduler time units.
pub const FRAME_SIZE: u64 = 1_000_000;

/// The keys held down, by key code.
#[derive(Clone, Debug)]
pub struct KeyState {
    pub pressed_keys: Vec<String>,
}

/// Stroke colours a draw command can select.
#[derive(Clone, Copy, PartialEq, Eq, Structural, Debug)]
pub enum Color {
    Gray,
    Black,
    Pink,
    Red,
    Blue,
    Yellow,
}

/// One call on the renderer.
#[derive(Clone, Copy, PartialEq, Eq, Structural, Debug)]
pub enum DrawCommand {
    /// Clears the rectangle.
    Clear(Rect),
    /// Strokes the outline of the rectangle.
    StrokeRect(Rect),
    /// Strokes a circle of the given centre and radius.
    StrokeCircle(Point, i64),
    /// Selects the stroke colour for what follows.
    SetColor(Color),
}

/// The CSS name of a colour.
pub open spec fn color_name(c: Color) -> Seq<char> {
    match c {
        Color::Gray => "gray"@,
        Color::Black => "black"@,
        Color::Pink => "pink"@,
        Color::Red => "red"@,
        Color::Blue => "blue"@,
        Color::Yellow => "yellow"@,
    }
}

impl Color {
    /// The colour's CSS name.
    pub fn name(&self) -> (r: &'static str)
        ensures
            r@ == color_name(*self),
    {
        match self {
            Color::Gray => "gray",
            Color::Black => "black",
            Color::Pink => "pink",
            Color::Red => "red",
            Color::Blue => "blue",
            Color::Yellow => "yellow",
        }
    }
}

impl KeyState {
    /// The set of codes held down.
    pub open spec fn pressed(&self) -> Set<Seq<char>> {
        Set::new(
            |k: Seq<char>|
                exists|i: int| 0 <= i < self.pressed_keys@.len() && (#[trigger] self.pressed_keys@[i])@ == k,
        )
    }

    /// No key held.
    pub fn new() -> (r: KeyState)
        ensures
            r.pressed() == Set::<Seq<char>>::empty(),
    {
        let r = KeyState { pressed_keys: Vec::new() };
        assert(r.pressed() =~= Set::<Seq<char>>::empty());
        r
    }

    /// Whether `code` is held.
    pub fn is_pressed(&self, code: &str) -> (r: bool)
        ensures
            r == self.pressed().contains(code@),
    {
        let key = code.to_owned();
        let mut i: usize = 0;
        while i < self.pressed_keys.len()
            invariant
                i <= self.pressed_keys@.len(),
                key@ == code@,
                forall|j: int| 0 <= j < i ==> self.pressed_keys@[j]@ != code@,
            decreases self.pressed_keys@.len() - i,
        {
            if self.pressed_keys[i] == key {
                return true;
            }
            i = i + 1;
        }
        false
    }

    /// Marks `code` as held.
    pub fn set_pressed(&mut self, code: &str)
        ensures
            final(self).pressed() == old(self).pressed().insert(code@),
    {
        if !self.is_pressed(code) {
            self.pressed_keys.push(code.to_owned());
            assert(final(self).pressed() =~= old(self).pressed().insert(code@)) by {
                assert(self.pressed_keys@[self.pressed_keys@.len() - 1]@ == code@);
                assert forall|k: Seq<char>| old(self).pressed().contains(k) implies #[trigger] self.pressed().contains(k) by {
                    let i = choose|i: int| 0 <= i < old(self).pressed_keys@.len() && (#[trigger] old(self).pressed_keys@[i])@ == k;
                    assert(self.pressed_keys@[i] == old(self).pressed_keys@[i]);
                }
            }
        } else {
            assert(old(self).pressed().insert(code@) =~= old(self).pressed());
        }
    }

    /// Marks `code` as released.
    pub fn set_released(&mut self, code: &str)
        ensures
            final(self).pressed() == old(self).pressed().remove(code@),
    {
        let key = code.to_owned();
        let mut kept: Vec<String> = Vec::new();
        let mut i: usize = 0;
        while i < self.pressed_keys.len()
            invariant
                i <= self.pressed_keys@.len(),
                key@ == code@,
                forall|j: int| 0 <= j < kept@.len() ==> (#[trigger] kept@[j])@ != code@,
                forall|j: int|
                    #![trigger kept@[j]]
                    0 <= j < kept@.len() ==> exists|l: int|
                        0 <= l < i && (#[trigger] self.pressed_keys@[l])@ == kept@[j]@,
                forall|l: int|
                    #![trigger self.pressed_keys@[l]]
                    0 <= l < i && self.pressed_keys@[l]@ != code@ ==> exists|j: int|
                        0 <= j < kept@.len() && (#[trigger] kept@[j])@ == self.pressed_keys@[l]@,
            decreases self.pressed_keys@.len() - i,
        {
            let ghost prev = kept@;
            if !(self.pressed_keys[i] == key) {
                let k = self.pressed_keys[i].clone();
                kept.push(k);
                assert(kept@[kept@.len() - 1]@ == self.pressed_keys@[i as int]@);
            }
            assert forall|l: int|
                #![trigger self.pressed_keys@[l]]
                0 <= l < i + 1 && self.pressed_keys@[l]@ != code@ implies exists|j: int|
                    0 <= j < kept@.len() && (#[trigger] kept@[j])@ == self.pressed_keys@[l]@ by {
                if l < i {
                    let j = choose|j: int|
                        0 <= j < prev.len() && (#[trigger] prev[j])@ == self.pressed_keys@[l]@;
                    assert(kept@[j] == prev[j]);
                } else {
                    assert(kept@[kept@.len() - 1]@ == self.pressed_keys@[l]@);
                }
            }
            i = i + 1;
        }
        let ghost before = *self;
        self.pressed_keys = kept;
        assert(self.pressed() =~= before.pressed().remove(code@)) by {
            assert forall|k: Seq<char>| #[trigger] self.pressed().contains(k) implies before.pressed().remove(code@).contains(k) by {
                let j = choose|j: int| 0 <= j < self.pressed_keys@.len() && (#[trigger] self.pressed_keys@[j])@ == k;
                assert(kept@[j]@ == k);
            }
            assert forall|k: Seq<char>| #[trigger] before.pressed().remove(code@).contains(k) implies self.pressed().contains(k) by {
                let l = choose|l: int| 0 <= l < before.pressed_keys@.len() && (#[trigger] before.pressed_keys@[l])@ == k;
                assert(before.pressed_keys@[l]@ != code@);
            }
        }
    }
}

/// Fixed-timestep scheduler: wall-clock time accumulates, and one logical
/// update is handed out per step taken off it while more than one step's
/// worth remains, leaving a carry in `(0, FRAME_SIZE]` (or zero when
/// nothing has accumulated).
#[derive(Clone, Copy, PartialEq, Eq, Structural, Debug)]
pub struct GameLoop {
    /// Timestamp of the last frame, in microseconds.
    pub last_frame: u64,
    /// Time not yet turned into updates, in scheduler time units.
    pub accumulated_delta: u64,
}

impl GameLoop {
    /// What is carried over never exceeds one step.
    pub open spec fn wf(&self) -> bool {
        self.accumulated_delta <= FRAME_SIZE
    }

    /// The carried-over time plus the time elapsed until `now`.
    pub open spec fn pending(&self, now: u64) -> int {
        self.accumulated_delta + TIME_SCALE * (now - self.last_frame)
    }

    /// A scheduler whose clock starts at `now`, with nothing accumulated.
    pub fn new(now: u64) -> (r: GameLoop)
        ensures
            r.wf(),
            r.last_frame == now,
            r.accumulated_delta == 0,
    {
        GameLoop { last_frame: now, accumulated_delta: 0 }
    }

    /// Takes the frame timestamp `now` and returns how many logical updates
    /// to run before drawing: one step is taken off the accumulated time as
    /// long as more than one step remains.
    pub fn advance(&mut self, now: u64) -> (steps: u64)
        requires
            old(self).wf(),
            now >= old(self).last_frame,
        ensures
            final(self).wf(),
            final(self).last_frame == now,
            final(self).accumulated_delta == old(self).pending(now) - steps * FRAME_SIZE,
            steps > 0 ==> final(self).accumulated_delta > 0,
    {
        let total: u128 = self.accumulated_delta as u128 + (TIME_SCALE as u128) * ((now
            - self.last_frame) as u128);
        let steps: u128 = if total == 0 {
            0
        } else {
            (total - 1) / (FRAME_SIZE as u128)
        };
        proof {
            if total > 0 {
                vstd::arithmetic::div_mod::lemma_fundamental_div_mod(
                    (total - 1) as int,
                    FRAME_SIZE as int,
                );
            }
        }
        let rest: u128 = total - steps * (FRAME_SIZE as u128);
        assert(steps <= u64::MAX) by (nonlinear_arith)
            requires
                steps * 1_000_000 <= total,
                total <= 1_000_000 + 60 * 0xFFFF_FFFF_FFFF_FFFF,
        ;
        self.last_frame = now;
        self.accumulated_delta = rest as u64;
        steps as u64
    }
}

} // verus!
