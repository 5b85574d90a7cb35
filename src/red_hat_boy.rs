use vstd::prelude::*;
use vstd::string::{StrSliceExecFns, StringExecFns};

use crate::character::{
    animation_name, drawable, fits_i16, kind_frame_name, last_frame, last_frame_of, next_state,
    sound_cue_of, Event, RedHatBoyContext, RedHatBoyStateMachine, SoundCue, StateKind, FLOOR,
    STARTING_POINT,
};
use crate::engine::{Cell, Rect, Sheet};

verus! {

/// Offsets from the drawn box of the runner to the box it collides with.
pub const BOUNDING_X_OFFSET: i16 = 18;
pub const BOUNDING_Y_OFFSET: i16 = 14;
pub const BOUNDING_WIDTH_OFFSET: i16 = 28;

/// The decimal digits, in order.
pub open spec fn decimal_digits() -> Seq<char> {
    seq!['0', '1', '2', '3', '4', '5', '6', '7', '8', '9']
}

/// `n` written in decimal, for `n` below 100.
pub open spec fn decimal(n: int) -> Seq<char> {
    if n < 10 {
        seq![decimal_digits()[n]]
    } else {
        seq![decimal_digits()[n / 10], decimal_digits()[n % 10]]
    }
}

/// The sheet name of the cell shown at animation frame `frame` of the
/// animation `prefix`: each picture lasts three frames, and pictures count from 1,
/// as in `Run (3).png`.
pub open spec fn sprite_name(prefix: Seq<char>, frame: u8) -> Seq<char> {
    prefix + seq![' ', '('] + decimal(frame / 3 + 1) + seq![')', '.', 'p', 'n', 'g']
}

/// The decimal digit `d` as a one-character string.
fn digit(d: u8) -> (r: &'static str)
    requires
        d < 10,
    ensures
        r@ == seq![decimal_digits()[d as int]],
{
    let digits = "0123456789";
    proof {
        reveal_strlit("0123456789");
        assert(digits@ =~= decimal_digits());
    }
    let r = digits.substring_char(d as usize, d as usize + 1);
    assert(r@ =~= seq![decimal_digits()[d as int]]);
    r
}

/// Builds the sheet name of a frame of the animation `prefix`.
pub fn frame_sprite_name(prefix: &str, frame: u8) -> (r: String)
    ensures
        r@ == sprite_name(prefix@, frame),
{
    let n: u8 = frame / 3 + 1;
    let mut name = <String as StringExecFns>::from_str(prefix);
    name.append(" (");
    if n >= 10 {
        name.append(digit(n / 10));
    }
    name.append(digit(n % 10));
    name.append(").png");
    proof {
        reveal_strlit(" (");
        reveal_strlit(").png");
        assert(name@ =~= sprite_name(prefix@, frame));
    }
    name
}

/// The runner: its state machine, its sprite sheet, and the sounds its
/// transitions asked for that nobody has taken yet.
pub struct RedHatBoy {
    pub state_machine: RedHatBoyStateMachine,
    pub sprite_sheet: Sheet,
    pub sound_cues: Vec<SoundCue>,
}

/// The sounds that one cue stands for, as a sequence.
pub open spec fn cue_seq(cue: Option<SoundCue>) -> Seq<SoundCue> {
    match cue {
        Some(c) => seq![c],
        None => Seq::empty(),
    }
}

/// `after` is `before` with `event` fired: the state moves by the table and any
/// sound it asks for is queued.
pub open spec fn fired(before: RedHatBoy, after: RedHatBoy, event: Event) -> bool {
    &&& (after.state_machine.kind(), after.state_machine.ctx()) == next_state(
        before.state_machine.kind(),
        before.state_machine.ctx(),
        event,
    )
    &&& after.sprite_sheet == before.sprite_sheet
    &&& after.sound_cues@ == before.sound_cues@ + cue_seq(
        sound_cue_of(before.state_machine.kind(), event),
    )
}

impl RedHatBoy {
    pub open spec fn wf(self) -> bool {
        self.state_machine.wf()
    }

    pub open spec fn kind(self) -> StateKind {
        self.state_machine.kind()
    }

    pub open spec fn ctx(self) -> RedHatBoyContext {
        self.state_machine.ctx()
    }

    /// The cell of the current animation frame, if the sheet has it.
    pub open spec fn current_cell(self) -> Option<Cell> {
        self.sprite_sheet.lookup(sprite_name(kind_frame_name(self.kind()), self.ctx().frame))
    }

    /// Where the current cell is drawn, when the sheet has it and the box fits `i16`.
    pub open spec fn spec_destination_box(self) -> Option<Rect> {
        match self.current_cell() {
            Some(cell) => {
                let (x, y) = cell.placed_at(self.ctx().position.x as int, self.ctx().position.y as int);
                if fits_i16(x) && fits_i16(y) {
                    Some(Rect::new_spec(x as i16, y as i16, cell.frame.w, cell.frame.h))
                } else {
                    None
                }
            },
            None => None,
        }
    }

    /// The box the runner collides with: the drawn box trimmed by fixed
    /// offsets, when that box exists and the trimmed one fits `i16`.
    pub open spec fn spec_bounding_box(self) -> Option<Rect> {
        match self.spec_destination_box() {
            Some(d) => {
                let x = d.position.x + BOUNDING_X_OFFSET;
                let y = d.position.y + BOUNDING_Y_OFFSET;
                let w = d.width - BOUNDING_WIDTH_OFFSET;
                let h = d.height - BOUNDING_Y_OFFSET;
                if fits_i16(x) && fits_i16(y) && fits_i16(w) && fits_i16(h) {
                    Some(Rect::new_spec(x as i16, y as i16, w as i16, h as i16))
                } else {
                    None
                }
            },
            None => None,
        }
    }

    /// A fresh runner drawn from `sheet`: idle at the starting point, with no
    /// sound queued.
    pub open spec fn is_fresh(self, sheet: Sheet) -> bool {
        &&& self.kind() == StateKind::Idle
        &&& self.ctx() == crate::character::initial_context()
        &&& self.sprite_sheet == sheet
        &&& self.sound_cues@ == Seq::<SoundCue>::empty()
    }

    /// A fresh runner, idle at the starting point, drawn from `sheet`.
    pub fn new(sheet: Sheet) -> (r: Self)
        ensures
            r.kind() == StateKind::Idle,
            r.ctx() == crate::character::initial_context(),
            r.sprite_sheet == sheet,
            r.sound_cues@ == Seq::<SoundCue>::empty(),
            r.wf(),
    {
        RedHatBoy {
            state_machine: RedHatBoyStateMachine::new(),
            sprite_sheet: sheet,
            sound_cues: Vec::new(),
        }
    }

    /// The same runner back at the start, with its sheet kept.
    pub fn reset(boy: Self) -> (r: Self)
        ensures
            r.kind() == StateKind::Idle,
            r.ctx() == crate::character::initial_context(),
            r.sprite_sheet == boy.sprite_sheet,
            r.sound_cues@ == Seq::<SoundCue>::empty(),
            r.wf(),
    {
        RedHatBoy::new(boy.sprite_sheet)
    }

    pub fn current_sprite(&self) -> (r: Option<Cell>)
        ensures
            r == self.current_cell(),
    {
        let name = frame_sprite_name(self.state_machine.frame_name(), self.state_machine.context().frame);
        self.sprite_sheet.cell(name.as_str())
    }

    pub fn destination_box(&self) -> (r: Option<Rect>)
        ensures
            r == self.spec_destination_box(),
    {
        match self.current_sprite() {
            Some(cell) => {
                let position = self.state_machine.context().position;
                let x = position.x as i32 + cell.sprite_source_size.x as i32;
                let y = position.y as i32 + cell.sprite_source_size.y as i32;
                if -32768 <= x && x <= 32767 && -32768 <= y && y <= 32767 {
                    Some(cell.rect_start_x_y_with_size(position.x, position.y))
                } else {
                    None
                }
            },
            None => None,
        }
    }

    pub fn bounding_box(&self) -> (r: Option<Rect>)
        ensures
            r == self.spec_bounding_box(),
    {
        match self.destination_box() {
            Some(d) => {
                let x = d.x() as i32 + BOUNDING_X_OFFSET as i32;
                let y = d.y() as i32 + BOUNDING_Y_OFFSET as i32;
                let w = d.width as i32 - BOUNDING_WIDTH_OFFSET as i32;
                let h = d.height as i32 - BOUNDING_Y_OFFSET as i32;
                if x <= 32767 && y <= 32767 && -32768 <= w && -32768 <= h {
                    Some(Rect::new_from_x_y(x as i16, y as i16, w as i16, h as i16))
                } else {
                    None
                }
            },
            None => None,
        }
    }

    pub fn pos_y(&self) -> (r: i16)
        ensures
            r == self.ctx().position.y,
    {
        self.state_machine.context().position.y
    }

    pub fn velocity_y(&self) -> (r: i16)
        ensures
            r == self.ctx().velocity.y,
    {
        self.state_machine.context().velocity.y
    }

    /// The runner's horizontal speed, by which everything else moves the other way.
    pub fn walking_speed(&self) -> (r: i16)
        ensures
            r == self.ctx().velocity.x,
    {
        self.state_machine.context().velocity.x
    }

    /// Fires `event` and queues the sound it asks for.
    fn fire(&mut self, event: Event)
        requires
            old(self).wf(),
            event.wf(),
        ensures
            final(self).wf(),
            fired(*old(self), *final(self), event),
    {
        let cue = self.state_machine.sound_cue(event);
        self.state_machine = self.state_machine.transition(event);
        if let Some(c) = cue {
            self.sound_cues.push(c);
        }
        proof {
            assert(self.sound_cues@ =~= old(self).sound_cues@ + cue_seq(cue));
        }
    }

    pub fn update(&mut self)
        requires
            old(self).wf(),
        ensures
            final(self).wf(),
            fired(*old(self), *final(self), Event::Update),
    {
        self.fire(Event::Update);
    }

    pub fn run_right(&mut self)
        requires
            old(self).wf(),
        ensures
            final(self).wf(),
            fired(*old(self), *final(self), Event::Run),
    {
        self.fire(Event::Run);
    }

    pub fn jump(&mut self)
        requires
            old(self).wf(),
        ensures
            final(self).wf(),
            fired(*old(self), *final(self), Event::Jump),
    {
        self.fire(Event::Jump);
    }

    pub fn slide(&mut self)
        requires
            old(self).wf(),
        ensures
            final(self).wf(),
            fired(*old(self), *final(self), Event::Slide),
    {
        self.fire(Event::Slide);
    }

    pub fn land_on(&mut self, position_y: i16)
        requires
            old(self).wf(),
            crate::character::valid_landing(position_y),
        ensures
            final(self).wf(),
            fired(*old(self), *final(self), Event::Land(position_y)),
    {
        self.fire(Event::Land(position_y));
    }

    pub fn knock_out(&mut self)
        requires
            old(self).wf(),
        ensures
            final(self).wf(),
            fired(*old(self), *final(self), Event::KnockOut),
    {
        self.fire(Event::KnockOut);
    }

    /// Hands out the queued sounds, oldest first, and empties the queue.
    pub fn take_sound_cues(&mut self) -> (r: Vec<SoundCue>)
        ensures
            r@ == old(self).sound_cues@,
            final(self).sound_cues@ == Seq::<SoundCue>::empty(),
            final(self).state_machine == old(self).state_machine,
            final(self).sprite_sheet == old(self).sprite_sheet,
    {
        let mut taken = Vec::new();
        std::mem::swap(&mut taken, &mut self.sound_cues);
        taken
    }
}

/// A cell whose boxes stay within `i16` wherever the runner is drawn: at its
/// fixed horizontal place, at any height up to the floor. Its offset within the
/// untrimmed frame is not negative downwards, as in a trimmed sheet.
pub open spec fn cell_ready(cell: Cell) -> bool {
    &&& i16::MIN - STARTING_POINT <= cell.sprite_source_size.x
    &&& 0 <= cell.sprite_source_size.y <= i16::MAX - FLOOR - BOUNDING_Y_OFFSET
    &&& i16::MIN + BOUNDING_WIDTH_OFFSET <= cell.frame.w
    &&& i16::MIN + BOUNDING_Y_OFFSET <= cell.frame.h
}

/// `sheet` holds a ready cell for every frame of the animation of `kind`.
pub open spec fn animation_complete(sheet: Sheet, kind: StateKind) -> bool {
    forall|f: u8|
        f <= last_frame(kind) ==> {
            let cell = #[trigger] sheet.lookup(sprite_name(kind_frame_name(kind), f));
            cell is Some && cell_ready(cell->0)
        }
}

/// `sheet` holds a ready cell for every frame of every animation of the runner.
pub open spec fn sheet_complete(sheet: Sheet) -> bool {
    forall|kind: StateKind| #[trigger] animation_complete(sheet, kind)
}

/// Whether `sheet` holds a ready cell for every frame of the animation of `kind`.
fn check_animation(sheet: &Sheet, kind: StateKind) -> (r: bool)
    ensures
        r == animation_complete(*sheet, kind),
{
    let name = animation_name(kind);
    let last = last_frame_of(kind);
    let mut f: u8 = 0;
    while f <= last
        invariant
            last == last_frame(kind),
            last < 255,
            name@ == kind_frame_name(kind),
            forall|g: u8|
                g < f ==> {
                    let cell = #[trigger] sheet.lookup(sprite_name(kind_frame_name(kind), g));
                    cell is Some && cell_ready(cell->0)
                },
        decreases last + 1 - f,
    {
        let sprite = frame_sprite_name(name, f);
        match sheet.cell(sprite.as_str()) {
            Some(cell) => {
                if !(-32768 - STARTING_POINT <= cell.sprite_source_size.x && 0
                    <= cell.sprite_source_size.y && cell.sprite_source_size.y <= 32767 - FLOOR
                    - BOUNDING_Y_OFFSET && -32768 + BOUNDING_WIDTH_OFFSET <= cell.frame.w && -32768
                    + BOUNDING_Y_OFFSET <= cell.frame.h) {
                    return false;
                }
            },
            None => {
                return false;
            },
        }
        f = f + 1;
    }
    true
}

/// Whether `sheet` holds a ready cell for every frame of every animation of the runner.
pub fn sheet_is_complete(sheet: &Sheet) -> (r: bool)
    ensures
        r == sheet_complete(*sheet),
{
    let idle = check_animation(sheet, StateKind::Idle);
    let running = check_animation(sheet, StateKind::Running);
    let jumping = check_animation(sheet, StateKind::Jumping);
    let sliding = check_animation(sheet, StateKind::Sliding);
    let falling = check_animation(sheet, StateKind::Falling);
    let knocked_out = check_animation(sheet, StateKind::KnockedOut);
    proof {
        if idle && running && jumping && sliding && falling && knocked_out {
            assert forall|kind: StateKind| #[trigger] animation_complete(*sheet, kind) by {
                match kind {
                    StateKind::Idle => {},
                    StateKind::Running => {},
                    StateKind::Jumping => {},
                    StateKind::Sliding => {},
                    StateKind::Falling => {},
                    StateKind::KnockedOut => {},
                }
            }
        }
    }
    idle && running && jumping && sliding && falling && knocked_out
}

/// A drawable runner with a complete sheet always has a collision box.
pub proof fn lemma_complete_sheet_has_box(rhb: RedHatBoy)
    requires
        rhb.wf(),
        drawable(rhb.kind(), rhb.ctx()),
        sheet_complete(rhb.sprite_sheet),
    ensures
        rhb.spec_bounding_box() is Some,
{
    assert(animation_complete(rhb.sprite_sheet, rhb.kind()));
    let f = rhb.ctx().frame;
    assert(rhb.sprite_sheet.lookup(sprite_name(kind_frame_name(rhb.kind()), f)) is Some);
}

} // verus!
