use vstd::prelude::*;

use crate::engine::Point;

verus! {

/// Width and height of the square canvas.
pub const CANVAS_SIZE: i16 = 600;

/// The lowest position the runner's top edge can take.
pub const FLOOR: i16 = 479;

/// Distance from the runner's top edge to the ground it stands on.
pub const PLAYER_HEIGHT: i16 = CANVAS_SIZE - FLOOR;

/// Where the runner stands on the canvas, horizontally; it never moves.
pub const STARTING_POINT: i16 = -20;

/// The last animation frame of each state.
pub const IDLE_FRAME: u8 = 29;
pub const RUNNING_FRAME: u8 = 23;
pub const JUMPING_FRAME: u8 = 35;
pub const SLIDING_FRAME: u8 = 14;
pub const FALLING_FRAME: u8 = 29;

/// Horizontal speed given by the start of a run.
pub const RUNNING_SPEED: i16 = 3;

/// Vertical velocity at the launch of a jump (upwards is negative).
pub const JUMPING_SPEED: i16 = -25;

/// Increase of the vertical velocity in each frame.
pub const GRAVITY: i16 = 1;

/// The largest falling speed.
pub const TERMINAL_VELOCITY_Y: i16 = 20;

/// How far a jump launched at `JUMPING_SPEED` rises: 25 + 24 + ... + 1.
pub const JUMP_RISE: i16 = 325;

/// The lowest top edge that a landing may put the runner at.
pub const LOWEST_LANDING_TOP: i16 = -32768 + JUMP_RISE;

/// How far a body moving up at speed `n` still rises before it turns: n + (n - 1) + ... + 1.
pub open spec fn rise(n: int) -> int
    decreases n,
{
    if n <= 0 {
        0
    } else {
        n + rise(n - 1)
    }
}

proof fn lemma_rise_at_least(n: int)
    requires
        n >= 0,
    ensures
        rise(n) >= n,
        rise(n) >= 0,
    decreases n,
{
    if n > 0 {
        lemma_rise_at_least(n - 1);
    }
}

proof fn lemma_jump_rise()
    ensures
        rise(-JUMPING_SPEED as int) == JUMP_RISE as int,
{
    reveal_with_fuel(rise, 26);
}

/// The next animation frame: one more, or back to 0 after `frame_count`.
pub open spec fn advance_frame(frame: u8, frame_count: u8) -> u8 {
    if frame < frame_count {
        (frame + 1) as u8
    } else {
        0
    }
}

/// A value that `i16` can hold.
pub open spec fn fits_i16(v: int) -> bool {
    i16::MIN <= v <= i16::MAX
}

/// A ground height on which the runner may land: standing on it keeps the
/// runner at or above the floor, with room for a full jump above.
pub open spec fn valid_landing(position_y: i16) -> bool {
    LOWEST_LANDING_TOP + PLAYER_HEIGHT <= position_y <= CANVAS_SIZE
}

/// Animation frame, position and velocity of the runner.
#[derive(Clone, Copy, Debug, PartialEq, Eq, Structural)]
pub struct RedHatBoyContext {
    pub frame: u8,
    pub position: Point,
    pub velocity: Point,
}

impl RedHatBoyContext {
    /// One frame of physics: the animation frame advances, the vertical velocity
    /// moves the runner, the floor stops it, and then gravity speeds the fall up
    /// to the terminal velocity.
    pub open spec fn stepped(self, frame_count: u8) -> RedHatBoyContext {
        let y = self.position.y + self.velocity.y;
        let below = y > FLOOR;
        let vy = (if below {
            0
        } else {
            self.velocity.y as int
        }) + GRAVITY;
        RedHatBoyContext {
            frame: advance_frame(self.frame, frame_count),
            position: Point {
                x: self.position.x,
                y: if below {
                    FLOOR
                } else {
                    y as i16
                },
            },
            velocity: Point {
                x: self.velocity.x,
                y: if vy > TERMINAL_VELOCITY_Y {
                    TERMINAL_VELOCITY_Y
                } else {
                    vy as i16
                },
            },
        }
    }

    /// The frame's arithmetic stays within `i16`.
    pub open spec fn can_step(self) -> bool {
        fits_i16(self.position.y + self.velocity.y) && self.velocity.y < i16::MAX
    }

    /// The context standing on ground at height `position_y`.
    pub open spec fn landed(self, position_y: i16) -> RedHatBoyContext {
        RedHatBoyContext {
            position: Point { x: self.position.x, y: (position_y - PLAYER_HEIGHT) as i16 },
            velocity: Point { x: self.velocity.x, y: 0 },
            ..self
        }
    }

    /// The highest point (lowest `y`) that the runner reaches before gravity turns it.
    pub open spec fn apex(self) -> int {
        self.position.y - rise(-self.velocity.y as int)
    }

    /// Advances the context by one frame; `frame_count` is the state's last frame.
    pub fn update(self, frame_count: u8) -> (r: Self)
        requires
            self.can_step(),
        ensures
            r == self.stepped(frame_count),
    {
        let mut next = self;
        if next.frame < frame_count {
            next.frame = next.frame + 1;
        } else {
            next.frame = 0;
        }
        next.position.y = next.position.y + next.velocity.y;
        if next.position.y > FLOOR {
            next.position.y = FLOOR;
            next.velocity.y = 0;
        }
        next.velocity.y = next.velocity.y + GRAVITY;
        if next.velocity.y > TERMINAL_VELOCITY_Y {
            next.velocity.y = TERMINAL_VELOCITY_Y;
        }
        next
    }

    fn reset_frame(self) -> (r: Self)
        ensures
            r == (RedHatBoyContext { frame: 0, ..self }),
    {
        RedHatBoyContext { frame: 0, ..self }
    }

    fn stop(self) -> (r: Self)
        ensures
            r == (RedHatBoyContext { velocity: Point { x: 0, y: 0 }, ..self }),
    {
        RedHatBoyContext { velocity: Point { x: 0, y: 0 }, ..self }
    }

    fn run_right(self) -> (r: Self)
        requires
            self.velocity.x + RUNNING_SPEED <= i16::MAX,
        ensures
            r == (RedHatBoyContext {
                velocity: Point {
                    x: (self.velocity.x + RUNNING_SPEED) as i16,
                    y: self.velocity.y,
                },
                ..self
            }),
    {
        RedHatBoyContext {
            velocity: Point { x: self.velocity.x + RUNNING_SPEED, y: self.velocity.y },
            ..self
        }
    }

    fn set_vertical_velocity(self, y: i16) -> (r: Self)
        ensures
            r == (RedHatBoyContext { velocity: Point { x: self.velocity.x, y }, ..self }),
    {
        RedHatBoyContext { velocity: Point { x: self.velocity.x, y }, ..self }
    }

    /// Puts the runner on ground at height `position_y` and stops its vertical motion.
    fn set_on(self, position_y: i16) -> (r: Self)
        requires
            valid_landing(position_y),
        ensures
            r == self.landed(position_y),
    {
        RedHatBoyContext {
            position: Point { x: self.position.x, y: position_y - PLAYER_HEIGHT },
            velocity: Point { x: self.velocity.x, y: 0 },
            ..self
        }
    }
}

impl RedHatBoyContext {
    /// Bounds that hold in every state.
    pub open spec fn bounded(self) -> bool {
        &&& self.position.y <= FLOOR
        &&& 0 <= self.velocity.x <= RUNNING_SPEED
        &&& self.velocity.y <= TERMINAL_VELOCITY_Y
    }

    /// On the ground or falling, with room for a full jump above.
    pub open spec fn grounded(self) -> bool {
        &&& self.bounded()
        &&& self.velocity.y >= 0
        &&& self.position.y >= LOWEST_LANDING_TOP
    }

    /// In a jump: the rest of the rise stays within `i16`.
    pub open spec fn airborne(self) -> bool {
        &&& self.bounded()
        &&& self.velocity.y >= JUMPING_SPEED
        &&& self.apex() >= i16::MIN
    }

    /// Not moving up.
    pub open spec fn settled(self) -> bool {
        &&& self.bounded()
        &&& self.velocity.y >= 0
    }
}

proof fn lemma_step_settled(c: RedHatBoyContext, frame_count: u8)
    requires
        c.settled(),
    ensures
        c.can_step(),
        c.stepped(frame_count).settled(),
        c.position.y <= c.stepped(frame_count).position.y,
{
}

proof fn lemma_step_grounded(c: RedHatBoyContext, frame_count: u8)
    requires
        c.grounded(),
    ensures
        c.can_step(),
        c.stepped(frame_count).grounded(),
{
}

proof fn lemma_step_airborne(c: RedHatBoyContext, frame_count: u8)
    requires
        c.airborne(),
    ensures
        c.can_step(),
        c.stepped(frame_count).airborne(),
{
    let n = -c.velocity.y as int;
    if n > 0 {
        lemma_rise_at_least(n - 1);
        assert(rise(n) == n + rise(n - 1));
    }
}

/// The state markers of the runner.
#[derive(Clone, Copy, Debug)]
pub struct Idle;

#[derive(Clone, Copy, Debug)]
pub struct Running;

#[derive(Clone, Copy, Debug)]
pub struct Jumping;

#[derive(Clone, Copy, Debug)]
pub struct Sliding;

#[derive(Clone, Copy, Debug)]
pub struct Falling;

#[derive(Clone, Copy, Debug)]
pub struct KnockedOut;

/// The runner in the state `S`.
#[derive(Clone, Copy, Debug)]
pub struct RedHatBoyState<S> {
    pub context: RedHatBoyContext,
    pub _state: S,
}

/// The context a fresh runner starts with.
pub open spec fn initial_context() -> RedHatBoyContext {
    RedHatBoyContext {
        frame: 0,
        position: Point { x: STARTING_POINT, y: FLOOR },
        velocity: Point { x: 0, y: 0 },
    }
}

impl RedHatBoyState<Idle> {
    pub fn new() -> (r: Self)
        ensures
            r.context == initial_context(),
    {
        RedHatBoyState {
            context: RedHatBoyContext {
                frame: 0,
                position: Point { x: STARTING_POINT, y: FLOOR },
                velocity: Point { x: 0, y: 0 },
            },
            _state: Idle,
        }
    }

    pub fn frame_name(&self) -> (r: &'static str)
        ensures
            r@ == idle_frame_name(),
    {
        proof {
            reveal_strlit("Idle");
        }
        "Idle"
    }

    pub fn update(self) -> (r: Self)
        requires
            self.context.grounded(),
        ensures
            r.context == self.context.stepped(IDLE_FRAME),
    {
        proof {
            lemma_step_grounded(self.context, IDLE_FRAME);
        }
        RedHatBoyState { context: self.context.update(IDLE_FRAME), _state: Idle }
    }

    /// Starts running: the frame restarts and the runner gains its running speed.
    pub fn run(self) -> (r: RedHatBoyState<Running>)
        requires
            self.context.velocity.x == 0,
        ensures
            r.context == (RedHatBoyContext {
                frame: 0,
                velocity: Point { x: RUNNING_SPEED, y: self.context.velocity.y },
                ..self.context
            }),
    {
        RedHatBoyState { context: self.context.reset_frame().run_right(), _state: Running }
    }

    pub fn land_on(self, position_y: i16) -> (r: RedHatBoyState<Running>)
        requires
            valid_landing(position_y),
        ensures
            r.context == self.context.landed(position_y),
    {
        RedHatBoyState { context: self.context.set_on(position_y), _state: Running }
    }
}

impl RedHatBoyState<Running> {
    pub fn frame_name(&self) -> (r: &'static str)
        ensures
            r@ == run_frame_name(),
    {
        proof {
            reveal_strlit("Run");
        }
        "Run"
    }

    pub fn update(self) -> (r: Self)
        requires
            self.context.grounded(),
        ensures
            r.context == self.context.stepped(RUNNING_FRAME),
    {
        proof {
            lemma_step_grounded(self.context, RUNNING_FRAME);
        }
        RedHatBoyState { context: self.context.update(RUNNING_FRAME), _state: Running }
    }

    /// Launches a jump: upward velocity at the launch speed, frame restarted.
    pub fn jump(self) -> (r: RedHatBoyState<Jumping>)
        ensures
            r.context == (RedHatBoyContext {
                frame: 0,
                velocity: Point { x: self.context.velocity.x, y: JUMPING_SPEED },
                ..self.context
            }),
    {
        RedHatBoyState {
            context: self.context.set_vertical_velocity(JUMPING_SPEED).reset_frame(),
            _state: Jumping,
        }
    }

    pub fn slide(self) -> (r: RedHatBoyState<Sliding>)
        ensures
            r.context == (RedHatBoyContext { frame: 0, ..self.context }),
    {
        RedHatBoyState { context: self.context.reset_frame(), _state: Sliding }
    }

    pub fn land_on(self, position_y: i16) -> (r: RedHatBoyState<Running>)
        requires
            valid_landing(position_y),
        ensures
            r.context == self.context.landed(position_y),
    {
        RedHatBoyState { context: self.context.set_on(position_y), _state: Running }
    }
}

/// What one frame of a jump leads to.
pub enum JumpingEndstate {
    Complete(RedHatBoyState<Running>),
    Jumping(RedHatBoyState<Jumping>),
}

impl RedHatBoyState<Jumping> {
    pub fn frame_name(&self) -> (r: &'static str)
        ensures
            r@ == jump_frame_name(),
    {
        proof {
            reveal_strlit("Jump");
        }
        "Jump"
    }

    /// One frame of the jump; back on the floor, the runner lands and runs.
    pub fn update(self) -> (r: JumpingEndstate)
        requires
            self.context.airborne(),
        ensures
            ({
                let c = self.context.stepped(JUMPING_FRAME);
                if c.position.y >= FLOOR {
                    r matches JumpingEndstate::Complete(s) && s.context == (RedHatBoyContext {
                        frame: 0,
                        ..c
                    }).landed(CANVAS_SIZE)
                } else {
                    r matches JumpingEndstate::Jumping(s) && s.context == c
                }
            }),
    {
        proof {
            lemma_step_airborne(self.context, JUMPING_FRAME);
        }
        let next = RedHatBoyState { context: self.context.update(JUMPING_FRAME), _state: Jumping };
        if next.context.position.y >= FLOOR {
            JumpingEndstate::Complete(next.land_on(CANVAS_SIZE))
        } else {
            JumpingEndstate::Jumping(next)
        }
    }

    pub fn land_on(self, position_y: i16) -> (r: RedHatBoyState<Running>)
        requires
            valid_landing(position_y),
        ensures
            r.context == (RedHatBoyContext { frame: 0, ..self.context }).landed(position_y),
    {
        RedHatBoyState { context: self.context.reset_frame().set_on(position_y), _state: Running }
    }
}

/// What one frame of a slide leads to.
pub enum SlidingEndState {
    Complete(RedHatBoyState<Running>),
    Sliding(RedHatBoyState<Sliding>),
}

impl RedHatBoyState<Sliding> {
    pub fn frame_name(&self) -> (r: &'static str)
        ensures
            r@ == slide_frame_name(),
    {
        proof {
            reveal_strlit("Slide");
        }
        "Slide"
    }

    /// One frame of the slide; at the slide's last frame the runner stands up.
    pub fn update(self) -> (r: SlidingEndState)
        requires
            self.context.grounded(),
        ensures
            ({
                let c = self.context.stepped(SLIDING_FRAME);
                if c.frame >= SLIDING_FRAME {
                    r matches SlidingEndState::Complete(s) && s.context == (RedHatBoyContext {
                        frame: 0,
                        ..c
                    })
                } else {
                    r matches SlidingEndState::Sliding(s) && s.context == c
                }
            }),
    {
        proof {
            lemma_step_grounded(self.context, SLIDING_FRAME);
        }
        let next = RedHatBoyState { context: self.context.update(SLIDING_FRAME), _state: Sliding };
        if next.context.frame >= SLIDING_FRAME {
            SlidingEndState::Complete(next.stand())
        } else {
            SlidingEndState::Sliding(next)
        }
    }

    pub fn stand(self) -> (r: RedHatBoyState<Running>)
        ensures
            r.context == (RedHatBoyContext { frame: 0, ..self.context }),
    {
        RedHatBoyState { context: self.context.reset_frame(), _state: Running }
    }

    pub fn land_on(self, position_y: i16) -> (r: RedHatBoyState<Sliding>)
        requires
            valid_landing(position_y),
        ensures
            r.context == self.context.landed(position_y),
    {
        RedHatBoyState { context: self.context.set_on(position_y), _state: Sliding }
    }
}

/// What one frame of a fall leads to.
pub enum FallingEndState {
    Complete(RedHatBoyState<KnockedOut>),
    Falling(RedHatBoyState<Falling>),
}

impl RedHatBoyState<Falling> {
    pub fn frame_name(&self) -> (r: &'static str)
        ensures
            r@ == dead_frame_name(),
    {
        proof {
            reveal_strlit("Dead");
        }
        "Dead"
    }

    /// One frame of the fall; at the fall's last frame the runner is knocked out.
    pub fn update(self) -> (r: FallingEndState)
        requires
            self.context.settled(),
        ensures
            ({
                let c = self.context.stepped(FALLING_FRAME);
                if c.frame >= FALLING_FRAME {
                    r matches FallingEndState::Complete(s) && s.context == c
                } else {
                    r matches FallingEndState::Falling(s) && s.context == c
                }
            }),
    {
        proof {
            lemma_step_settled(self.context, FALLING_FRAME);
        }
        let next = RedHatBoyState { context: self.context.update(FALLING_FRAME), _state: Falling };
        if next.context.frame >= FALLING_FRAME {
            FallingEndState::Complete(RedHatBoyState { context: next.context, _state: KnockedOut })
        } else {
            FallingEndState::Falling(next)
        }
    }
}

impl RedHatBoyState<KnockedOut> {
    pub fn frame_name(&self) -> (r: &'static str)
        ensures
            r@ == dead_frame_name(),
    {
        proof {
            reveal_strlit("Dead");
        }
        "Dead"
    }
}

impl<S> RedHatBoyState<S> {
    pub fn context(&self) -> (r: &RedHatBoyContext)
        ensures
            *r == self.context,
    {
        &self.context
    }

    /// Knocks the runner down: all motion stops and the fall starts at frame 0.
    pub fn knock_out(&self) -> (r: RedHatBoyState<Falling>)
        ensures
            r.context == (RedHatBoyContext {
                frame: 0,
                velocity: Point { x: 0, y: 0 },
                ..self.context
            }),
    {
        RedHatBoyState { context: self.context.reset_frame().stop(), _state: Falling }
    }
}


/// The animation name `Idle`.
pub open spec fn idle_frame_name() -> Seq<char> {
    seq!['I', 'd', 'l', 'e']
}

/// The animation name `Run`.
pub open spec fn run_frame_name() -> Seq<char> {
    seq!['R', 'u', 'n']
}

/// The animation name `Jump`.
pub open spec fn jump_frame_name() -> Seq<char> {
    seq!['J', 'u', 'm', 'p']
}

/// The animation name `Slide`.
pub open spec fn slide_frame_name() -> Seq<char> {
    seq!['S', 'l', 'i', 'd', 'e']
}

/// The animation name `Dead`.
pub open spec fn dead_frame_name() -> Seq<char> {
    seq!['D', 'e', 'a', 'd']
}

/// Which state the runner is in.
#[derive(Clone, Copy, Debug, PartialEq, Eq, Structural)]
pub enum StateKind {
    Idle,
    Running,
    Jumping,
    Sliding,
    Falling,
    KnockedOut,
}

/// What can happen to the runner.
#[derive(Clone, Copy, Debug, PartialEq, Eq, Structural)]
pub enum Event {
    Run,
    Jump,
    Slide,
    KnockOut,
    Land(i16),
    Update,
}

impl Event {
    /// A landing is on a height that keeps the runner above the floor.
    pub open spec fn wf(self) -> bool {
        match self {
            Event::Land(y) => valid_landing(y),
            _ => true,
        }
    }
}

/// A sound that a transition asks to be started or stopped.
#[derive(Clone, Copy, Debug, PartialEq, Eq, Structural)]
pub enum SoundCue {
    /// Start the looping background music.
    StartBackgroundMusic,
    /// Play the jump sound once.
    PlayJumpSound,
    /// Stop the background music.
    StopBackgroundMusic,
}

/// The bounds that a context keeps in each state.
pub open spec fn context_fits(kind: StateKind, c: RedHatBoyContext) -> bool {
    match kind {
        StateKind::Idle => c.grounded() && c.velocity.x == 0,
        StateKind::Running => c.grounded(),
        StateKind::Sliding => c.grounded(),
        StateKind::Jumping => c.airborne(),
        StateKind::Falling => c.settled(),
        StateKind::KnockedOut => c.settled(),
    }
}

/// The context after a knock-out: motion stopped, frame restarted.
pub open spec fn knocked(c: RedHatBoyContext) -> RedHatBoyContext {
    RedHatBoyContext { frame: 0, velocity: Point { x: 0, y: 0 }, ..c }
}

/// The context with its animation frame restarted.
pub open spec fn restarted(c: RedHatBoyContext) -> RedHatBoyContext {
    RedHatBoyContext { frame: 0, ..c }
}

/// The transition table: the state and context that `event` leads to. Pairs
/// that the table does not list leave both unchanged.
pub open spec fn next_state(kind: StateKind, c: RedHatBoyContext, event: Event) -> (
    StateKind,
    RedHatBoyContext,
) {
    match kind {
        StateKind::Idle => match event {
            Event::Update => (StateKind::Idle, c.stepped(IDLE_FRAME)),
            Event::Run => (
                StateKind::Running,
                RedHatBoyContext {
                    frame: 0,
                    velocity: Point { x: RUNNING_SPEED, y: c.velocity.y },
                    ..c
                },
            ),
            Event::Land(y) => (StateKind::Running, c.landed(y)),
            _ => (kind, c),
        },
        StateKind::Running => match event {
            Event::Update => (StateKind::Running, c.stepped(RUNNING_FRAME)),
            Event::Jump => (
                StateKind::Jumping,
                RedHatBoyContext {
                    frame: 0,
                    velocity: Point { x: c.velocity.x, y: JUMPING_SPEED },
                    ..c
                },
            ),
            Event::Slide => (StateKind::Sliding, restarted(c)),
            Event::Land(y) => (StateKind::Running, c.landed(y)),
            Event::KnockOut => (StateKind::Falling, knocked(c)),
            _ => (kind, c),
        },
        StateKind::Jumping => match event {
            Event::Update => {
                let n = c.stepped(JUMPING_FRAME);
                if n.position.y >= FLOOR {
                    (StateKind::Running, restarted(n).landed(CANVAS_SIZE))
                } else {
                    (StateKind::Jumping, n)
                }
            },
            Event::Land(y) => (StateKind::Running, restarted(c).landed(y)),
            Event::KnockOut => (StateKind::Falling, knocked(c)),
            _ => (kind, c),
        },
        StateKind::Sliding => match event {
            Event::Update => {
                let n = c.stepped(SLIDING_FRAME);
                if n.frame >= SLIDING_FRAME {
                    (StateKind::Running, restarted(n))
                } else {
                    (StateKind::Sliding, n)
                }
            },
            Event::Land(y) => (StateKind::Sliding, c.landed(y)),
            Event::KnockOut => (StateKind::Falling, knocked(c)),
            _ => (kind, c),
        },
        StateKind::Falling => match event {
            Event::Update => {
                let n = c.stepped(FALLING_FRAME);
                if n.frame >= FALLING_FRAME {
                    (StateKind::KnockedOut, n)
                } else {
                    (StateKind::Falling, n)
                }
            },
            _ => (kind, c),
        },
        StateKind::KnockedOut => (kind, c),
    }
}

/// The sound that `event` asks for in the state `kind`, if any.
pub open spec fn sound_cue_of(kind: StateKind, event: Event) -> Option<SoundCue> {
    match (kind, event) {
        (StateKind::Idle, Event::Run) => Some(SoundCue::StartBackgroundMusic),
        (StateKind::Running, Event::Jump) => Some(SoundCue::PlayJumpSound),
        (StateKind::Running, Event::KnockOut) => Some(SoundCue::StopBackgroundMusic),
        (StateKind::Jumping, Event::KnockOut) => Some(SoundCue::StopBackgroundMusic),
        (StateKind::Sliding, Event::KnockOut) => Some(SoundCue::StopBackgroundMusic),
        _ => None,
    }
}

/// The name of the animation played in the state `kind`.
pub open spec fn kind_frame_name(kind: StateKind) -> Seq<char> {
    match kind {
        StateKind::Idle => idle_frame_name(),
        StateKind::Running => run_frame_name(),
        StateKind::Jumping => jump_frame_name(),
        StateKind::Sliding => slide_frame_name(),
        StateKind::Falling => dead_frame_name(),
        StateKind::KnockedOut => dead_frame_name(),
    }
}

/// The runner in one of its states.
#[derive(Clone, Copy, Debug)]
pub enum RedHatBoyStateMachine {
    Idle(RedHatBoyState<Idle>),
    Running(RedHatBoyState<Running>),
    Jumping(RedHatBoyState<Jumping>),
    Sliding(RedHatBoyState<Sliding>),
    Falling(RedHatBoyState<Falling>),
    KnockedOut(RedHatBoyState<KnockedOut>),
}

impl From<JumpingEndstate> for RedHatBoyStateMachine {
    fn from(end_state: JumpingEndstate) -> (r: Self) {
        match end_state {
            JumpingEndstate::Complete(running_state) => RedHatBoyStateMachine::Running(
                running_state,
            ),
            JumpingEndstate::Jumping(jumping_state) => RedHatBoyStateMachine::Jumping(
                jumping_state,
            ),
        }
    }
}

impl vstd::std_specs::convert::FromSpecImpl<JumpingEndstate> for RedHatBoyStateMachine {
    open spec fn obeys_from_spec() -> bool {
        true
    }

    open spec fn from_spec(end_state: JumpingEndstate) -> Self {
        match end_state {
            JumpingEndstate::Complete(s) => RedHatBoyStateMachine::Running(s),
            JumpingEndstate::Jumping(s) => RedHatBoyStateMachine::Jumping(s),
        }
    }
}

impl From<SlidingEndState> for RedHatBoyStateMachine {
    fn from(end_state: SlidingEndState) -> (r: Self) {
        match end_state {
            SlidingEndState::Complete(running_state) => RedHatBoyStateMachine::Running(
                running_state,
            ),
            SlidingEndState::Sliding(sliding_state) => RedHatBoyStateMachine::Sliding(
                sliding_state,
            ),
        }
    }
}

impl vstd::std_specs::convert::FromSpecImpl<SlidingEndState> for RedHatBoyStateMachine {
    open spec fn obeys_from_spec() -> bool {
        true
    }

    open spec fn from_spec(end_state: SlidingEndState) -> Self {
        match end_state {
            SlidingEndState::Complete(s) => RedHatBoyStateMachine::Running(s),
            SlidingEndState::Sliding(s) => RedHatBoyStateMachine::Sliding(s),
        }
    }
}

impl From<FallingEndState> for RedHatBoyStateMachine {
    fn from(end_state: FallingEndState) -> (r: Self) {
        match end_state {
            FallingEndState::Complete(knocked_out_state) => RedHatBoyStateMachine::KnockedOut(
                knocked_out_state,
            ),
            FallingEndState::Falling(falling_state) => RedHatBoyStateMachine::Falling(
                falling_state,
            ),
        }
    }
}

impl vstd::std_specs::convert::FromSpecImpl<FallingEndState> for RedHatBoyStateMachine {
    open spec fn obeys_from_spec() -> bool {
        true
    }

    open spec fn from_spec(end_state: FallingEndState) -> Self {
        match end_state {
            FallingEndState::Complete(s) => RedHatBoyStateMachine::KnockedOut(s),
            FallingEndState::Falling(s) => RedHatBoyStateMachine::Falling(s),
        }
    }
}

impl RedHatBoyStateMachine {
    /// The state the runner is in.
    pub open spec fn kind(self) -> StateKind {
        match self {
            RedHatBoyStateMachine::Idle(_) => StateKind::Idle,
            RedHatBoyStateMachine::Running(_) => StateKind::Running,
            RedHatBoyStateMachine::Jumping(_) => StateKind::Jumping,
            RedHatBoyStateMachine::Sliding(_) => StateKind::Sliding,
            RedHatBoyStateMachine::Falling(_) => StateKind::Falling,
            RedHatBoyStateMachine::KnockedOut(_) => StateKind::KnockedOut,
        }
    }

    /// The runner's context, whatever its state.
    pub open spec fn ctx(self) -> RedHatBoyContext {
        match self {
            RedHatBoyStateMachine::Idle(s) => s.context,
            RedHatBoyStateMachine::Running(s) => s.context,
            RedHatBoyStateMachine::Jumping(s) => s.context,
            RedHatBoyStateMachine::Sliding(s) => s.context,
            RedHatBoyStateMachine::Falling(s) => s.context,
            RedHatBoyStateMachine::KnockedOut(s) => s.context,
        }
    }

    pub open spec fn wf(self) -> bool {
        context_fits(self.kind(), self.ctx())
    }

    /// A fresh runner: idle at the starting point on the floor.
    pub fn new() -> (r: Self)
        ensures
            r.kind() == StateKind::Idle,
            r.ctx() == initial_context(),
            r.wf(),
    {
        RedHatBoyStateMachine::Idle(RedHatBoyState::<Idle>::new())
    }

    /// Fires `event`: the state and context that the table gives.
    pub fn transition(self, event: Event) -> (r: Self)
        requires
            self.wf(),
            event.wf(),
        ensures
            (r.kind(), r.ctx()) == next_state(self.kind(), self.ctx(), event),
            r.wf(),
    {
        match self {
            RedHatBoyStateMachine::Idle(state) => match event {
                Event::Run => RedHatBoyStateMachine::Running(state.run()),
                Event::Land(position_y) => RedHatBoyStateMachine::Running(
                    state.land_on(position_y),
                ),
                Event::Update => {
                    proof {
                        lemma_step_grounded(state.context, IDLE_FRAME);
                    }
                    RedHatBoyStateMachine::Idle(state.update())
                },
                _ => self,
            },
            RedHatBoyStateMachine::Running(state) => match event {
                Event::Jump => {
                    proof {
                        lemma_jump_rise();
                    }
                    RedHatBoyStateMachine::Jumping(state.jump())
                },
                Event::Slide => RedHatBoyStateMachine::Sliding(state.slide()),
                Event::Land(position_y) => RedHatBoyStateMachine::Running(
                    state.land_on(position_y),
                ),
                Event::KnockOut => RedHatBoyStateMachine::Falling(state.knock_out()),
                Event::Update => {
                    proof {
                        lemma_step_grounded(state.context, RUNNING_FRAME);
                    }
                    RedHatBoyStateMachine::Running(state.update())
                },
                _ => self,
            },
            RedHatBoyStateMachine::Jumping(state) => match event {
                Event::Land(position_y) => RedHatBoyStateMachine::Running(
                    state.land_on(position_y),
                ),
                Event::KnockOut => RedHatBoyStateMachine::Falling(state.knock_out()),
                Event::Update => {
                    proof {
                        lemma_step_airborne(state.context, JUMPING_FRAME);
                    }
                    RedHatBoyStateMachine::from(state.update())
                },
                _ => self,
            },
            RedHatBoyStateMachine::Sliding(state) => match event {
                Event::Land(position_y) => RedHatBoyStateMachine::Sliding(
                    state.land_on(position_y),
                ),
                Event::KnockOut => RedHatBoyStateMachine::Falling(state.knock_out()),
                Event::Update => {
                    proof {
                        lemma_step_grounded(state.context, SLIDING_FRAME);
                    }
                    RedHatBoyStateMachine::from(state.update())
                },
                _ => self,
            },
            RedHatBoyStateMachine::Falling(state) => match event {
                Event::Update => {
                    proof {
                        lemma_step_settled(state.context, FALLING_FRAME);
                    }
                    RedHatBoyStateMachine::from(state.update())
                },
                _ => self,
            },
            RedHatBoyStateMachine::KnockedOut(_) => self,
        }
    }

    /// The sound that `event` asks for now.
    pub fn sound_cue(&self, event: Event) -> (r: Option<SoundCue>)
        ensures
            r == sound_cue_of(self.kind(), event),
    {
        match (self, event) {
            (RedHatBoyStateMachine::Idle(_), Event::Run) => Some(SoundCue::StartBackgroundMusic),
            (RedHatBoyStateMachine::Running(_), Event::Jump) => Some(SoundCue::PlayJumpSound),
            (RedHatBoyStateMachine::Running(_), Event::KnockOut) => Some(
                SoundCue::StopBackgroundMusic,
            ),
            (RedHatBoyStateMachine::Jumping(_), Event::KnockOut) => Some(
                SoundCue::StopBackgroundMusic,
            ),
            (RedHatBoyStateMachine::Sliding(_), Event::KnockOut) => Some(
                SoundCue::StopBackgroundMusic,
            ),
            _ => None,
        }
    }

    /// The name of the current animation.
    pub fn frame_name(&self) -> (r: &'static str)
        ensures
            r@ == kind_frame_name(self.kind()),
    {
        match self {
            RedHatBoyStateMachine::Idle(state) => state.frame_name(),
            RedHatBoyStateMachine::Running(state) => state.frame_name(),
            RedHatBoyStateMachine::Jumping(state) => state.frame_name(),
            RedHatBoyStateMachine::Sliding(state) => state.frame_name(),
            RedHatBoyStateMachine::Falling(state) => state.frame_name(),
            RedHatBoyStateMachine::KnockedOut(state) => state.frame_name(),
        }
    }

    pub fn context(&self) -> (r: &RedHatBoyContext)
        ensures
            *r == self.ctx(),
    {
        match self {
            RedHatBoyStateMachine::Idle(state) => state.context(),
            RedHatBoyStateMachine::Running(state) => state.context(),
            RedHatBoyStateMachine::Jumping(state) => state.context(),
            RedHatBoyStateMachine::Sliding(state) => state.context(),
            RedHatBoyStateMachine::Falling(state) => state.context(),
            RedHatBoyStateMachine::KnockedOut(state) => state.context(),
        }
    }

    /// Which state the runner is in.
    pub fn state_kind(&self) -> (r: StateKind)
        ensures
            r == self.kind(),
    {
        match self {
            RedHatBoyStateMachine::Idle(_) => StateKind::Idle,
            RedHatBoyStateMachine::Running(_) => StateKind::Running,
            RedHatBoyStateMachine::Jumping(_) => StateKind::Jumping,
            RedHatBoyStateMachine::Sliding(_) => StateKind::Sliding,
            RedHatBoyStateMachine::Falling(_) => StateKind::Falling,
            RedHatBoyStateMachine::KnockedOut(_) => StateKind::KnockedOut,
        }
    }
}

/// A runner at rest on the floor: one frame of physics leaves it on or above the
/// floor, with gravity's increment as its vertical velocity.
pub proof fn lemma_update_from_rest(c: RedHatBoyContext, frame_count: u8)
    requires
        c.position.y == FLOOR,
        c.velocity.y == 0,
    ensures
        c.stepped(frame_count).velocity.y == GRAVITY,
        c.stepped(frame_count).position.y <= FLOOR,
{
}

/// The state and context after `n` frames with no other event.
pub open spec fn updates(kind: StateKind, c: RedHatBoyContext, n: nat) -> (StateKind, RedHatBoyContext)
    decreases n,
{
    if n == 0 {
        (kind, c)
    } else {
        let (k, d) = next_state(kind, c, Event::Update);
        updates(k, d, (n - 1) as nat)
    }
}

/// How far a jump still is from its landing, in a measure that each frame of
/// the jump lowers.
pub open spec fn landing_distance(c: RedHatBoyContext) -> int {
    (TERMINAL_VELOCITY_Y - c.velocity.y) * (1 - JUMPING_SPEED) + (FLOOR - c.position.y)
}

proof fn lemma_updates_shift(kind: StateKind, c: RedHatBoyContext, n: nat)
    requires
        n > 0,
    ensures
        updates(kind, c, n) == updates(
            next_state(kind, c, Event::Update).0,
            next_state(kind, c, Event::Update).1,
            (n - 1) as nat,
        ),
{
}

/// A running runner stays running, frame after frame.
pub proof fn lemma_running_stays_running(c: RedHatBoyContext, n: nat)
    requires
        context_fits(StateKind::Running, c),
    ensures
        updates(StateKind::Running, c, n).0 == StateKind::Running,
        context_fits(StateKind::Running, updates(StateKind::Running, c, n).1),
    decreases n,
{
    if n > 0 {
        lemma_step_grounded(c, RUNNING_FRAME);
        lemma_running_stays_running(c.stepped(RUNNING_FRAME), (n - 1) as nat);
    }
}

/// Left to its frames, the jump with context `j` is running on the floor after
/// `n` frames, and was jumping at every frame before.
pub open spec fn lands_at(j: RedHatBoyContext, n: nat) -> bool {
    &&& n >= 1
    &&& updates(StateKind::Jumping, j, n).0 == StateKind::Running
    &&& updates(StateKind::Jumping, j, n).1.position.y == FLOOR
    &&& forall|m: nat| m < n ==> #[trigger] updates(StateKind::Jumping, j, m).0 == StateKind::Jumping
}

/// As `lands_at`, and the runner keeps running at every frame after the landing.
pub open spec fn lands_once_at(j: RedHatBoyContext, n: nat) -> bool {
    &&& lands_at(j, n)
    &&& forall|m: nat| m >= n ==> #[trigger] updates(StateKind::Jumping, j, m).0 == StateKind::Running
}

/// The context a jump starts with, from the running context `c`.
pub open spec fn jumped(c: RedHatBoyContext) -> RedHatBoyContext {
    RedHatBoyContext { frame: 0, velocity: Point { x: c.velocity.x, y: JUMPING_SPEED }, ..c }
}

/// A jump that keeps getting frames lands on the floor.
#[verifier::rlimit(30)]
pub proof fn lemma_jump_lands(c: RedHatBoyContext)
    requires
        context_fits(StateKind::Jumping, c),
    ensures
        exists|n: nat| #[trigger] lands_at(c, n),
    decreases landing_distance(c),
{
    lemma_step_airborne(c, JUMPING_FRAME);
    let d = c.stepped(JUMPING_FRAME);
    let next = next_state(StateKind::Jumping, c, Event::Update);
    lemma_updates_shift(StateKind::Jumping, c, 1);
    assert(updates(next.0, next.1, 0) == next);
    assert(updates(StateKind::Jumping, c, 0).0 == StateKind::Jumping);
    if d.position.y >= FLOOR {
        assert forall|m: nat| m < 1 implies #[trigger] updates(StateKind::Jumping, c, m).0
            == StateKind::Jumping by {
        }
        assert(lands_at(c, 1));
    } else {
        assert(next == (StateKind::Jumping, d));
        if c.velocity.y < TERMINAL_VELOCITY_Y {
            assert(landing_distance(d) < landing_distance(c)) by (nonlinear_arith)
                requires
                    d.velocity.y == c.velocity.y + 1,
                    d.position.y == c.position.y + c.velocity.y,
                    c.velocity.y >= JUMPING_SPEED,
            ;
        }
        lemma_jump_lands(d);
        let n = choose|n: nat| #[trigger] lands_at(d, n);
        lemma_updates_shift(StateKind::Jumping, c, n + 1);
        assert forall|m: nat| m < n + 1 implies #[trigger] updates(StateKind::Jumping, c, m).0
            == StateKind::Jumping by {
            if m > 0 {
                lemma_updates_shift(StateKind::Jumping, c, m);
                assert(updates(StateKind::Jumping, d, (m - 1) as nat).0 == StateKind::Jumping);
            }
        }
        assert(lands_at(c, n + 1));
    }
}

/// A jump from a running state comes back to the floor: the runner, left to
/// its frames, turns from jumping to running once, on the floor, and then keeps
/// running.
pub proof fn lemma_jump_then_updates(c: RedHatBoyContext)
    requires
        context_fits(StateKind::Running, c),
    ensures
        next_state(StateKind::Running, c, Event::Jump) == (StateKind::Jumping, jumped(c)),
        exists|n: nat| #[trigger] lands_once_at(jumped(c), n),
{
    lemma_jump_rise();
    let j = jumped(c);
    assert(context_fits(StateKind::Jumping, j));
    lemma_jump_lands(j);
    let n = choose|n: nat| #[trigger] lands_at(j, n);
    lemma_updates_fit(StateKind::Jumping, j, n);
    let landed = updates(StateKind::Jumping, j, n).1;
    assert forall|m: nat| m >= n implies #[trigger] updates(StateKind::Jumping, j, m).0
        == StateKind::Running by {
        lemma_updates_split(StateKind::Jumping, j, n, (m - n) as nat);
        assert(n + (m - n) as nat == m);
        lemma_running_stays_running(landed, (m - n) as nat);
    }
    assert(lands_once_at(j, n));
}

/// Frames keep a context within its state's bounds.
proof fn lemma_updates_fit(kind: StateKind, c: RedHatBoyContext, n: nat)
    requires
        context_fits(kind, c),
    ensures
        context_fits(updates(kind, c, n).0, updates(kind, c, n).1),
    decreases n,
{
    if n > 0 {
        let (k, d) = next_state(kind, c, Event::Update);
        match kind {
            StateKind::Idle => lemma_step_grounded(c, IDLE_FRAME),
            StateKind::Running => lemma_step_grounded(c, RUNNING_FRAME),
            StateKind::Sliding => lemma_step_grounded(c, SLIDING_FRAME),
            StateKind::Jumping => lemma_step_airborne(c, JUMPING_FRAME),
            StateKind::Falling => lemma_step_settled(c, FALLING_FRAME),
            StateKind::KnockedOut => {},
        }
        lemma_updates_fit(k, d, (n - 1) as nat);
    }
}

proof fn lemma_updates_split(kind: StateKind, c: RedHatBoyContext, a: nat, b: nat)
    ensures
        updates(kind, c, a + b) == updates(updates(kind, c, a).0, updates(kind, c, a).1, b),
    decreases a,
{
    if a > 0 {
        let (k, d) = next_state(kind, c, Event::Update);
        lemma_updates_split(k, d, (a - 1) as nat, b);
        assert((a + b - 1) as nat == ((a - 1) as nat + b) as nat);
    }
}

/// A slide turns back into a run at the frame at which its animation frame
/// counter reaches the slide's last frame, and at no other frame.
pub proof fn lemma_slide_ends_at_last_frame(c: RedHatBoyContext)
    ensures
        (next_state(StateKind::Sliding, c, Event::Update).0 == StateKind::Running) == (
        advance_frame(c.frame, SLIDING_FRAME) == SLIDING_FRAME),
        (next_state(StateKind::Sliding, c, Event::Update).0 == StateKind::Running) == (c.frame + 1
            == SLIDING_FRAME),
{
}

/// A knocked-out runner takes no event: state and context stay as they are,
/// and no sound is asked for.
pub proof fn lemma_knocked_out_is_final(c: RedHatBoyContext, event: Event)
    ensures
        next_state(StateKind::KnockedOut, c, event) == (StateKind::KnockedOut, c),
        sound_cue_of(StateKind::KnockedOut, event) == None::<SoundCue>,
{
}

/// The last animation frame of the state `kind`.
pub open spec fn last_frame(kind: StateKind) -> u8 {
    match kind {
        StateKind::Idle => IDLE_FRAME,
        StateKind::Running => RUNNING_FRAME,
        StateKind::Jumping => JUMPING_FRAME,
        StateKind::Sliding => SLIDING_FRAME,
        StateKind::Falling => FALLING_FRAME,
        StateKind::KnockedOut => FALLING_FRAME,
    }
}

/// The context can be drawn in the state `kind`: its frame lies within the
/// state's animation, and the runner stands at its fixed horizontal place.
pub open spec fn drawable(kind: StateKind, c: RedHatBoyContext) -> bool {
    c.frame <= last_frame(kind) && c.position.x == STARTING_POINT
}

/// Every event keeps a runner that is not idle drawable. (An idle runner that
/// lands keeps its idle frame, which may lie past the running animation.)
pub proof fn lemma_events_keep_drawable(kind: StateKind, c: RedHatBoyContext, event: Event)
    requires
        drawable(kind, c),
        !(kind == StateKind::Idle && event is Land),
    ensures
        drawable(next_state(kind, c, event).0, next_state(kind, c, event).1),
        kind != StateKind::Idle ==> next_state(kind, c, event).0 != StateKind::Idle,
{
}

/// The last animation frame of the state `kind`.
pub fn last_frame_of(kind: StateKind) -> (r: u8)
    ensures
        r == last_frame(kind),
{
    match kind {
        StateKind::Idle => IDLE_FRAME,
        StateKind::Running => RUNNING_FRAME,
        StateKind::Jumping => JUMPING_FRAME,
        StateKind::Sliding => SLIDING_FRAME,
        StateKind::Falling => FALLING_FRAME,
        StateKind::KnockedOut => FALLING_FRAME,
    }
}

/// The name of the animation played in the state `kind`.
pub fn animation_name(kind: StateKind) -> (r: &'static str)
    ensures
        r@ == kind_frame_name(kind),
{
    proof {
        reveal_strlit("Idle");
        reveal_strlit("Run");
        reveal_strlit("Jump");
        reveal_strlit("Slide");
        reveal_strlit("Dead");
    }
    match kind {
        StateKind::Idle => "Idle",
        StateKind::Running => "Run",
        StateKind::Jumping => "Jump",
        StateKind::Sliding => "Slide",
        StateKind::Falling => "Dead",
        StateKind::KnockedOut => "Dead",
    }
}

/// Vertical velocity of a jump launched from the floor, after `k` frames.
pub open spec fn floor_jump_v(k: nat) -> int {
    if JUMPING_SPEED + k > TERMINAL_VELOCITY_Y {
        TERMINAL_VELOCITY_Y as int
    } else {
        JUMPING_SPEED + k
    }
}

/// Height of a jump launched from the floor, after `k` frames in the air.
pub open spec fn floor_jump_y(k: nat) -> int
    decreases k,
{
    if k == 0 {
        FLOOR as int
    } else {
        floor_jump_y((k - 1) as nat) + floor_jump_v((k - 1) as nat)
    }
}

proof fn lemma_floor_jump_y(k: nat)
    requires
        k <= 51,
    ensures
        k <= 45 ==> 2 * floor_jump_y(k) == 2 * FLOOR - 51 * k + k * k,
        k >= 45 ==> floor_jump_y(k) == 344 + 20 * (k - 45),
        1 <= k ==> floor_jump_y(k) < FLOOR,
    decreases k,
{
    if k == 0 {
        assert(2 * floor_jump_y(k) == 2 * FLOOR - 51 * k + k * k) by (nonlinear_arith)
            requires
                k == 0,
                floor_jump_y(k) == FLOOR,
        ;
    } else {
        let m = (k - 1) as nat;
        lemma_floor_jump_y(m);
        if k <= 45 {
            assert(floor_jump_v(m) == JUMPING_SPEED + m);
            assert(2 * floor_jump_y(k) == 2 * FLOOR - 51 * k + k * k) by (nonlinear_arith)
                requires
                    2 * floor_jump_y(m) == 2 * FLOOR - 51 * m + m * m,
                    floor_jump_y(k) == floor_jump_y(m) + JUMPING_SPEED + m,
                    m == k - 1,
            ;
            assert(floor_jump_y(k) < FLOOR) by (nonlinear_arith)
                requires
                    2 * floor_jump_y(k) == 2 * FLOOR - 51 * k + k * k,
                    1 <= k <= 45,
            ;
            if k == 45 {
                assert(2 * floor_jump_y(k) == 688) by (nonlinear_arith)
                    requires
                        2 * floor_jump_y(k) == 2 * FLOOR - 51 * k + k * k,
                        k == 45,
                ;
            }
        } else {
            assert(floor_jump_v(m) == TERMINAL_VELOCITY_Y);
        }
    }
}

/// A jump from the running runner on the floor lands after exactly 52 frames,
/// the runner staying above the floor in between.
pub proof fn lemma_floor_jump_lands_after_52(c: RedHatBoyContext)
    requires
        context_fits(StateKind::Running, c),
        c.position.y == FLOOR,
    ensures
        forall|k: nat|
            1 <= k <= 51 ==> #[trigger] updates(StateKind::Jumping, jumped(c), k).0
                == StateKind::Jumping && updates(StateKind::Jumping, jumped(c), k).1.position.y
                < FLOOR,
        updates(StateKind::Jumping, jumped(c), 52).0 == StateKind::Running,
        updates(StateKind::Jumping, jumped(c), 52).1.position.y == FLOOR,
        updates(StateKind::Jumping, jumped(c), 52).1.velocity.y == 0,
{
    let j = jumped(c);
    assert forall|k: nat| k <= 51 implies #[trigger] updates(StateKind::Jumping, j, k).0
        == StateKind::Jumping && updates(StateKind::Jumping, j, k).1.position.y == floor_jump_y(k)
        && updates(StateKind::Jumping, j, k).1.velocity.y == floor_jump_v(k) by {
        lemma_floor_jump_in_air(c, k);
    }
    assert forall|k: nat|
        1 <= k <= 51 implies #[trigger] updates(StateKind::Jumping, j, k).0 == StateKind::Jumping
        && updates(StateKind::Jumping, j, k).1.position.y < FLOOR by {
        lemma_floor_jump_in_air(c, k);
        lemma_floor_jump_y(k);
    }
    lemma_floor_jump_in_air(c, 51);
    lemma_floor_jump_y(51);
    lemma_updates_split(StateKind::Jumping, j, 51, 1);
    let (k51, c51) = updates(StateKind::Jumping, j, 51);
    lemma_updates_shift(k51, c51, 1);
}

proof fn lemma_floor_jump_in_air(c: RedHatBoyContext, k: nat)
    requires
        context_fits(StateKind::Running, c),
        c.position.y == FLOOR,
        k <= 51,
    ensures
        updates(StateKind::Jumping, jumped(c), k).0 == StateKind::Jumping,
        updates(StateKind::Jumping, jumped(c), k).1.position.y == floor_jump_y(k),
        updates(StateKind::Jumping, jumped(c), k).1.velocity.y == floor_jump_v(k),
    decreases k,
{
    let j = jumped(c);
    if k > 0 {
        let m = (k - 1) as nat;
        lemma_floor_jump_in_air(c, m);
        lemma_floor_jump_y(k);
        lemma_floor_jump_y(m);
        lemma_updates_split(StateKind::Jumping, j, m, 1);
        let (km, cm) = updates(StateKind::Jumping, j, m);
        lemma_updates_shift(km, cm, 1);
        assert(updates(StateKind::Jumping, j, (m + 1) as nat) == updates(km, cm, 1));
    }
}

} // verus!
