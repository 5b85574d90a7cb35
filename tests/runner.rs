use walk_the_dog::character::{
    Event, RedHatBoyContext, RedHatBoyState, RedHatBoyStateMachine, SoundCue, StateKind, FLOOR,
    GRAVITY, JUMPING_SPEED, RUNNING_SPEED, SLIDING_FRAME, STARTING_POINT, TERMINAL_VELOCITY_Y,
};
use walk_the_dog::engine::{Cell, Point, Rect, Sheet, SheetRect};
use walk_the_dog::red_hat_boy::{frame_sprite_name, RedHatBoy};

fn at_rest_on_floor() -> RedHatBoyContext {
    RedHatBoyContext {
        frame: 0,
        position: Point { x: STARTING_POINT, y: FLOOR },
        velocity: Point { x: 0, y: 0 },
    }
}

#[test]
fn one_update_from_rest_gives_gravity() {
    let next = at_rest_on_floor().update(29);
    assert_eq!(next.velocity.y, GRAVITY);
    assert!(next.position.y <= FLOOR);
    assert_eq!(next.position.y, FLOOR);
    assert_eq!(next.frame, 1);
}

#[test]
fn frame_wraps_after_frame_count() {
    let mut c = at_rest_on_floor();
    c.frame = 29;
    assert_eq!(c.update(29).frame, 0);
    c.frame = 28;
    assert_eq!(c.update(29).frame, 29);
}

#[test]
fn falling_speed_stops_at_terminal_velocity() {
    let c = RedHatBoyContext {
        frame: 0,
        position: Point { x: 0, y: 0 },
        velocity: Point { x: 0, y: TERMINAL_VELOCITY_Y },
    };
    let next = c.update(10);
    assert_eq!(next.position.y, TERMINAL_VELOCITY_Y);
    assert_eq!(next.velocity.y, TERMINAL_VELOCITY_Y);
}

#[test]
fn new_state_is_idle_at_the_start() {
    let idle = RedHatBoyState::new();
    assert_eq!(*idle.context(), at_rest_on_floor());
    assert_eq!(idle.frame_name(), "Idle");
}

fn running_machine() -> RedHatBoyStateMachine {
    RedHatBoyStateMachine::new().transition(Event::Run)
}

#[test]
fn run_gives_running_speed() {
    let m = running_machine();
    assert_eq!(m.state_kind(), StateKind::Running);
    assert_eq!(m.context().velocity.x, RUNNING_SPEED);
    assert_eq!(m.context().frame, 0);
    assert_eq!(m.frame_name(), "Run");
}

#[test]
fn jump_lands_on_the_floor_once() {
    let mut m = running_machine().transition(Event::Jump);
    assert_eq!(m.state_kind(), StateKind::Jumping);
    assert_eq!(m.context().velocity.y, JUMPING_SPEED);
    let mut landings = 0;
    let mut frames_in_air = 0;
    for _ in 0..200 {
        let before = m.state_kind();
        m = m.transition(Event::Update);
        if before == StateKind::Jumping && m.state_kind() == StateKind::Running {
            landings += 1;
            assert_eq!(m.context().position.y, FLOOR);
            assert_eq!(m.context().velocity.y, 0);
        }
        if m.state_kind() == StateKind::Jumping {
            frames_in_air += 1;
            assert!(m.context().position.y < FLOOR);
        }
    }
    assert_eq!(landings, 1);
    assert_eq!(frames_in_air, 51);
    assert_eq!(m.state_kind(), StateKind::Running);
}

#[test]
fn slide_ends_exactly_at_its_last_frame() {
    let mut m = running_machine().transition(Event::Slide);
    assert_eq!(m.state_kind(), StateKind::Sliding);
    for _ in 0..(SLIDING_FRAME - 1) {
        m = m.transition(Event::Update);
        assert_eq!(m.state_kind(), StateKind::Sliding);
    }
    assert_eq!(m.context().frame, SLIDING_FRAME - 1);
    m = m.transition(Event::Update);
    assert_eq!(m.state_kind(), StateKind::Running);
    assert_eq!(m.context().frame, 0);
}

#[test]
fn unlisted_events_are_ignored() {
    let idle = RedHatBoyStateMachine::new();
    let after_jump = idle.transition(Event::Jump);
    assert_eq!(after_jump.state_kind(), StateKind::Idle);
    assert_eq!(*after_jump.context(), *idle.context());
    let after_knock = idle.transition(Event::KnockOut);
    assert_eq!(after_knock.state_kind(), StateKind::Idle);
    let running = running_machine();
    let again = running.transition(Event::Run);
    assert_eq!(again.state_kind(), StateKind::Running);
    assert_eq!(again.context().velocity.x, RUNNING_SPEED);
}

#[test]
fn landing_snaps_to_the_ground() {
    let m = running_machine().transition(Event::Jump).transition(Event::Land(420));
    assert_eq!(m.state_kind(), StateKind::Running);
    assert_eq!(m.context().position.y, 420 - 121);
    assert_eq!(m.context().velocity.y, 0);
    let sliding = running_machine().transition(Event::Slide).transition(Event::Land(500));
    assert_eq!(sliding.state_kind(), StateKind::Sliding);
    assert_eq!(sliding.context().position.y, 379);
}

fn knocked_out_machine() -> RedHatBoyStateMachine {
    let mut m = running_machine().transition(Event::KnockOut);
    assert_eq!(m.state_kind(), StateKind::Falling);
    assert_eq!(m.context().velocity, Point { x: 0, y: 0 });
    for _ in 0..28 {
        m = m.transition(Event::Update);
        assert_eq!(m.state_kind(), StateKind::Falling);
    }
    m = m.transition(Event::Update);
    assert_eq!(m.state_kind(), StateKind::KnockedOut);
    m
}

#[test]
fn knocked_out_accepts_nothing() {
    let m = knocked_out_machine();
    let context = *m.context();
    for event in [Event::Jump, Event::Slide, Event::Run, Event::Land(400), Event::Update, Event::KnockOut] {
        let next = m.transition(event);
        assert_eq!(next.state_kind(), StateKind::KnockedOut);
        assert_eq!(*next.context(), context);
        assert_eq!(m.sound_cue(event), None);
    }
    assert_eq!(m.frame_name(), "Dead");
}

#[test]
fn sound_cues_follow_transitions() {
    let mut boy = RedHatBoy::new(Sheet::new());
    boy.jump();
    assert!(boy.sound_cues.is_empty());
    boy.run_right();
    boy.jump();
    boy.knock_out();
    boy.knock_out();
    assert_eq!(
        boy.take_sound_cues(),
        vec![SoundCue::StartBackgroundMusic, SoundCue::PlayJumpSound, SoundCue::StopBackgroundMusic]
    );
    assert!(boy.sound_cues.is_empty());
    assert_eq!(boy.walking_speed(), 0);
}

#[test]
fn sprite_names_count_pictures_from_one() {
    assert_eq!(frame_sprite_name("Run", 0), "Run (1).png");
    assert_eq!(frame_sprite_name("Run", 7), "Run (3).png");
    assert_eq!(frame_sprite_name("Jump", 35), "Jump (12).png");
    assert_eq!(frame_sprite_name("Idle", 29), "Idle (10).png");
}

fn runner_cell() -> Cell {
    Cell {
        frame: SheetRect { x: 0, y: 0, w: 100, h: 130 },
        sprite_source_size: SheetRect { x: 5, y: -10, w: 100, h: 130 },
    }
}

#[test]
fn bounding_box_comes_from_the_current_cell() {
    let mut sheet = Sheet::new();
    sheet.insert(String::from("Idle (1).png"), runner_cell());
    let boy = RedHatBoy::new(sheet);
    assert_eq!(boy.current_sprite(), Some(runner_cell()));
    assert_eq!(boy.destination_box(), Some(Rect::new_from_x_y(-15, 469, 100, 130)));
    assert_eq!(boy.bounding_box(), Some(Rect::new_from_x_y(3, 483, 72, 116)));
    assert_eq!(boy.pos_y(), FLOOR);
    assert_eq!(boy.velocity_y(), 0);
}

#[test]
fn missing_cell_gives_no_box() {
    let boy = RedHatBoy::new(Sheet::new());
    assert_eq!(boy.current_sprite(), None);
    assert_eq!(boy.destination_box(), None);
    assert_eq!(boy.bounding_box(), None);
}

#[test]
fn reset_returns_to_idle() {
    let mut boy = RedHatBoy::new(Sheet::new());
    boy.run_right();
    boy.update();
    let boy = RedHatBoy::reset(boy);
    assert_eq!(boy.state_machine.state_kind(), StateKind::Idle);
    assert_eq!(*boy.state_machine.context(), at_rest_on_floor());
}
