use walk_the_dog::character::{Event, StateKind, FLOOR, RUNNING_SPEED, STARTING_POINT};
use walk_the_dog::engine::{Cell, Image, ImageSize, KeyState, Point, Rect, Sheet, SheetRect, SpriteSheet};
use walk_the_dog::game::{
    GameAssets, GameError, Phase, Scene, UiAction, WalkTheDog, WalkTheDogStateMachine,
    OBSTACLE_BUFFER, TIMELINE_MINIMUM,
};
use walk_the_dog::obstacle::{rightmost, AnyObstacle, Barrier, Obstacle, Platform};
use walk_the_dog::red_hat_boy::RedHatBoy;
use walk_the_dog::segment::{
    platform_and_platform, platform_and_platform_and2, stone_and_platform, stone_and_platform2,
    stone_and_platform3, stone_and_platform4,
};

const STONE: ImageSize = ImageSize { width: 90, height: 54 };
const BACKGROUND: ImageSize = ImageSize { width: 1200, height: 600 };

fn tile_cell(x: i16) -> Cell {
    Cell {
        frame: SheetRect { x, y: 0, w: 128, h: 93 },
        sprite_source_size: SheetRect { x: 0, y: 0, w: 128, h: 93 },
    }
}

fn tiles() -> SpriteSheet {
    let mut sheet = Sheet::new();
    sheet.insert(String::from("13.png"), tile_cell(0));
    sheet.insert(String::from("14.png"), tile_cell(128));
    sheet.insert(String::from("15.png"), tile_cell(256));
    SpriteSheet::new(sheet)
}

fn runner_sheet() -> Sheet {
    let mut sheet = Sheet::new();
    for (name, pictures) in [("Idle", 10), ("Run", 8), ("Jump", 12), ("Slide", 5), ("Dead", 10)] {
        for i in 1..=pictures {
            sheet.insert(
                format!("{} ({}).png", name, i),
                Cell {
                    frame: SheetRect { x: 0, y: 0, w: 100, h: 121 },
                    sprite_source_size: SheetRect { x: 0, y: 0, w: 100, h: 121 },
                },
            );
        }
    }
    sheet
}

fn barrier_at(x: i16, width: i16) -> AnyObstacle {
    AnyObstacle::Barrier(Barrier::from(Image::new(ImageSize { width, height: 10 }, Point { x, y: 0 })))
}

#[test]
fn obstacles_at_or_past_the_left_edge_are_dropped() {
    let mut scene = Scene::new(runner_sheet(), BACKGROUND, STONE, tiles());
    scene.obstacles = vec![barrier_at(-11, 10), barrier_at(-10, 10), barrier_at(-9, 10)];
    assert_eq!(scene.obstacles[0].right(), -1);
    assert_eq!(scene.obstacles[1].right(), 0);
    scene.drop_passed_obstacles();
    assert_eq!(scene.obstacles.len(), 1);
    assert_eq!(scene.obstacles[0].right(), 1);
}

#[test]
fn a_single_obstacle_left_of_the_canvas_is_dropped() {
    let mut scene = Scene::new(runner_sheet(), BACKGROUND, STONE, tiles());
    scene.obstacles = vec![barrier_at(-11, 10)];
    scene.drop_passed_obstacles();
    assert!(scene.obstacles.is_empty());
    scene.obstacles = vec![barrier_at(-10, 10)];
    scene.drop_passed_obstacles();
    assert!(scene.obstacles.is_empty());
}

#[test]
fn platform_places_boxes_and_skips_missing_cells() {
    let sheet = tiles();
    let boxes = [Rect::new_from_x_y(0, 0, 60, 54), Rect::new_from_x_y(60, 0, 264, 93)];
    let platform = Platform::new(
        &sheet,
        &boxes,
        &["13.png", "missing.png", "15.png"],
        &[Point { x: 0, y: 0 }, Point { x: 128, y: 0 }, Point { x: 256, y: 0 }],
        Point { x: 200, y: 400 },
    );
    assert_eq!(platform.bounding_boxes, vec![
        Rect::new_from_x_y(200, 400, 60, 54),
        Rect::new_from_x_y(260, 400, 264, 93),
    ]);
    assert_eq!(platform.sprites.len(), 2);
    assert_eq!(platform.sprites[0].cell, tile_cell(0));
    assert_eq!(platform.sprites[0].offset, Point { x: 0, y: 0 });
    assert_eq!(platform.sprites[1].cell, tile_cell(256));
    assert_eq!(platform.sprites[1].offset, Point { x: 128, y: 0 });
    assert_eq!(platform.right(), 524);
}

#[test]
fn moving_a_platform_moves_its_boxes() {
    let mut platform = Platform::new(&tiles(), &[Rect::new_from_x_y(0, 0, 60, 54)], &[], &[], Point { x: 10, y: 300 });
    platform.move_horisontally(-3);
    assert_eq!(platform.position, Point { x: 7, y: 300 });
    assert_eq!(platform.bounding_boxes[0], Rect::new_from_x_y(7, 300, 60, 54));
    assert_eq!(platform.right(), 67);
}

#[test]
fn empty_platform_reaches_nowhere() {
    let platform = Platform::new(&tiles(), &[], &[], &[], Point { x: 10, y: 300 });
    assert_eq!(platform.right(), 0);
}

fn falling_runner(sheet: Sheet) -> RedHatBoy {
    let mut boy = RedHatBoy::new(sheet);
    boy.run_right();
    boy.jump();
    for _ in 0..30 {
        boy.update();
    }
    assert_eq!(boy.state_machine.state_kind(), StateKind::Jumping);
    assert!(boy.velocity_y() > 0);
    boy
}

#[test]
fn falling_runner_lands_on_the_first_touched_box() {
    let mut boy = falling_runner(runner_sheet());
    let b = boy.bounding_box().unwrap();
    let platform = Platform::new(
        &tiles(),
        &[Rect::new_from_x_y(0, 0, 60, 54), Rect::new_from_x_y(0, 10, 60, 54)],
        &[],
        &[],
        Point { x: b.x(), y: b.y() + 5 },
    );
    platform.check_intersection(&mut boy);
    assert_eq!(boy.state_machine.state_kind(), StateKind::Running);
    assert_eq!(boy.pos_y(), b.y() + 5 - 121);
    assert_eq!(boy.velocity_y(), 0);
}

#[test]
fn runner_below_a_platform_does_not_land() {
    let mut boy = falling_runner(runner_sheet());
    let b = boy.bounding_box().unwrap();
    let platform = Platform::new(&tiles(), &[Rect::new_from_x_y(0, 0, 60, 54)], &[], &[], Point { x: b.x(), y: boy.pos_y() });
    let before = *boy.state_machine.context();
    platform.check_intersection(&mut boy);
    assert_eq!(boy.state_machine.state_kind(), StateKind::Jumping);
    assert_eq!(*boy.state_machine.context(), before);
}

#[test]
fn touching_a_stone_knocks_the_runner_out() {
    let mut boy = RedHatBoy::new(runner_sheet());
    boy.run_right();
    let b = boy.bounding_box().unwrap();
    let far = barrier_at(b.right() + 5, 10);
    far.check_intersection(&mut boy);
    assert_eq!(boy.state_machine.state_kind(), StateKind::Running);
    let near = AnyObstacle::Barrier(Barrier::from(Image::new(STONE, Point { x: b.x(), y: b.y() })));
    near.check_intersection(&mut boy);
    assert_eq!(boy.state_machine.state_kind(), StateKind::Falling);
    assert_eq!(boy.walking_speed(), 0);
}

fn left_edge(o: &AnyObstacle) -> i16 {
    match o {
        AnyObstacle::Platform(p) => p.position.x,
        AnyObstacle::Barrier(b) => b.collider.bounding_box().x(),
    }
}

#[test]
fn catalog_layouts() {
    let sheet = tiles();
    let s = stone_and_platform(STONE, &sheet, 600);
    assert_eq!(s.len(), 2);
    assert_eq!(left_edge(&s[0]), 700);
    assert_eq!(left_edge(&s[1]), 750);
    assert_eq!(rightmost(&s), 750 + 384);
    let s = stone_and_platform2(STONE, &sheet, 0);
    assert_eq!((left_edge(&s[0]), left_edge(&s[1])), (150, 150));
    let s = stone_and_platform3(STONE, &sheet, 0);
    assert_eq!((left_edge(&s[0]), left_edge(&s[1])), (200, 150));
    let s = stone_and_platform4(STONE, &sheet, 0);
    assert_eq!((left_edge(&s[0]), left_edge(&s[1])), (300, 150));
    let s = platform_and_platform(STONE, &sheet, 0);
    assert_eq!(s.len(), 4);
    assert_eq!(left_edge(&s[1]), 200);
    assert_eq!(left_edge(&s[3]), 300);
    let s = platform_and_platform_and2(STONE, &sheet, 10);
    assert_eq!(s.len(), 4);
    assert_eq!(left_edge(&s[1]), 510);
    assert_eq!(rightmost(&s), 410 + 384);
    match &s[2] {
        AnyObstacle::Platform(p) => {
            assert_eq!(p.bounding_boxes[1], Rect::new_from_x_y(220, 300, 264, 93));
            assert_eq!(p.sprites.len(), 3);
        },
        AnyObstacle::Barrier(_) => panic!("expected a platform"),
    }
}

#[test]
fn generated_segment_moves_the_timeline_past_it() {
    let mut scene = Scene::new(runner_sheet(), BACKGROUND, STONE, tiles());
    scene.obstacles = vec![];
    scene.timeline = 100;
    scene.generate_segment(5);
    assert_eq!(scene.obstacles.len(), 4);
    assert_eq!(scene.timeline, rightmost(&scene.obstacles) + OBSTACLE_BUFFER);
    assert_eq!(scene.timeline, 100 + 400 + 384 + 20);
    for o in scene.obstacles.iter() {
        assert!(left_edge(o) >= 100);
    }
    scene.timeline = 50;
    scene.generate_segment(9);
    assert_eq!(scene.obstacles.len(), 4);
    assert_eq!(scene.timeline, OBSTACLE_BUFFER);
}

#[test]
fn new_scene_starts_with_the_first_layout() {
    let scene = Scene::new(runner_sheet(), BACKGROUND, STONE, tiles());
    assert_eq!(scene.obstacles.len(), 2);
    assert_eq!(scene.timeline, 600 + 150 + 384 + 20);
    assert_eq!(scene.backgrounds[0].position, Point { x: 0, y: 0 });
    assert_eq!(scene.backgrounds[1].position, Point { x: 1200, y: 0 });
}

#[test]
fn walking_scrolls_and_wraps_the_backgrounds() {
    let mut scene = Scene::new(runner_sheet(), BACKGROUND, STONE, tiles());
    scene.rhb.run_right();
    scene.obstacles = vec![];
    scene.timeline = 20000;
    for _ in 0..400 {
        scene.walk(false, false);
    }
    assert_eq!(scene.backgrounds[0].position.x, -1200);
    assert_eq!(scene.backgrounds[1].position.x, 0);
    for _ in 0..100 {
        scene.walk(false, false);
    }
    assert_eq!(scene.backgrounds[0].position.x, 0 - 3 * 500 + 1200 * 2);
    assert_eq!(scene.backgrounds[1].position.x, 1200 - 3 * 500);
    assert_eq!(scene.horizontal_velocity(), -RUNNING_SPEED);
}

#[test]
fn walking_below_the_minimum_draws_a_new_segment() {
    let mut scene = Scene::new(runner_sheet(), BACKGROUND, STONE, tiles());
    scene.rhb.run_right();
    scene.timeline = TIMELINE_MINIMUM - 1;
    let before = scene.obstacles.len();
    scene.walk(false, false);
    assert!(scene.obstacles.len() > before);
    let batch_right = scene.obstacles[before..].iter().map(|o| o.right()).max().unwrap();
    assert_eq!(scene.timeline, batch_right + OBSTACLE_BUFFER);
    assert!(scene.timeline > TIMELINE_MINIMUM);
    scene.timeline = TIMELINE_MINIMUM;
    let count = scene.obstacles.len();
    scene.walk(false, false);
    assert_eq!(scene.timeline, TIMELINE_MINIMUM - RUNNING_SPEED);
    assert_eq!(scene.obstacles.len(), count);
}

fn assets() -> GameAssets {
    GameAssets { rhb_sheet: runner_sheet(), background: BACKGROUND, stone: STONE, tiles: tiles() }
}

fn phase(game: &WalkTheDog) -> Phase {
    match game.machine.as_ref().unwrap() {
        WalkTheDogStateMachine::Ready(_) => Phase::Ready,
        WalkTheDogStateMachine::Walking(_) => Phase::Walking,
        WalkTheDogStateMachine::GameOver(_) => Phase::GameOver,
    }
}

fn scene(game: &WalkTheDog) -> &Scene {
    match game.machine.as_ref().unwrap() {
        WalkTheDogStateMachine::Ready(s) => &s.scene,
        WalkTheDogStateMachine::Walking(s) => &s.scene,
        WalkTheDogStateMachine::GameOver(s) => &s.scene,
    }
}

#[test]
fn initialization_errors() {
    let game = WalkTheDog::new();
    let mut wide = assets();
    wide.stone = ImageSize { width: 32000, height: 10 };
    assert_eq!(game.intialize(wide).err(), Some(GameError::UnsupportedImageSize));
    let mut narrow = assets();
    narrow.background = ImageSize { width: 2, height: 600 };
    assert_eq!(game.intialize(narrow).err(), Some(GameError::UnsupportedImageSize));
    let mut wide_background = assets();
    wide_background.background = ImageSize { width: 20000, height: 600 };
    assert_eq!(game.intialize(wide_background).err(), Some(GameError::UnsupportedImageSize));
    let mut incomplete = assets();
    incomplete.rhb_sheet = Sheet::new();
    assert_eq!(game.intialize(incomplete).err(), Some(GameError::MissingAnimationCell));
    let mut large_stone = assets();
    large_stone.stone = ImageSize { width: 9000, height: 10 };
    assert!(game.intialize(large_stone).is_ok());
    let started = game.intialize(assets()).ok().unwrap();
    assert_eq!(phase(&started), Phase::Ready);
    assert_eq!(started.intialize(assets()).err(), Some(GameError::AlreadyInitialized));
}

#[test]
fn end_to_end_session() {
    let mut game = WalkTheDog::new().intialize(assets()).ok().unwrap();
    let mut keys = KeyState::new();
    assert_eq!(game.update(&keys, false), None);
    assert_eq!(phase(&game), Phase::Ready);

    keys.set_pressed("ArrowRight");
    assert_eq!(game.update(&keys, false), None);
    assert_eq!(phase(&game), Phase::Walking);
    assert_eq!(scene(&game).rhb.walking_speed(), RUNNING_SPEED);
    keys.set_released("ArrowRight");

    let mut ui = None;
    for _ in 0..1000 {
        ui = game.update(&keys, false);
        if phase(&game) == Phase::GameOver {
            break;
        }
    }
    assert_eq!(phase(&game), Phase::GameOver);
    assert_eq!(ui, Some(UiAction::ShowNewGameButton));
    assert_eq!(scene(&game).rhb.state_machine.state_kind(), StateKind::KnockedOut);

    assert_eq!(game.update(&keys, false), None);
    assert_eq!(phase(&game), Phase::GameOver);

    assert_eq!(game.update(&keys, true), Some(UiAction::HideNewGameButton));
    assert_eq!(phase(&game), Phase::Ready);
    let rhb = &scene(&game).rhb;
    assert_eq!(rhb.state_machine.state_kind(), StateKind::Idle);
    assert_eq!(rhb.state_machine.context().position, Point { x: STARTING_POINT, y: FLOOR });
    assert_eq!(rhb.state_machine.context().velocity, Point { x: 0, y: 0 });
}

#[test]
fn enter_also_starts_a_new_game() {
    let mut game = WalkTheDog::new().intialize(assets()).ok().unwrap();
    let mut keys = KeyState::new();
    keys.set_pressed("ArrowRight");
    game.update(&keys, false);
    keys.set_released("ArrowRight");
    for _ in 0..1000 {
        game.update(&keys, false);
        if phase(&game) == Phase::GameOver {
            break;
        }
    }
    assert_eq!(phase(&game), Phase::GameOver);
    keys.set_pressed("Enter");
    assert_eq!(game.update(&keys, false), Some(UiAction::HideNewGameButton));
    assert_eq!(phase(&game), Phase::Ready);
}

#[test]
fn events_reach_the_runner_through_the_machine() {
    let m = walk_the_dog::character::RedHatBoyStateMachine::new();
    assert_eq!(m.transition(Event::Land(600)).state_kind(), StateKind::Running);
}

#[test]
fn platform_boxes_may_lie_anywhere_around_the_position() {
    let platform = Platform::new(
        &tiles(),
        &[Rect::new_from_x_y(-50, -20, 30, 10), Rect::new_from_x_y(100, 700, 20, 10)],
        &[],
        &[],
        Point { x: 10, y: 0 },
    );
    assert_eq!(platform.bounding_boxes, vec![
        Rect::new_from_x_y(-40, -20, 30, 10),
        Rect::new_from_x_y(110, 700, 20, 10),
    ]);
    assert_eq!(platform.right(), 130);
}

#[test]
fn runner_sheet_completeness() {
    assert!(walk_the_dog::red_hat_boy::sheet_is_complete(&runner_sheet()));
    let mut sheet = runner_sheet();
    sheet.insert(String::from("Slide (5).png"), Cell {
        frame: SheetRect { x: 0, y: 0, w: 100, h: 121 },
        sprite_source_size: SheetRect { x: 0, y: -1, w: 100, h: 121 },
    });
    assert!(!walk_the_dog::red_hat_boy::sheet_is_complete(&sheet));
    assert!(!walk_the_dog::red_hat_boy::sheet_is_complete(&Sheet::new()));
}
