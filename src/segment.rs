use vstd::prelude::*;

use crate::character::fits_i16;
use crate::engine::{Image, ImageSize, Point, Rect, SpriteSheet};
use crate::obstacle::{
    found_sprites, max_right, min_left, placed_box, AnyObstacle, Barrier, Obstacle, Platform,
    SCROLL_SPAN,
};

verus! {

/// Height at which a stone stands on the ground.
pub const STONE_ON_GROUND: i16 = 546;

/// Width of a floating platform.
pub const FLOATING_PLATFORM_WIDTH: i16 = 384;

/// How far right of its offset a segment's platforms reach.
pub const SEGMENT_SPAN: i16 = 784;

/// How far right of its offset a segment's stones start, at most.
pub const STONE_SPAN: i16 = 500;

/// How far right of its offset a segment laid out with `stone` reaches: as far
/// as its platforms, or as its farthest stone.
pub open spec fn segment_reach(stone: ImageSize) -> int {
    if STONE_SPAN + stone.width > SEGMENT_SPAN {
        STONE_SPAN + stone.width
    } else {
        SEGMENT_SPAN as int
    }
}

/// A stone placed `stone_x` right of `offset_x` stays within `i16`.
pub open spec fn stone_fits(stone: ImageSize, offset_x: int, stone_x: int) -> bool {
    fits_i16(offset_x + stone_x) && fits_i16(offset_x + stone_x + stone.width)
}

/// A floating platform placed `platform_x` right of `offset_x` stays within `i16`.
pub open spec fn platform_fits(offset_x: int, platform_x: int) -> bool {
    offset_x + platform_x + FLOATING_PLATFORM_WIDTH <= i16::MAX
}

/// Every obstacle of `obstacles` scrolls within `i16`.
pub open spec fn all_scroll(obstacles: Seq<AnyObstacle>) -> bool {
    forall|i: int| 0 <= i < obstacles.len() ==> (#[trigger] obstacles[i]).scroll_ok()
}

/// A stone narrow enough to scroll.
pub open spec fn stone_scrolls(stone: ImageSize) -> bool {
    0 <= stone.width <= SCROLL_SPAN
}

/// The boxes of a floating platform, relative to its position: two low ends and
/// a deeper middle.
pub open spec fn floating_platform_boxes() -> Seq<Rect> {
    seq![
        Rect::new_spec(0, 0, 60, 54),
        Rect::new_spec(60, 0, 264, 93),
        Rect::new_spec(324, 0, 60, 54),
    ]
}

/// The sheet names of a floating platform's cells.
pub open spec fn floating_platform_sprite_names() -> Seq<Seq<char>> {
    seq![
        seq!['1', '3', '.', 'p', 'n', 'g'],
        seq!['1', '4', '.', 'p', 'n', 'g'],
        seq!['1', '5', '.', 'p', 'n', 'g'],
    ]
}

/// Where a floating platform's cells are drawn, relative to its position.
pub open spec fn floating_platform_sprite_offsets() -> Seq<Point> {
    seq![Point { x: 0, y: 0 }, Point { x: 128, y: 0 }, Point { x: 256, y: 0 }]
}

/// `o` is a stone with its corner at `(x, y)`.
pub open spec fn stone_at(o: AnyObstacle, stone: ImageSize, x: int, y: int) -> bool {
    &&& o matches AnyObstacle::Barrier(b)
    &&& o->Barrier_0.collider.image == Image { element: stone, position: Point { x: x as i16, y: y as i16 } }
    &&& o->Barrier_0.collider.bounding_box == Rect::new_spec(x as i16, y as i16, stone.width, stone.height)
}

/// `o` is a floating platform drawn from `sheet` with its position at `(x, y)`.
pub open spec fn floating_platform_at(o: AnyObstacle, sheet: SpriteSheet, x: int, y: int) -> bool {
    &&& o matches AnyObstacle::Platform(p)
    &&& o->Platform_0.position == Point { x: x as i16, y: y as i16 }
    &&& o->Platform_0.bounding_boxes@ == floating_platform_boxes().map_values(
        |b: Rect| placed_box(b, Point { x: x as i16, y: y as i16 }),
    )
    &&& o->Platform_0.sprites@ == found_sprites(
        sheet,
        floating_platform_sprite_names(),
        floating_platform_sprite_offsets(),
    )
}

/// Every obstacle of `obstacles` keeps its bounds, starts at or after
/// `offset_x`, and ends within `reach` of it.
pub open spec fn laid_out_from(obstacles: Seq<AnyObstacle>, offset_x: int, reach: int) -> bool {
    forall|i: int|
        0 <= i < obstacles.len() ==> {
            &&& (#[trigger] obstacles[i]).wf()
            &&& offset_x <= obstacles[i].left_edge()
            &&& obstacles[i].right_edge() <= offset_x + reach
        }
}

fn stone_obstacle(stone: ImageSize, x: i16, y: i16) -> (r: AnyObstacle)
    requires
        fits_i16(x + stone.width),
    ensures
        stone_at(r, stone, x as int, y as int),
        r.wf(),
        r.left_edge() == x,
        r.right_edge() == x + stone.width,
        stone_scrolls(stone) ==> r.scroll_ok(),
{
    let barrier: Barrier = Barrier::from(Image::new(stone, Point { x, y }));
    AnyObstacle::Barrier(barrier)
}

fn create_floating_platform(sprite_sheet: &SpriteSheet, position: Point) -> (r: Platform)
    requires
        position.x + FLOATING_PLATFORM_WIDTH <= i16::MAX,
    ensures
        floating_platform_at(AnyObstacle::Platform(r), *sprite_sheet, position.x as int, position.y as int),
        r.wf(),
{
    let middle_width: i16 = FLOATING_PLATFORM_WIDTH - 60 * 2;
    let far_end: i16 = FLOATING_PLATFORM_WIDTH - 60;
    let boxes = vec![
        Rect::new_from_x_y(0, 0, 60, 54),
        Rect::new_from_x_y(60, 0, middle_width, 93),
        Rect::new_from_x_y(far_end, 0, 60, 54),
    ];
    let names = vec!["13.png", "14.png", "15.png"];
    let offsets = vec![Point { x: 0, y: 0 }, Point { x: 128, y: 0 }, Point { x: 256, y: 0 }];
    proof {
        reveal_strlit("13.png");
        reveal_strlit("14.png");
        reveal_strlit("15.png");
        assert(boxes@ =~= floating_platform_boxes());
        assert(names@[0]@ =~= floating_platform_sprite_names()[0]);
        assert(names@[1]@ =~= floating_platform_sprite_names()[1]);
        assert(names@[2]@ =~= floating_platform_sprite_names()[2]);
        assert(names@.map_values(|n: &str| n@) =~= floating_platform_sprite_names());
        assert(offsets@ =~= floating_platform_sprite_offsets());
    }
    Platform::new(sprite_sheet, boxes.as_slice(), names.as_slice(), offsets.as_slice(), position)
}

fn platform_obstacle(sprite_sheet: &SpriteSheet, x: i16, y: i16) -> (r: AnyObstacle)
    requires
        x + FLOATING_PLATFORM_WIDTH <= i16::MAX,
    ensures
        floating_platform_at(r, *sprite_sheet, x as int, y as int),
        r.wf(),
        r.left_edge() == x,
        r.right_edge() == x + FLOATING_PLATFORM_WIDTH,
        r.scroll_ok(),
{
    let r = AnyObstacle::Platform(create_floating_platform(sprite_sheet, Point { x, y }));
    proof {
        reveal_with_fuel(max_right, 3);
        reveal_with_fuel(min_left, 3);
    }
    r
}

/// A stone on the ground, with a low platform just behind it.
pub fn stone_and_platform(stone: ImageSize, sprite_sheet: &SpriteSheet, offset_x: i16) -> (r: Vec<AnyObstacle>)
    requires
        stone_fits(stone, offset_x as int, 100),
        platform_fits(offset_x as int, 150),
    ensures
        r@.len() == 2,
        stone_at(r@[0], stone, offset_x + 100, STONE_ON_GROUND as int),
        floating_platform_at(r@[1], *sprite_sheet, offset_x + 150, 420),
        laid_out_from(r@, offset_x as int, segment_reach(stone)),
        stone_scrolls(stone) ==> all_scroll(r@),
{
    let stone_item = stone_obstacle(stone, offset_x + 100, STONE_ON_GROUND);
    let platform = platform_obstacle(sprite_sheet, offset_x + 150, 420);
    vec![stone_item, platform]
}

/// A stone on the ground under the near end of a low platform.
pub fn stone_and_platform2(stone: ImageSize, sprite_sheet: &SpriteSheet, offset_x: i16) -> (r: Vec<AnyObstacle>)
    requires
        stone_fits(stone, offset_x as int, 150),
        platform_fits(offset_x as int, 150),
    ensures
        r@.len() == 2,
        stone_at(r@[0], stone, offset_x + 150, STONE_ON_GROUND as int),
        floating_platform_at(r@[1], *sprite_sheet, offset_x + 150, 420),
        laid_out_from(r@, offset_x as int, segment_reach(stone)),
        stone_scrolls(stone) ==> all_scroll(r@),
{
    let stone_item = stone_obstacle(stone, offset_x + 150, STONE_ON_GROUND);
    let platform = platform_obstacle(sprite_sheet, offset_x + 150, 420);
    vec![stone_item, platform]
}

/// A stone on top of a platform, near its start.
pub fn stone_and_platform3(stone: ImageSize, sprite_sheet: &SpriteSheet, offset_x: i16) -> (r: Vec<AnyObstacle>)
    requires
        stone_fits(stone, offset_x as int, 200),
        platform_fits(offset_x as int, 150),
    ensures
        r@.len() == 2,
        stone_at(r@[0], stone, offset_x + 200, 420 - 93),
        floating_platform_at(r@[1], *sprite_sheet, offset_x + 150, 380),
        laid_out_from(r@, offset_x as int, segment_reach(stone)),
        stone_scrolls(stone) ==> all_scroll(r@),
{
    let stone_item = stone_obstacle(stone, offset_x + 200, 420 - 93);
    let platform = platform_obstacle(sprite_sheet, offset_x + 150, 380);
    vec![stone_item, platform]
}

/// A stone on top of a platform, further along it.
pub fn stone_and_platform4(stone: ImageSize, sprite_sheet: &SpriteSheet, offset_x: i16) -> (r: Vec<AnyObstacle>)
    requires
        stone_fits(stone, offset_x as int, 300),
        platform_fits(offset_x as int, 150),
    ensures
        r@.len() == 2,
        stone_at(r@[0], stone, offset_x + 300, 420 - 93),
        floating_platform_at(r@[1], *sprite_sheet, offset_x + 150, 380),
        laid_out_from(r@, offset_x as int, segment_reach(stone)),
        stone_scrolls(stone) ==> all_scroll(r@),
{
    let stone_item = stone_obstacle(stone, offset_x + 300, 420 - 93);
    let platform = platform_obstacle(sprite_sheet, offset_x + 150, 380);
    vec![stone_item, platform]
}

/// Two platforms one above the other, a stone on the ground and one up high.
pub fn platform_and_platform(stone: ImageSize, sprite_sheet: &SpriteSheet, offset_x: i16) -> (r: Vec<
    AnyObstacle,
>)
    requires
        stone_fits(stone, offset_x as int, 150),
        stone_fits(stone, offset_x as int, 200),
        platform_fits(offset_x as int, 50),
        platform_fits(offset_x as int, 300),
    ensures
        r@.len() == 4,
        stone_at(r@[0], stone, offset_x + 150, STONE_ON_GROUND as int),
        stone_at(r@[1], stone, offset_x + 200, 340 - 93),
        floating_platform_at(r@[2], *sprite_sheet, offset_x + 50, 300),
        floating_platform_at(r@[3], *sprite_sheet, offset_x + 300, 100),
        laid_out_from(r@, offset_x as int, segment_reach(stone)),
        stone_scrolls(stone) ==> all_scroll(r@),
{
    let stone1 = stone_obstacle(stone, offset_x + 150, STONE_ON_GROUND);
    let stone2 = stone_obstacle(stone, offset_x + 200, 340 - 93);
    let platform1 = platform_obstacle(sprite_sheet, offset_x + 50, 300);
    let platform2 = platform_obstacle(sprite_sheet, offset_x + 300, 100);
    vec![stone1, stone2, platform1, platform2]
}

/// Two platforms one above the other, with a stone on each.
pub fn platform_and_platform_and2(stone: ImageSize, sprite_sheet: &SpriteSheet, offset_x: i16) -> (r:
    Vec<AnyObstacle>)
    requires
        stone_fits(stone, offset_x as int, 300),
        stone_fits(stone, offset_x as int, 500),
        platform_fits(offset_x as int, 150),
        platform_fits(offset_x as int, 400),
    ensures
        r@.len() == 4,
        stone_at(r@[0], stone, offset_x + 300, 340 - 93),
        stone_at(r@[1], stone, offset_x + 500, 140 - 93),
        floating_platform_at(r@[2], *sprite_sheet, offset_x + 150, 300),
        floating_platform_at(r@[3], *sprite_sheet, offset_x + 400, 100),
        laid_out_from(r@, offset_x as int, segment_reach(stone)),
        stone_scrolls(stone) ==> all_scroll(r@),
{
    let stone1 = stone_obstacle(stone, offset_x + 300, 340 - 93);
    let stone2 = stone_obstacle(stone, offset_x + 500, 140 - 93);
    let platform1 = platform_obstacle(sprite_sheet, offset_x + 150, 300);
    let platform2 = platform_obstacle(sprite_sheet, offset_x + 400, 100);
    vec![stone1, stone2, platform1, platform2]
}

} // verus!
