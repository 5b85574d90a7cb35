use vstd::prelude::*;
use rand::Rng;

use crate::character::{fits_i16, Event, StateKind, CANVAS_SIZE, RUNNING_SPEED};
use crate::engine::{Image, ImageSize, KeyState, Point, Sheet, SpriteSheet};
use crate::obstacle::{
    lemma_max_right, lemma_rightmost_edge, max_right, rightmost, rightmost_edge, AnyObstacle,
    is_first_overlap, Obstacle, SCROLL_SPAN,
};
use crate::character::{drawable, lemma_events_keep_drawable};
use crate::red_hat_boy::{fired, lemma_complete_sheet_has_box, sheet_complete, sheet_is_complete, RedHatBoy};
use crate::segment::{
    all_scroll, floating_platform_at, laid_out_from, platform_and_platform,
    platform_and_platform_and2, segment_reach, stone_and_platform, stone_and_platform2,
    stone_and_platform3, stone_and_platform4, stone_at, stone_scrolls, SEGMENT_SPAN, STONE_SPAN,
    STONE_ON_GROUND,
};

verus! {

/// Below this the timeline cursor asks for a new segment.
pub const TIMELINE_MINIMUM: i16 = 500;

/// Gap left after the rightmost obstacle before the next segment starts.
pub const OBSTACLE_BUFFER: i16 = 20;

/// The widest background picture: two copies side by side stay within `i16`.
pub const MAX_BACKGROUND_WIDTH: i16 = 16383;

/// The widest stone picture: a segment laid out from the canvas's right edge or
/// from below the timeline minimum, and the timeline past it, stay within `i16`.
pub const MAX_STONE_WIDTH: i16 = 32767 - CANVAS_SIZE - STONE_SPAN - OBSTACLE_BUFFER;

/// A stone picture that a scene can lay out and scroll.
pub open spec fn stone_ok(stone: ImageSize) -> bool {
    0 <= stone.width <= MAX_STONE_WIDTH
}

/// How many layouts the segment catalog holds.
pub const SEGMENT_COUNT: u8 = 6;

/// Relies on rand's `thread_rng().gen_range(0..n)`: a number drawn uniformly
/// from `0..n`; it panics on an empty range.
#[verifier::external_body]
fn random_below(n: u8) -> (r: u8)
    requires
        n > 0,
    ensures
        r < n,
{
    rand::thread_rng().gen_range(0..n)
}

/// `batch` is the catalog's layout number `choice` laid out from `offset`;
/// numbers past the catalog give an empty batch.
pub open spec fn is_segment(
    batch: Seq<AnyObstacle>,
    choice: u8,
    stone: ImageSize,
    sheet: SpriteSheet,
    offset: int,
) -> bool {
    if choice == 0 {
        &&& batch.len() == 2
        &&& stone_at(batch[0], stone, offset + 100, STONE_ON_GROUND as int)
        &&& floating_platform_at(batch[1], sheet, offset + 150, 420)
    } else if choice == 1 {
        &&& batch.len() == 2
        &&& stone_at(batch[0], stone, offset + 150, STONE_ON_GROUND as int)
        &&& floating_platform_at(batch[1], sheet, offset + 150, 420)
    } else if choice == 2 {
        &&& batch.len() == 2
        &&& stone_at(batch[0], stone, offset + 200, 420 - 93)
        &&& floating_platform_at(batch[1], sheet, offset + 150, 380)
    } else if choice == 3 {
        &&& batch.len() == 2
        &&& stone_at(batch[0], stone, offset + 300, 420 - 93)
        &&& floating_platform_at(batch[1], sheet, offset + 150, 380)
    } else if choice == 4 {
        &&& batch.len() == 4
        &&& stone_at(batch[0], stone, offset + 150, STONE_ON_GROUND as int)
        &&& stone_at(batch[1], stone, offset + 200, 340 - 93)
        &&& floating_platform_at(batch[2], sheet, offset + 50, 300)
        &&& floating_platform_at(batch[3], sheet, offset + 300, 100)
    } else if choice == 5 {
        &&& batch.len() == 4
        &&& stone_at(batch[0], stone, offset + 300, 340 - 93)
        &&& stone_at(batch[1], stone, offset + 500, 140 - 93)
        &&& floating_platform_at(batch[2], sheet, offset + 150, 300)
        &&& floating_platform_at(batch[3], sheet, offset + 400, 100)
    } else {
        batch.len() == 0
    }
}

/// Lays out the catalog's layout number `choice` from `offset_x`.
pub fn segment(choice: u8, stone: ImageSize, sprite_sheet: &SpriteSheet, offset_x: i16) -> (r: Vec<
    AnyObstacle,
>)
    requires
        0 <= stone.width,
        offset_x + STONE_SPAN + stone.width <= i16::MAX,
        offset_x + SEGMENT_SPAN <= i16::MAX,
    ensures
        is_segment(r@, choice, stone, *sprite_sheet, offset_x as int),
        laid_out_from(r@, offset_x as int, segment_reach(stone)),
        stone_scrolls(stone) ==> all_scroll(r@),
{
    if choice == 0 {
        stone_and_platform(stone, sprite_sheet, offset_x)
    } else if choice == 1 {
        stone_and_platform2(stone, sprite_sheet, offset_x)
    } else if choice == 2 {
        stone_and_platform3(stone, sprite_sheet, offset_x)
    } else if choice == 3 {
        stone_and_platform4(stone, sprite_sheet, offset_x)
    } else if choice == 4 {
        platform_and_platform(stone, sprite_sheet, offset_x)
    } else if choice == 5 {
        platform_and_platform_and2(stone, sprite_sheet, offset_x)
    } else {
        Vec::new()
    }
}

/// A background picture that can scroll and wrap.
pub open spec fn background_ok(background: ImageSize) -> bool {
    RUNNING_SPEED <= background.width <= MAX_BACKGROUND_WIDTH
}

/// Two copies of one background side by side, the left one starting at or left
/// of the canvas's left edge and still reaching into the canvas.
pub open spec fn backgrounds_tiled(b1: Image, b2: Image) -> bool {
    let w = b1.element.width;
    &&& b1.element == b2.element
    &&& background_ok(b1.element)
    &&& {
        ||| b2.position.x == b1.position.x + w && -w <= b1.position.x <= 0
        ||| b1.position.x == b2.position.x + w && -w <= b2.position.x <= 0
    }
}

/// `b` moved along the x axis by `distance`.
pub open spec fn image_moved(b: Image, distance: int) -> Image {
    Image { position: Point { x: (b.position.x + distance) as i16, y: b.position.y }, ..b }
}

/// `b` with its left edge at `x`.
pub open spec fn image_at(b: Image, x: int) -> Image {
    Image { position: Point { x: x as i16, y: b.position.y }, ..b }
}

/// The two backgrounds after scrolling by `distance`: both move, then each one
/// whose right edge has passed the left edge of the canvas goes behind the other.
pub open spec fn scrolled(b1: Image, b2: Image, distance: int) -> (Image, Image) {
    let m1 = image_moved(b1, distance);
    let m2 = image_moved(b2, distance);
    let n1 = if m1.area().right_edge() < 0 {
        image_at(m1, m2.area().right_edge())
    } else {
        m1
    };
    let n2 = if m2.area().right_edge() < 0 {
        image_at(m2, n1.area().right_edge())
    } else {
        m2
    };
    (n1, n2)
}

/// `runners[i + 1]` is `runners[i]` after meeting `obstacles[i]`, for each obstacle.
pub open spec fn meets_in_turn(obstacles: Seq<AnyObstacle>, runners: Seq<RedHatBoy>) -> bool {
    &&& runners.len() == obstacles.len() + 1
    &&& forall|i: int|
        0 <= i < obstacles.len() ==> #[trigger] obstacles[i].meets(runners[i], runners[i + 1])
}

/// The runner `after` is `before` after meeting each of `obstacles` in turn.
pub open spec fn meets_all(obstacles: Seq<AnyObstacle>, before: RedHatBoy, after: RedHatBoy) -> bool {
    exists|runners: Seq<RedHatBoy>|
        #[trigger] meets_in_turn(obstacles, runners) && runners[0] == before && runners.last()
            == after
}

/// An obstacle that stays on the list: its right edge is still on the canvas.
pub open spec fn still_visible(o: AnyObstacle) -> bool {
    o.right_edge() > 0
}

/// Everything the game shows and moves: the runner, the two backgrounds, the
/// obstacles, and the timeline cursor up to which obstacles exist.
pub struct Scene {
    pub rhb: RedHatBoy,
    pub backgrounds: [Image; 2],
    pub obstacle_sheet: SpriteSheet,
    pub obstacles: Vec<AnyObstacle>,
    pub timeline: i16,
    pub stone: ImageSize,
}

/// Each obstacle of `obstacles` keeps its bounds.
pub open spec fn all_wf(obstacles: Seq<AnyObstacle>) -> bool {
    forall|i: int| 0 <= i < obstacles.len() ==> (#[trigger] obstacles[i]).wf()
}

proof fn lemma_visible_can_move(o: AnyObstacle, distance: int)
    requires
        o.wf(),
        o.scroll_ok(),
        still_visible(o),
        -RUNNING_SPEED <= distance <= 0,
    ensures
        o.can_move(distance),
{
    match o {
        AnyObstacle::Platform(p) => {
            let boxes = p.bounding_boxes@;
            assert forall|i: int| 0 <= i < boxes.len() implies fits_i16(
                #[trigger] boxes[i].position.x + distance,
            ) && fits_i16(boxes[i].right_edge() + distance) by {
                assert(boxes[i].right_fits());
            }
        },
        AnyObstacle::Barrier(b) => {},
    }
}

/// The right edge of an obstacle fits `i16`.
proof fn lemma_right_edge_fits(o: AnyObstacle)
    requires
        o.wf(),
    ensures
        fits_i16(o.right_edge()),
{
    if let AnyObstacle::Platform(p) = o {
        if p.bounding_boxes@.len() > 0 {
            lemma_max_right(p.bounding_boxes@);
            let k = choose|k: int| 0 <= k < p.bounding_boxes@.len() && #[trigger] p.bounding_boxes@[k].right_edge() == max_right(p.bounding_boxes@);
            assert(p.bounding_boxes@[k].right_fits());
        }
    }
}

/// A runner in play: not idle, drawable, with a complete sheet, so that it
/// always has a collision box.
pub open spec fn runner_in_play(r: RedHatBoy) -> bool {
    &&& r.wf()
    &&& r.kind() != StateKind::Idle
    &&& drawable(r.kind(), r.ctx())
    &&& sheet_complete(r.sprite_sheet)
}

/// Firing an event other than a landing of an idle runner keeps a runner in play.
proof fn lemma_fired_keeps_in_play(before: RedHatBoy, after: RedHatBoy, event: Event)
    requires
        runner_in_play(before),
        after.wf(),
        fired(before, after, event),
    ensures
        runner_in_play(after),
{
    lemma_events_keep_drawable(before.kind(), before.ctx(), event);
}

/// Meeting an obstacle keeps a runner in play.
proof fn lemma_meets_keeps_in_play(o: AnyObstacle, before: RedHatBoy, after: RedHatBoy)
    requires
        runner_in_play(before),
        after.wf(),
        o.meets(before, after),
    ensures
        runner_in_play(after),
{
    match o {
        AnyObstacle::Platform(p) => {
            let b = before.spec_bounding_box()->0;
            if exists|i: int| 0 <= i < p.bounding_boxes@.len() && b.overlaps(#[trigger] p.bounding_boxes@[i]) {
                let i = choose|i: int|
                    #[trigger] is_first_overlap(p.bounding_boxes@, b, i) && if p.falls_onto(
                        before,
                        p.bounding_boxes@[i],
                    ) {
                        fired(before, after, Event::Land(p.bounding_boxes@[i].position.y))
                    } else {
                        after == before
                    };
                if p.falls_onto(before, p.bounding_boxes@[i]) {
                    lemma_fired_keeps_in_play(before, after, Event::Land(p.bounding_boxes@[i].position.y));
                }
            }
        },
        AnyObstacle::Barrier(b) => {
            if before.spec_bounding_box()->0.overlaps(b.collider.bounding_box) {
                lemma_fired_keeps_in_play(before, after, Event::KnockOut);
            }
        },
    }
}

/// The timeline after a batch from `offset` has been laid out.
proof fn lemma_batch_bounds(batch: Seq<AnyObstacle>, offset: int, reach: int)
    requires
        laid_out_from(batch, offset, reach),
    ensures
        batch.len() > 0 ==> fits_i16(rightmost_edge(batch)) && rightmost_edge(batch) <= offset + reach,
        batch.len() == 0 ==> rightmost_edge(batch) == 0,
{
    if batch.len() > 0 {
        lemma_rightmost_edge(batch);
        let k = choose|k: int| 0 <= k < batch.len() && #[trigger] batch[k].right_edge() == rightmost_edge(batch);
        lemma_right_edge_fits(batch[k]);
    }
}

impl Scene {
    pub open spec fn wf(self) -> bool {
        &&& self.rhb.wf()
        &&& all_wf(self.obstacles@)
        &&& all_scroll(self.obstacles@)
        &&& stone_ok(self.stone)
        &&& sheet_complete(self.rhb.sprite_sheet)
        &&& drawable(self.rhb.kind(), self.rhb.ctx())
        &&& backgrounds_tiled(self.backgrounds@[0], self.backgrounds@[1])
    }

    /// The speed at which everything but the runner moves: the runner's speed, leftwards.
    pub fn horizontal_velocity(&self) -> (r: i16)
        requires
            self.rhb.wf(),
        ensures
            r == -self.rhb.ctx().velocity.x,
            -RUNNING_SPEED <= r <= 0,
    {
        -self.rhb.walking_speed()
    }

    /// Drops the obstacles whose right edge is at or left of the canvas's left edge.
    pub fn drop_passed_obstacles(&mut self)
        requires
            all_wf(old(self).obstacles@),
            all_scroll(old(self).obstacles@),
        ensures
            final(self).obstacles@ == old(self).obstacles@.filter(|o: AnyObstacle| still_visible(o)),
            all_wf(final(self).obstacles@),
            all_scroll(final(self).obstacles@),
            final(self).rhb == old(self).rhb,
            final(self).backgrounds == old(self).backgrounds,
            final(self).obstacle_sheet == old(self).obstacle_sheet,
            final(self).timeline == old(self).timeline,
            final(self).stone == old(self).stone,
    {
        let ghost all = self.obstacles@;
        let ghost keep = |o: AnyObstacle| still_visible(o);
        let mut pending: Vec<AnyObstacle> = Vec::new();
        std::mem::swap(&mut pending, &mut self.obstacles);
        let ghost mut k: int = 0;
        proof {
            reveal(Seq::filter);
            assert(all.subrange(0, 0) =~= Seq::<AnyObstacle>::empty());
            assert(all.subrange(0, all.len() as int) =~= all);
        }
        while pending.len() > 0
            invariant
                0 <= k <= all.len(),
                pending@ == all.subrange(k, all.len() as int),
                self.obstacles@ == all.subrange(0, k).filter(keep),
                all_wf(all),
                all_wf(self.obstacles@),
                all_scroll(all),
                all_scroll(self.obstacles@),
                keep == (|o: AnyObstacle| still_visible(o)),
                self.rhb == old(self).rhb,
                self.backgrounds == old(self).backgrounds,
                self.obstacle_sheet == old(self).obstacle_sheet,
                self.timeline == old(self).timeline,
                self.stone == old(self).stone,
            decreases pending.len(),
        {
            let o = pending.remove(0);
            assert(o == all[k]);
            assert(o.wf());
            assert(o.scroll_ok());
            proof {
                reveal(Seq::filter);
                assert(all.subrange(0, k + 1).drop_last() =~= all.subrange(0, k));
                assert(all.subrange(0, k + 1).last() == o);
            }
            if o.right() > 0 {
                self.obstacles.push(o);
            }
            proof {
                k = k + 1;
                assert(pending@ =~= all.subrange(k, all.len() as int));
            }
        }
        proof {
            assert(all.subrange(0, k) =~= all);
        }
    }
}

impl Scene {
    /// A scene at the start of a game: the runner idle, the two backgrounds side
    /// by side, the first segment laid out from the canvas's right edge, and the
    /// timeline just past it.
    pub fn new(rhb_sheet: Sheet, background: ImageSize, stone: ImageSize, obstacle_sheet: SpriteSheet) -> (r: Scene)
        requires
            stone_ok(stone),
            background_ok(background),
            sheet_complete(rhb_sheet),
        ensures
            r.wf(),
            r.rhb.is_fresh(rhb_sheet),
            r.backgrounds@[0] == (Image { element: background, position: Point { x: 0, y: 0 } }),
            r.backgrounds@[1] == (Image {
                element: background,
                position: Point { x: background.width, y: 0 },
            }),
            is_segment(r.obstacles@, 0, stone, obstacle_sheet, CANVAS_SIZE as int),
            r.timeline == rightmost_edge(r.obstacles@) + OBSTACLE_BUFFER,
            r.obstacle_sheet == obstacle_sheet,
            r.stone == stone,
    {
        let starting_obstacles = stone_and_platform(stone, &obstacle_sheet, CANVAS_SIZE);
        let right = rightmost(&starting_obstacles);
        proof {
            lemma_batch_bounds(starting_obstacles@, CANVAS_SIZE as int, segment_reach(stone));
        }
        let timeline = right + OBSTACLE_BUFFER;
        let background1 = Image::new(background, Point { x: 0, y: 0 });
        let background2 = Image::new(background, Point { x: background.width, y: 0 });
        Scene {
            rhb: RedHatBoy::new(rhb_sheet),
            backgrounds: [background1, background2],
            obstacle_sheet,
            obstacles: starting_obstacles,
            timeline,
            stone,
        }
    }

    /// The same scene back at the start of a game: the runner reset, a fresh
    /// first segment, the backgrounds and pictures kept.
    pub fn reset(scene: Self) -> (r: Self)
        requires
            scene.wf(),
        ensures
            r.wf(),
            r.rhb.is_fresh(scene.rhb.sprite_sheet),
            r.backgrounds == scene.backgrounds,
            is_segment(r.obstacles@, 0, scene.stone, scene.obstacle_sheet, CANVAS_SIZE as int),
            r.timeline == rightmost_edge(r.obstacles@) + OBSTACLE_BUFFER,
            r.obstacle_sheet == scene.obstacle_sheet,
            r.stone == scene.stone,
    {
        let starting_obstacles = stone_and_platform(scene.stone, &scene.obstacle_sheet, CANVAS_SIZE);
        let right = rightmost(&starting_obstacles);
        proof {
            lemma_batch_bounds(starting_obstacles@, CANVAS_SIZE as int, segment_reach(scene.stone));
        }
        let timeline = right + OBSTACLE_BUFFER;
        Scene {
            rhb: RedHatBoy::reset(scene.rhb),
            backgrounds: scene.backgrounds,
            obstacle_sheet: scene.obstacle_sheet,
            obstacles: starting_obstacles,
            timeline,
            stone: scene.stone,
        }
    }

    /// Lays out the catalog's layout number `choice` at the timeline cursor and
    /// moves the cursor past the new batch by the buffer.
    pub fn generate_segment(&mut self, choice: u8)
        requires
            old(self).wf(),
            old(self).timeline < TIMELINE_MINIMUM,
        ensures
            final(self).wf(),
            final(self).obstacles@.len() >= old(self).obstacles@.len(),
            final(self).obstacles@.subrange(0, old(self).obstacles@.len() as int) == old(self).obstacles@,
            is_segment(
                final(self).obstacles@.subrange(old(self).obstacles@.len() as int, final(self).obstacles@.len() as int),
                choice,
                old(self).stone,
                old(self).obstacle_sheet,
                old(self).timeline as int,
            ),
            laid_out_from(
                final(self).obstacles@.subrange(old(self).obstacles@.len() as int, final(self).obstacles@.len() as int),
                old(self).timeline as int,
                segment_reach(old(self).stone),
            ),
            final(self).timeline == rightmost_edge(
                final(self).obstacles@.subrange(old(self).obstacles@.len() as int, final(self).obstacles@.len() as int),
            ) + OBSTACLE_BUFFER,
            final(self).rhb == old(self).rhb,
            final(self).backgrounds == old(self).backgrounds,
            final(self).obstacle_sheet == old(self).obstacle_sheet,
            final(self).stone == old(self).stone,
    {
        let mut next_obstacles = segment(choice, self.stone, &self.obstacle_sheet, self.timeline);
        let ghost batch = next_obstacles@;
        let right = rightmost(&next_obstacles);
        proof {
            lemma_batch_bounds(batch, self.timeline as int, segment_reach(self.stone));
        }
        self.timeline = right + OBSTACLE_BUFFER;
        self.obstacles.append(&mut next_obstacles);
        proof {
            let n = old(self).obstacles@.len() as int;
            assert(self.obstacles@.subrange(0, n) =~= old(self).obstacles@);
            assert(self.obstacles@.subrange(n, self.obstacles@.len() as int) =~= batch);
            assert forall|i: int| 0 <= i < self.obstacles@.len() implies (#[trigger] self.obstacles@[i]).wf()
                && self.obstacles@[i].scroll_ok() by {
                if i >= n {
                    assert(self.obstacles@[i] == batch[i - n]);
                } else {
                    assert(self.obstacles@[i] == old(self).obstacles@[i]);
                }
            }
        }
    }

    /// Lays out a layout drawn at random from the catalog at the timeline cursor.
    fn generate_next_segment(&mut self)
        requires
            old(self).wf(),
            old(self).timeline < TIMELINE_MINIMUM,
        ensures
            final(self).wf(),
            final(self).obstacles@.len() >= old(self).obstacles@.len(),
            final(self).obstacles@.subrange(0, old(self).obstacles@.len() as int) == old(self).obstacles@,
            exists|choice: u8|
                choice < SEGMENT_COUNT && #[trigger] is_segment(
                    final(self).obstacles@.subrange(old(self).obstacles@.len() as int, final(self).obstacles@.len() as int),
                    choice,
                    old(self).stone,
                    old(self).obstacle_sheet,
                    old(self).timeline as int,
                ),
            laid_out_from(
                final(self).obstacles@.subrange(old(self).obstacles@.len() as int, final(self).obstacles@.len() as int),
                old(self).timeline as int,
                segment_reach(old(self).stone),
            ),
            final(self).timeline == rightmost_edge(
                final(self).obstacles@.subrange(old(self).obstacles@.len() as int, final(self).obstacles@.len() as int),
            ) + OBSTACLE_BUFFER,
            final(self).rhb == old(self).rhb,
            final(self).backgrounds == old(self).backgrounds,
            final(self).obstacle_sheet == old(self).obstacle_sheet,
            final(self).stone == old(self).stone,
    {
        let choice = random_below(SEGMENT_COUNT);
        self.generate_segment(choice);
    }

    /// Moves every obstacle by `distance` and lets each, in order, act on the runner.
    fn move_and_check_obstacles(&mut self, distance: i16)
        requires
            runner_in_play(old(self).rhb),
            all_wf(old(self).obstacles@),
            all_scroll(old(self).obstacles@),
            forall|i: int| 0 <= i < old(self).obstacles@.len() ==> (#[trigger] old(self).obstacles@[i]).can_move(distance as int),
        ensures
            runner_in_play(final(self).rhb),
            all_wf(final(self).obstacles@),
            all_scroll(final(self).obstacles@),
            final(self).obstacles@.len() == old(self).obstacles@.len(),
            forall|i: int| 0 <= i < old(self).obstacles@.len() ==> (#[trigger] old(self).obstacles@[i]).moved(&final(self).obstacles@[i], distance as int),
            meets_all(final(self).obstacles@, old(self).rhb, final(self).rhb),
            final(self).backgrounds == old(self).backgrounds,
            final(self).obstacle_sheet == old(self).obstacle_sheet,
            final(self).timeline == old(self).timeline,
            final(self).stone == old(self).stone,
    {
        let ghost all = self.obstacles@;
        let ghost mut runners = seq![self.rhb];
        let mut i: usize = 0;
        while i < self.obstacles.len()
            invariant
                0 <= i <= self.obstacles@.len(),
                self.obstacles@.len() == all.len(),
                runner_in_play(self.rhb),
                forall|k: int| 0 <= k < all.len() ==> (#[trigger] all[k]).wf() && all[k].can_move(distance as int) && all[k].scroll_ok(),
                forall|k: int| 0 <= k < i ==> (#[trigger] self.obstacles@[k]).wf() && all[k].moved(&self.obstacles@[k], distance as int) && self.obstacles@[k].scroll_ok(),
                forall|k: int| i <= k < all.len() ==> #[trigger] self.obstacles@[k] == all[k],
                runners.len() == i + 1,
                runners[0] == old(self).rhb,
                runners.last() == self.rhb,
                forall|k: int| 0 <= k < i ==> #[trigger] self.obstacles@[k].meets(runners[k], runners[k + 1]),
                self.backgrounds == old(self).backgrounds,
                self.obstacle_sheet == old(self).obstacle_sheet,
                self.timeline == old(self).timeline,
                self.stone == old(self).stone,
            decreases all.len() - i,
        {
            assert(self.obstacles@[i as int] == all[i as int]);
            self.obstacles[i].move_horisontally(distance);
            proof {
                lemma_complete_sheet_has_box(self.rhb);
            }
            let ghost before = self.rhb;
            self.obstacles[i].check_intersection(&mut self.rhb);
            proof {
                lemma_meets_keeps_in_play(self.obstacles@[i as int], before, self.rhb);
                runners = runners.push(self.rhb);
            }
            i = i + 1;
        }
        proof {
            assert(meets_in_turn(self.obstacles@, runners));
        }
    }

    /// Scrolls both backgrounds by `distance`, wrapping each behind the other.
    fn scroll_backgrounds(&mut self, distance: i16)
        requires
            backgrounds_tiled(old(self).backgrounds@[0], old(self).backgrounds@[1]),
            -RUNNING_SPEED <= distance <= 0,
        ensures
            backgrounds_tiled(final(self).backgrounds@[0], final(self).backgrounds@[1]),
            (final(self).backgrounds@[0], final(self).backgrounds@[1]) == scrolled(
                old(self).backgrounds@[0],
                old(self).backgrounds@[1],
                distance as int,
            ),
            final(self).rhb == old(self).rhb,
            final(self).obstacles == old(self).obstacles,
            final(self).obstacle_sheet == old(self).obstacle_sheet,
            final(self).timeline == old(self).timeline,
            final(self).stone == old(self).stone,
    {
        let mut background1 = self.backgrounds[0];
        let mut background2 = self.backgrounds[1];
        background1.move_horisontally(distance);
        background2.move_horisontally(distance);
        if background1.right() < 0 {
            background1.set_x(background2.right());
        }
        if background2.right() < 0 {
            background2.set_x(background1.right());
        }
        self.backgrounds = [background1, background2];
    }
}

/// The runner steps from `before` through `mid` to `after`: a jump if asked,
/// then a slide if asked, then one frame.
pub open spec fn key_steps(
    before: RedHatBoy,
    mid: (RedHatBoy, RedHatBoy),
    after: RedHatBoy,
    jump: bool,
    slide: bool,
) -> bool {
    &&& if jump {
        fired(before, mid.0, Event::Jump)
    } else {
        mid.0 == before
    }
    &&& if slide {
        fired(mid.0, mid.1, Event::Slide)
    } else {
        mid.1 == mid.0
    }
    &&& fired(mid.1, after, Event::Update)
}

/// The runner `after` is `before` after the frame's keys and one frame.
pub open spec fn keys_applied(before: RedHatBoy, after: RedHatBoy, jump: bool, slide: bool) -> bool {
    exists|mid: (RedHatBoy, RedHatBoy)| #[trigger] key_steps(before, mid, after, jump, slide)
}

/// One frame of play takes the scene `before` to `after`, with the jump and
/// slide keys as given: the runner takes the keys and a frame; obstacles past
/// the left edge go; the rest move by the scroll speed and meet the runner in
/// turn; the backgrounds scroll; and the timeline either moves by the scroll
/// speed or, once below its minimum, gets a new segment laid out from it.
pub open spec fn walked(before: Scene, after: Scene, jump: bool, slide: bool) -> bool {
    let v = -before.rhb.ctx().velocity.x;
    let kept = before.obstacles@.filter(|o: AnyObstacle| still_visible(o));
    let n = kept.len() as int;
    let batch = after.obstacles@.subrange(n, after.obstacles@.len() as int);
    &&& after.obstacles@.len() >= n
    &&& forall|i: int| 0 <= i < n ==> (#[trigger] kept[i]).moved(&after.obstacles@[i], v)
    &&& exists|r: RedHatBoy|
        #[trigger] keys_applied(before.rhb, r, jump, slide) && meets_all(
            after.obstacles@.subrange(0, n),
            r,
            after.rhb,
        )
    &&& (after.backgrounds@[0], after.backgrounds@[1]) == scrolled(
        before.backgrounds@[0],
        before.backgrounds@[1],
        v,
    )
    &&& if before.timeline < TIMELINE_MINIMUM {
        &&& exists|choice: u8|
            choice < SEGMENT_COUNT && #[trigger] is_segment(
                batch,
                choice,
                before.stone,
                before.obstacle_sheet,
                before.timeline as int,
            )
        &&& after.timeline == rightmost_edge(batch) + OBSTACLE_BUFFER
    } else {
        &&& batch.len() == 0
        &&& after.timeline == before.timeline + v
    }
    &&& after.obstacle_sheet == before.obstacle_sheet
    &&& after.stone == before.stone
}

impl Scene {
    /// Plays one frame with the jump and slide keys as given.
    pub fn walk(&mut self, jump: bool, slide: bool)
        requires
            old(self).wf(),
            old(self).rhb.kind() != StateKind::Idle,
        ensures
            final(self).wf(),
            final(self).rhb.kind() != StateKind::Idle,
            walked(*old(self), *final(self), jump, slide),
    {
        let horizontal_velocity = self.horizontal_velocity();
        let ghost r0 = self.rhb;
        if jump {
            self.rhb.jump();
            proof {
                lemma_fired_keeps_in_play(r0, self.rhb, Event::Jump);
            }
        }
        let ghost a = self.rhb;
        if slide {
            self.rhb.slide();
            proof {
                lemma_fired_keeps_in_play(a, self.rhb, Event::Slide);
            }
        }
        let ghost b = self.rhb;
        self.rhb.update();
        let ghost r1 = self.rhb;
        proof {
            lemma_fired_keeps_in_play(b, r1, Event::Update);
        }
        assert(key_steps(r0, (a, b), r1, jump, slide));
        let ghost keep = |o: AnyObstacle| still_visible(o);
        self.drop_passed_obstacles();
        let ghost kept = self.obstacles@;
        proof {
            assert forall|i: int| 0 <= i < kept.len() implies (#[trigger] kept[i]).can_move(horizontal_velocity as int) by {
                old(self).obstacles@.lemma_filter_pred(keep, i);
                assert(kept[i].scroll_ok());
                lemma_visible_can_move(kept[i], horizontal_velocity as int);
            }
        }
        self.move_and_check_obstacles(horizontal_velocity);
        let ghost moved = self.obstacles@;
        self.scroll_backgrounds(horizontal_velocity);
        if self.timeline < TIMELINE_MINIMUM {
            self.generate_next_segment();
        } else {
            self.timeline = self.timeline + horizontal_velocity;
        }
        proof {
            let n = kept.len() as int;
            assert(self.obstacles@.subrange(0, n) =~= moved);
            assert(keys_applied(r0, r1, jump, slide));
            if old(self).timeline >= TIMELINE_MINIMUM {
                assert(self.obstacles@.subrange(n, self.obstacles@.len() as int).len() == 0);
            }
        }
    }
}

/// What the page around the game should show or hide.
#[derive(Clone, Copy, Debug, PartialEq, Eq, Structural)]
pub enum UiAction {
    /// Show a button that starts a new game.
    ShowNewGameButton,
    /// Hide that button.
    HideNewGameButton,
}

/// The phase markers of a session.
pub struct Ready;

pub struct Walking;

pub struct GameOver;

/// A session in the phase `T`, with its scene.
pub struct WalkTheDogState<T> {
    pub _state: T,
    pub scene: Scene,
}

/// What a frame of the `Ready` phase leads to.
pub enum ReadyEndState {
    Complete(WalkTheDogState<Walking>),
    Continue(WalkTheDogState<Ready>),
}

/// What a frame of play leads to.
pub enum WalkingEndState {
    Complete(WalkTheDogState<GameOver>),
    Continue(WalkTheDogState<Walking>),
}

/// What a frame after the end of a game leads to.
pub enum GameOverEndState {
    Complete(WalkTheDogState<Ready>),
    Continue(WalkTheDogState<GameOver>),
}

/// The key that starts the run.
pub open spec fn right_key() -> Seq<char> {
    seq!['A', 'r', 'r', 'o', 'w', 'R', 'i', 'g', 'h', 't']
}

/// The key that makes the runner jump.
pub open spec fn up_key() -> Seq<char> {
    seq!['A', 'r', 'r', 'o', 'w', 'U', 'p']
}

/// The key that makes the runner slide.
pub open spec fn down_key() -> Seq<char> {
    seq!['A', 'r', 'r', 'o', 'w', 'D', 'o', 'w', 'n']
}

/// The key that starts a new game.
pub open spec fn enter_key() -> Seq<char> {
    seq!['E', 'n', 't', 'e', 'r']
}

/// A frame of the `Ready` phase: the runner idles one frame, and starts
/// running when `run` holds; nothing else changes.
pub open spec fn readied(before: Scene, after: Scene, run: bool) -> bool {
    &&& exists|mid: RedHatBoy|
        #[trigger] fired(before.rhb, mid, Event::Update) && if run {
            fired(mid, after.rhb, Event::Run)
        } else {
            after.rhb == mid
        }
    &&& after.backgrounds == before.backgrounds
    &&& after.obstacles == before.obstacles
    &&& after.obstacle_sheet == before.obstacle_sheet
    &&& after.timeline == before.timeline
    &&& after.stone == before.stone
}

/// `after` is `before` set back to the start of a game.
pub open spec fn restarted_scene(before: Scene, after: Scene) -> bool {
    &&& after.rhb.is_fresh(before.rhb.sprite_sheet)
    &&& after.backgrounds == before.backgrounds
    &&& is_segment(after.obstacles@, 0, before.stone, before.obstacle_sheet, CANVAS_SIZE as int)
    &&& after.timeline == rightmost_edge(after.obstacles@) + OBSTACLE_BUFFER
    &&& after.obstacle_sheet == before.obstacle_sheet
    &&& after.stone == before.stone
}

/// A frame of the `Ready` phase with the right arrow held turns an idle runner
/// into a running one, at the running speed.
pub proof fn lemma_start_gives_running_speed(before: Scene, after: Scene)
    requires
        before.rhb.wf(),
        before.rhb.kind() == StateKind::Idle,
        readied(before, after, true),
    ensures
        after.rhb.kind() == StateKind::Running,
        after.rhb.ctx().velocity.x == RUNNING_SPEED,
{
    let mid = choose|mid: RedHatBoy| #[trigger] fired(before.rhb, mid, Event::Update) && fired(mid, after.rhb, Event::Run);
    assert(mid.kind() == StateKind::Idle);
}

impl WalkTheDogState<Ready> {
    /// One frame before the run: the runner idles, and the right arrow starts the run.
    pub fn update(self, key_state: &KeyState) -> (r: ReadyEndState)
        requires
            self.scene.wf(),
        ensures
            match r {
                ReadyEndState::Complete(s) => key_state.holds("ArrowRight"@) && s.scene.wf()
                    && s.scene.rhb.kind() != StateKind::Idle
                    && readied(self.scene, s.scene, true),
                ReadyEndState::Continue(s) => !key_state.holds("ArrowRight"@) && s.scene.wf()
                    && readied(self.scene, s.scene, false),
            },
    {
        let mut state = self;
        let ghost before = state.scene;
        state.scene.rhb.update();
        let ghost mid = state.scene.rhb;
        proof {
            lemma_events_keep_drawable(before.rhb.kind(), before.rhb.ctx(), Event::Update);
        }
        if key_state.is_pressed("ArrowRight") {
            let next = state.start_running();
            assert(fired(before.rhb, mid, Event::Update));
            ReadyEndState::Complete(next)
        } else {
            assert(fired(before.rhb, mid, Event::Update));
            ReadyEndState::Continue(state)
        }
    }

    /// Starts the run: the runner gets its running speed.
    pub fn start_running(self) -> (r: WalkTheDogState<Walking>)
        requires
            self.scene.wf(),
        ensures
            r.scene.wf(),
            r.scene.rhb.kind() != StateKind::Idle,
            fired(self.scene.rhb, r.scene.rhb, Event::Run),
            r.scene.backgrounds == self.scene.backgrounds,
            r.scene.obstacles == self.scene.obstacles,
            r.scene.obstacle_sheet == self.scene.obstacle_sheet,
            r.scene.timeline == self.scene.timeline,
            r.scene.stone == self.scene.stone,
    {
        let mut scene = self.scene;
        proof {
            lemma_events_keep_drawable(scene.rhb.kind(), scene.rhb.ctx(), Event::Run);
        }
        scene.rhb.run_right();
        WalkTheDogState { _state: Walking, scene }
    }
}

impl WalkTheDogState<Walking> {
    /// One frame of play; once the runner is knocked out the game is over.
    pub fn update(self, key_state: &KeyState) -> (r: WalkingEndState)
        requires
            self.scene.wf(),
            self.scene.rhb.kind() != StateKind::Idle,
        ensures
            match r {
                WalkingEndState::Complete(s) => s.scene.wf() && s.scene.rhb.kind() == StateKind::KnockedOut
                    && walked(self.scene, s.scene, key_state.holds("ArrowUp"@), key_state.holds("ArrowDown"@)),
                WalkingEndState::Continue(s) => s.scene.wf() && s.scene.rhb.kind() != StateKind::KnockedOut
                    && s.scene.rhb.kind() != StateKind::Idle
                    && walked(self.scene, s.scene, key_state.holds("ArrowUp"@), key_state.holds("ArrowDown"@)),
            },
    {
        let mut scene = self.scene;
        let jump = key_state.is_pressed("ArrowUp");
        let slide = key_state.is_pressed("ArrowDown");
        scene.walk(jump, slide);
        if scene.rhb.state_machine.state_kind() == StateKind::KnockedOut {
            WalkingEndState::Complete(WalkTheDogState { _state: GameOver, scene })
        } else {
            WalkingEndState::Continue(WalkTheDogState { _state: Walking, scene })
        }
    }
}

impl WalkTheDogState<GameOver> {
    /// Waits for a new game, asked for by the button or by the Enter key.
    pub fn update(self, key_state: &KeyState, new_game_clicked: bool) -> (r: GameOverEndState)
        requires
            self.scene.wf(),
        ensures
            match r {
                GameOverEndState::Complete(s) => (new_game_clicked || key_state.holds("Enter"@))
                    && s.scene.wf() && restarted_scene(self.scene, s.scene),
                GameOverEndState::Continue(s) => !(new_game_clicked || key_state.holds("Enter"@))
                    && s.scene == self.scene,
            },
    {
        if new_game_clicked || key_state.is_pressed("Enter") {
            GameOverEndState::Complete(self.new_game())
        } else {
            GameOverEndState::Continue(self)
        }
    }

    /// Starts over with a scene set back to the start.
    pub fn new_game(self) -> (r: WalkTheDogState<Ready>)
        requires
            self.scene.wf(),
        ensures
            r.scene.wf(),
            restarted_scene(self.scene, r.scene),
    {
        WalkTheDogState { _state: Ready, scene: Scene::reset(self.scene) }
    }
}

/// A session in one of its phases.
pub enum WalkTheDogStateMachine {
    Ready(WalkTheDogState<Ready>),
    Walking(WalkTheDogState<Walking>),
    GameOver(WalkTheDogState<GameOver>),
}

impl From<ReadyEndState> for WalkTheDogStateMachine {
    fn from(state: ReadyEndState) -> (r: Self) {
        match state {
            ReadyEndState::Complete(state) => WalkTheDogStateMachine::Walking(state),
            ReadyEndState::Continue(state) => WalkTheDogStateMachine::Ready(state),
        }
    }
}

impl vstd::std_specs::convert::FromSpecImpl<ReadyEndState> for WalkTheDogStateMachine {
    open spec fn obeys_from_spec() -> bool {
        true
    }

    open spec fn from_spec(state: ReadyEndState) -> Self {
        match state {
            ReadyEndState::Complete(s) => WalkTheDogStateMachine::Walking(s),
            ReadyEndState::Continue(s) => WalkTheDogStateMachine::Ready(s),
        }
    }
}

impl From<WalkingEndState> for WalkTheDogStateMachine {
    fn from(state: WalkingEndState) -> (r: Self) {
        match state {
            WalkingEndState::Complete(state) => WalkTheDogStateMachine::GameOver(state),
            WalkingEndState::Continue(state) => WalkTheDogStateMachine::Walking(state),
        }
    }
}

impl vstd::std_specs::convert::FromSpecImpl<WalkingEndState> for WalkTheDogStateMachine {
    open spec fn obeys_from_spec() -> bool {
        true
    }

    open spec fn from_spec(state: WalkingEndState) -> Self {
        match state {
            WalkingEndState::Complete(s) => WalkTheDogStateMachine::GameOver(s),
            WalkingEndState::Continue(s) => WalkTheDogStateMachine::Walking(s),
        }
    }
}

impl From<GameOverEndState> for WalkTheDogStateMachine {
    fn from(state: GameOverEndState) -> (r: Self) {
        match state {
            GameOverEndState::Complete(state) => WalkTheDogStateMachine::Ready(state),
            GameOverEndState::Continue(state) => WalkTheDogStateMachine::GameOver(state),
        }
    }
}

impl vstd::std_specs::convert::FromSpecImpl<GameOverEndState> for WalkTheDogStateMachine {
    open spec fn obeys_from_spec() -> bool {
        true
    }

    open spec fn from_spec(state: GameOverEndState) -> Self {
        match state {
            GameOverEndState::Complete(s) => WalkTheDogStateMachine::Ready(s),
            GameOverEndState::Continue(s) => WalkTheDogStateMachine::GameOver(s),
        }
    }
}

/// The phases of a session.
#[derive(Clone, Copy, Debug, PartialEq, Eq, Structural)]
pub enum Phase {
    Ready,
    Walking,
    GameOver,
}

impl WalkTheDogStateMachine {
    pub open spec fn phase(self) -> Phase {
        match self {
            WalkTheDogStateMachine::Ready(_) => Phase::Ready,
            WalkTheDogStateMachine::Walking(_) => Phase::Walking,
            WalkTheDogStateMachine::GameOver(_) => Phase::GameOver,
        }
    }

    pub open spec fn scene_of(self) -> Scene {
        match self {
            WalkTheDogStateMachine::Ready(s) => s.scene,
            WalkTheDogStateMachine::Walking(s) => s.scene,
            WalkTheDogStateMachine::GameOver(s) => s.scene,
        }
    }

    /// The scene keeps its bounds, and in play the runner is never idle.
    pub open spec fn wf(self) -> bool {
        &&& self.scene_of().wf()
        &&& self.phase() == Phase::Walking ==> self.scene_of().rhb.kind() != StateKind::Idle
    }

    /// The rule of one frame: `after` and `ui` follow from `self` with the keys
    /// of `key_state` held and the new-game button clicked or not.
    pub open spec fn session_step(
        self,
        after: Self,
        ui: Option<UiAction>,
        key_state: KeyState,
        new_game_clicked: bool,
    ) -> bool {
        match self.phase() {
            Phase::Ready => {
                &&& after.phase() == (if key_state.holds("ArrowRight"@) {
                    Phase::Walking
                } else {
                    Phase::Ready
                })
                &&& ui == None::<UiAction>
                &&& readied(self.scene_of(), after.scene_of(), key_state.holds("ArrowRight"@))
            },
            Phase::Walking => {
                &&& after.phase() == (if after.scene_of().rhb.kind() == StateKind::KnockedOut {
                    Phase::GameOver
                } else {
                    Phase::Walking
                })
                &&& ui == (if after.phase() == Phase::GameOver {
                    Some(UiAction::ShowNewGameButton)
                } else {
                    None
                })
                &&& walked(
                    self.scene_of(),
                    after.scene_of(),
                    key_state.holds("ArrowUp"@),
                    key_state.holds("ArrowDown"@),
                )
            },
            Phase::GameOver => {
                let restart = new_game_clicked || key_state.holds("Enter"@);
                &&& after.phase() == (if restart {
                    Phase::Ready
                } else {
                    Phase::GameOver
                })
                &&& ui == (if restart {
                    Some(UiAction::HideNewGameButton)
                } else {
                    None
                })
                &&& if restart {
                    restarted_scene(self.scene_of(), after.scene_of())
                } else {
                    after.scene_of() == self.scene_of()
                }
            },
        }
    }

    /// One frame of the session, given the keys held and whether the new-game
    /// button was clicked since the last frame. Returns the next phase, and what
    /// the page should show or hide on entering it.
    pub fn update(self, key_state: &KeyState, new_game_clicked: bool) -> (r: (Self, Option<UiAction>))
        requires
            self.wf(),
        ensures
            r.0.wf(),
            self.session_step(r.0, r.1, *key_state, new_game_clicked),
    {
        match self {
            WalkTheDogStateMachine::Ready(state) => (
                WalkTheDogStateMachine::from(state.update(key_state)),
                None,
            ),
            WalkTheDogStateMachine::Walking(state) => {
                let next = WalkTheDogStateMachine::from(state.update(key_state));
                let ui = if let WalkTheDogStateMachine::GameOver(_) = next {
                    Some(UiAction::ShowNewGameButton)
                } else {
                    None
                };
                (next, ui)
            },
            WalkTheDogStateMachine::GameOver(state) => {
                let next = WalkTheDogStateMachine::from(state.update(key_state, new_game_clicked));
                let ui = if let WalkTheDogStateMachine::Ready(_) = next {
                    Some(UiAction::HideNewGameButton)
                } else {
                    None
                };
                (next, ui)
            },
        }
    }
}

/// Why a session could not start.
#[derive(Clone, Copy, Debug, PartialEq, Eq, Structural)]
pub enum GameError {
    /// The session had already been started.
    AlreadyInitialized,
    /// The stone is narrower than nothing or wider than `MAX_STONE_WIDTH`, or
    /// the background is narrower than one frame of scrolling or wider than
    /// `MAX_BACKGROUND_WIDTH`: the game could not scroll them within `i16`.
    UnsupportedImageSize,
    /// The runner's sheet lacks a cell of one of its animations, or holds one
    /// whose boxes leave `i16`.
    MissingAnimationCell,
}

/// What a session is built from, once loaded.
pub struct GameAssets {
    /// The runner's sprite sheet.
    pub rhb_sheet: Sheet,
    /// The size of the background picture.
    pub background: ImageSize,
    /// The size of the stone picture.
    pub stone: ImageSize,
    /// The sprite sheet of the platforms.
    pub tiles: SpriteSheet,
}

/// The game: no session before it is initialized, then a session in some phase.
pub struct WalkTheDog {
    pub machine: Option<WalkTheDogStateMachine>,
}

impl WalkTheDog {
    pub open spec fn wf(self) -> bool {
        match self.machine {
            Some(m) => m.wf(),
            None => true,
        }
    }

    pub fn new() -> (r: Self)
        ensures
            r.machine is None,
    {
        WalkTheDog { machine: None }
    }

    /// Starts a session from loaded assets; a game that already has one is
    /// refused, as are pictures whose sizes the game cannot scroll.
    pub fn intialize(&self, assets: GameAssets) -> (r: Result<WalkTheDog, GameError>)
        ensures
            self.machine is Some ==> r == Err::<WalkTheDog, GameError>(GameError::AlreadyInitialized),
            self.machine is None && !(stone_ok(assets.stone) && background_ok(assets.background))
                ==> r == Err::<WalkTheDog, GameError>(GameError::UnsupportedImageSize),
            self.machine is None && stone_ok(assets.stone) && background_ok(assets.background)
                && !sheet_complete(assets.rhb_sheet) ==> r == Err::<WalkTheDog, GameError>(
                GameError::MissingAnimationCell,
            ),
            self.machine is None && stone_ok(assets.stone) && background_ok(assets.background)
                && sheet_complete(assets.rhb_sheet) ==> {
                &&& r is Ok
                &&& r->Ok_0.wf()
                &&& r->Ok_0.machine is Some
                &&& r->Ok_0.machine->Some_0.phase() == Phase::Ready
                &&& r->Ok_0.machine->Some_0.scene_of().rhb.is_fresh(assets.rhb_sheet)
                &&& r->Ok_0.machine->Some_0.scene_of().backgrounds@[0] == (Image {
                    element: assets.background,
                    position: Point { x: 0, y: 0 },
                })
                &&& r->Ok_0.machine->Some_0.scene_of().backgrounds@[1] == (Image {
                    element: assets.background,
                    position: Point { x: assets.background.width, y: 0 },
                })
                &&& is_segment(
                    r->Ok_0.machine->Some_0.scene_of().obstacles@,
                    0,
                    assets.stone,
                    assets.tiles,
                    CANVAS_SIZE as int,
                )
                &&& r->Ok_0.machine->Some_0.scene_of().timeline == rightmost_edge(
                    r->Ok_0.machine->Some_0.scene_of().obstacles@,
                ) + OBSTACLE_BUFFER
            },
    {
        match self.machine {
            None => {
                if !(0 <= assets.stone.width && assets.stone.width <= MAX_STONE_WIDTH
                    && RUNNING_SPEED <= assets.background.width && assets.background.width
                    <= MAX_BACKGROUND_WIDTH) {
                    return Err(GameError::UnsupportedImageSize);
                }
                if !sheet_is_complete(&assets.rhb_sheet) {
                    return Err(GameError::MissingAnimationCell);
                }
                let scene = Scene::new(assets.rhb_sheet, assets.background, assets.stone, assets.tiles);
                Ok(
                    WalkTheDog {
                        machine: Some(WalkTheDogStateMachine::Ready(WalkTheDogState { _state: Ready, scene })),
                    },
                )
            },
            Some(_) => Err(GameError::AlreadyInitialized),
        }
    }

    /// Plays one frame of the session and says what the page should show or hide.
    pub fn update(&mut self, key_state: &KeyState, new_game_clicked: bool) -> (r: Option<UiAction>)
        requires
            old(self).wf(),
            old(self).machine is Some,
        ensures
            final(self).wf(),
            final(self).machine is Some,
            old(self).machine->Some_0.session_step(
                final(self).machine->Some_0,
                r,
                *key_state,
                new_game_clicked,
            ),
    {
        let machine = self.machine.take().unwrap();
        let (next, ui) = machine.update(key_state, new_game_clicked);
        self.machine = Some(next);
        ui
    }
}

} // verus!
