use vstd::prelude::*;

use crate::character::{fits_i16, valid_landing, Event, CANVAS_SIZE, LOWEST_LANDING_TOP, PLAYER_HEIGHT, RUNNING_SPEED};
use crate::engine::{Cell, Collider, Image, Point, Rect, SpriteSheet};
use crate::red_hat_boy::{fired, RedHatBoy};

verus! {

/// How far left of its right edge a scrolling obstacle may reach: while the right
/// edge is on the canvas, a step left at running speed stays within `i16`.
pub const SCROLL_SPAN: i16 = 32767 - RUNNING_SPEED;

/// `r` moved by `distance` along the x axis.
pub open spec fn shifted(r: Rect, distance: int) -> Rect {
    Rect { position: Point { x: (r.position.x + distance) as i16, y: r.position.y }, ..r }
}

/// Something the runner can meet on its way.
pub trait Obstacle: Sized {
    /// The obstacle's own bounds hold.
    spec fn wf(&self) -> bool;

    /// The rightmost edge of what the runner can collide with.
    spec fn right_edge(&self) -> int;

    /// The leftmost edge of what the runner can collide with.
    spec fn left_edge(&self) -> int;

    /// Every coordinate stays within `i16` after a move by `distance`.
    spec fn can_move(&self, distance: int) -> bool;

    /// Every coordinate that moves lies within `SCROLL_SPAN` left of the right
    /// edge, and no box has a negative width.
    spec fn scroll_ok(&self) -> bool;

    /// `after` is this obstacle moved by `distance`.
    spec fn moved(&self, after: &Self, distance: int) -> bool;

    /// `after` is what meeting this obstacle makes of the runner `before`.
    spec fn meets(&self, before: RedHatBoy, after: RedHatBoy) -> bool;

    /// Lets the obstacle act on the runner if they touch.
    fn check_intersection(&self, rhb: &mut RedHatBoy)
        requires
            self.wf(),
            old(rhb).wf(),
            old(rhb).spec_bounding_box() is Some,
        ensures
            final(rhb).wf(),
            self.meets(*old(rhb), *final(rhb)),
    ;

    fn move_horisontally(&mut self, distance: i16)
        requires
            old(self).wf(),
            old(self).can_move(distance as int),
        ensures
            final(self).wf(),
            old(self).moved(&*final(self), distance as int),
            old(self).scroll_ok() ==> final(self).scroll_ok(),
    ;

    fn right(&self) -> (r: i16)
        requires
            self.wf(),
        ensures
            r == self.right_edge(),
    ;
}

/// A cell of a platform's picture and where it is drawn from the platform's position.
#[derive(Clone, Copy, Debug, PartialEq, Eq, Structural)]
pub struct Sprite {
    pub cell: Cell,
    pub offset: Point,
}

/// The largest right edge among `boxes`, or 0 when there are none.
pub open spec fn max_right(boxes: Seq<Rect>) -> int
    decreases boxes.len(),
{
    if boxes.len() == 0 {
        0
    } else if boxes.len() == 1 {
        boxes[0].right_edge()
    } else {
        let rest = max_right(boxes.drop_last());
        let last = boxes.last().right_edge();
        if rest >= last {
            rest
        } else {
            last
        }
    }
}

/// The least left edge among `boxes`, or 0 when there are none.
pub open spec fn min_left(boxes: Seq<Rect>) -> int
    decreases boxes.len(),
{
    if boxes.len() == 0 {
        0
    } else if boxes.len() == 1 {
        boxes[0].position.x as int
    } else {
        let rest = min_left(boxes.drop_last());
        let last = boxes.last().position.x as int;
        if rest <= last {
            rest
        } else {
            last
        }
    }
}

pub proof fn lemma_max_right(boxes: Seq<Rect>)
    requires
        boxes.len() > 0,
    ensures
        forall|i: int| 0 <= i < boxes.len() ==> #[trigger] boxes[i].right_edge() <= max_right(boxes),
        exists|i: int| 0 <= i < boxes.len() && #[trigger] boxes[i].right_edge() == max_right(boxes),
    decreases boxes.len(),
{
    if boxes.len() > 1 {
        let d = boxes.drop_last();
        lemma_max_right(d);
        assert forall|i: int| 0 <= i < boxes.len() implies #[trigger] boxes[i].right_edge()
            <= max_right(boxes) by {
            if i < boxes.len() - 1 {
                assert(boxes[i] == d[i]);
            }
        }
        let k = choose|k: int| 0 <= k < d.len() && #[trigger] d[k].right_edge() == max_right(d);
        assert(boxes[k] == d[k]);
        if max_right(d) < boxes.last().right_edge() {
            assert(boxes[boxes.len() - 1].right_edge() == max_right(boxes));
        } else {
            assert(boxes[k].right_edge() == max_right(boxes));
        }
    } else {
        assert(boxes[0].right_edge() == max_right(boxes));
    }
}

/// `i` is the first of `boxes` that `b` overlaps.
pub open spec fn is_first_overlap(boxes: Seq<Rect>, b: Rect, i: int) -> bool {
    &&& 0 <= i < boxes.len()
    &&& b.overlaps(boxes[i])
    &&& forall|j: int| 0 <= j < i ==> !b.overlaps(#[trigger] boxes[j])
}

/// Where among `boxes` the first one that `b` overlaps is.
fn first_overlap(boxes: &Vec<Rect>, b: &Rect) -> (r: Option<usize>)
    ensures
        match r {
            Some(i) => is_first_overlap(boxes@, *b, i as int),
            None => forall|j: int| 0 <= j < boxes@.len() ==> !b.overlaps(#[trigger] boxes@[j]),
        },
{
    let mut i: usize = 0;
    while i < boxes.len()
        invariant
            0 <= i <= boxes@.len(),
            forall|j: int| 0 <= j < i ==> !b.overlaps(#[trigger] boxes@[j]),
        decreases boxes.len() - i,
    {
        if b.intersects(&boxes[i]) {
            return Some(i);
        }
        i = i + 1;
    }
    None
}

/// A floating platform: boxes the runner can land on, and the cells that draw it.
pub struct Platform {
    pub bounding_boxes: Vec<Rect>,
    pub sprites: Vec<Sprite>,
    pub position: Point,
}

/// The cells of `names` that `sheet` has, in order, each with the offset at the
/// same place among those found.
pub open spec fn found_sprites(sheet: SpriteSheet, names: Seq<Seq<char>>, offsets: Seq<Point>) -> Seq<
    Sprite,
> {
    let cells = names.filter_map(|n: Seq<char>| sheet.sheet.lookup(n));
    Seq::new(
        if cells.len() <= offsets.len() {
            cells.len()
        } else {
            offsets.len()
        },
        |i: int| Sprite { cell: cells[i], offset: offsets[i] },
    )
}

/// A box given relative to a platform's position can be placed there: its
/// corner and its right edge, moved by the position, stay within `i16`.
pub open spec fn placeable_box(b: Rect, position: Point) -> bool {
    &&& fits_i16(b.position.x + position.x)
    &&& fits_i16(b.right_edge() + position.x)
    &&& fits_i16(b.position.y + position.y)
}

/// `b` placed with its corner moved by `position`.
pub open spec fn placed_box(b: Rect, position: Point) -> Rect {
    Rect::new_spec(
        (b.position.x + position.x) as i16,
        (b.position.y + position.y) as i16,
        b.width,
        b.height,
    )
}

impl Platform {
    /// Builds a platform at `position` from boxes given relative to it and
    /// from the named cells of `sheet` with their offsets; names the sheet lacks
    /// are skipped, and cells and offsets pair up in order until either runs
    /// out.
    pub fn new(
        sheet: &SpriteSheet,
        bounding_boxes: &[Rect],
        sprite_names: &[&str],
        offsets: &[Point],
        position: Point,
    ) -> (r: Platform)
        requires
            forall|i: int|
                0 <= i < bounding_boxes@.len() ==> placeable_box(#[trigger] bounding_boxes@[i], position),
        ensures
            r.wf(),
            r.position == position,
            r.bounding_boxes@ == bounding_boxes@.map_values(|b: Rect| placed_box(b, position)),
            r.sprites@ == found_sprites(
                *sheet,
                sprite_names@.map_values(|n: &str| n@),
                offsets@,
            ),
    {
        let mut boxes: Vec<Rect> = Vec::new();
        let mut i: usize = 0;
        while i < bounding_boxes.len()
            invariant
                0 <= i <= bounding_boxes@.len(),
                forall|k: int|
                    0 <= k < bounding_boxes@.len() ==> placeable_box(#[trigger] bounding_boxes@[k], position),
                boxes@ == bounding_boxes@.subrange(0, i as int).map_values(|b: Rect| placed_box(b, position)),
            decreases bounding_boxes.len() - i,
        {
            let b = bounding_boxes[i];
            boxes.push(Rect::new_from_x_y(b.x() + position.x, b.y() + position.y, b.width, b.height));
            assert(bounding_boxes@.subrange(0, i + 1) =~= bounding_boxes@.subrange(0, i as int).push(b));
            i = i + 1;
            assert(boxes@ =~= bounding_boxes@.subrange(0, i as int).map_values(|b: Rect| placed_box(b, position)));
        }
        assert(bounding_boxes@.subrange(0, i as int) =~= bounding_boxes@);
        let ghost names = sprite_names@.map_values(|n: &str| n@);
        let ghost lookup = |n: Seq<char>| sheet.sheet.lookup(n);
        let mut cells: Vec<Cell> = Vec::new();
        let mut j: usize = 0;
        while j < sprite_names.len()
            invariant
                0 <= j <= sprite_names@.len(),
                names == sprite_names@.map_values(|n: &str| n@),
                lookup == (|n: Seq<char>| sheet.sheet.lookup(n)),
                cells@ == names.subrange(0, j as int).filter_map(lookup),
            decreases sprite_names.len() - j,
        {
            let found = sheet.cell(sprite_names[j]);
            assert(names.subrange(0, j + 1).drop_last() =~= names.subrange(0, j as int));
            assert(names.subrange(0, j + 1).last() == sprite_names@[j as int]@);
            if let Some(cell) = found {
                cells.push(cell);
            }
            j = j + 1;
            assert(cells@ =~= names.subrange(0, j as int).filter_map(lookup));
        }
        assert(names.subrange(0, j as int) =~= names);
        let mut sprites: Vec<Sprite> = Vec::new();
        let mut k: usize = 0;
        while k < cells.len() && k < offsets.len()
            invariant
                0 <= k <= cells@.len(),
                k <= offsets@.len(),
                sprites@ == Seq::new(k as nat, |i: int| Sprite { cell: cells@[i], offset: offsets@[i] }),
            decreases cells.len() - k,
        {
            sprites.push(Sprite { cell: cells[k], offset: offsets[k] });
            k = k + 1;
            assert(sprites@ =~= Seq::new(k as nat, |i: int| Sprite { cell: cells@[i], offset: offsets@[i] }));
        }
        assert(sprites@ =~= found_sprites(*sheet, names, offsets@));
        Platform { bounding_boxes: boxes, sprites, position }
    }

    /// Where `sprite` is drawn on the canvas: its cell's size at the platform's
    /// position moved by the sprite's offset, when that fits `i16`.
    pub fn sprite_destination(&self, sprite: &Sprite) -> (r: Option<Rect>)
        ensures
            r == (if fits_i16(self.position.x + sprite.offset.x) && fits_i16(
                self.position.y + sprite.offset.y,
            ) {
                Some(
                    Rect::new_spec(
                        (self.position.x + sprite.offset.x) as i16,
                        (self.position.y + sprite.offset.y) as i16,
                        sprite.cell.frame.w,
                        sprite.cell.frame.h,
                    ),
                )
            } else {
                None
            }),
    {
        let x = self.position.x as i32 + sprite.offset.x as i32;
        let y = self.position.y as i32 + sprite.offset.y as i32;
        if -32768 <= x && x <= 32767 && -32768 <= y && y <= 32767 {
            Some(sprite.cell.rect_start_x_y(x as i16, y as i16))
        } else {
            None
        }
    }

    /// Whether the runner `rhb`, falling from above the platform, can come down
    /// on the box `b`: the box's top is a height on which it may land.
    pub open spec fn falls_onto(self, rhb: RedHatBoy, b: Rect) -> bool {
        &&& rhb.ctx().velocity.y > 0
        &&& rhb.ctx().position.y < self.position.y
        &&& valid_landing(b.position.y)
    }
}

impl Obstacle for Platform {
    open spec fn wf(&self) -> bool {
        forall|i: int| 0 <= i < self.bounding_boxes@.len() ==> (#[trigger] self.bounding_boxes@[i]).right_fits()
    }

    open spec fn right_edge(&self) -> int {
        max_right(self.bounding_boxes@)
    }

    open spec fn left_edge(&self) -> int {
        min_left(self.bounding_boxes@)
    }

    open spec fn can_move(&self, distance: int) -> bool {
        &&& fits_i16(self.position.x + distance)
        &&& forall|i: int|
            0 <= i < self.bounding_boxes@.len() ==> fits_i16(
                #[trigger] self.bounding_boxes@[i].position.x + distance,
            ) && fits_i16(self.bounding_boxes@[i].right_edge() + distance)
    }

    open spec fn scroll_ok(&self) -> bool {
        &&& self.bounding_boxes@.len() > 0
        &&& self.position.x >= max_right(self.bounding_boxes@) - SCROLL_SPAN
        &&& forall|i: int|
            0 <= i < self.bounding_boxes@.len() ==> 0 <= (#[trigger] self.bounding_boxes@[i]).width
                && self.bounding_boxes@[i].position.x >= max_right(self.bounding_boxes@) - SCROLL_SPAN
    }

    open spec fn moved(&self, after: &Self, distance: int) -> bool {
        &&& after.position == (Point { x: (self.position.x + distance) as i16, y: self.position.y })
        &&& after.sprites@ == self.sprites@
        &&& after.bounding_boxes@ == self.bounding_boxes@.map_values(|b: Rect| shifted(b, distance))
    }

    /// The runner lands on the first box it touches, when it falls from above
    /// the platform onto a height it may land on; otherwise nothing happens.
    open spec fn meets(&self, before: RedHatBoy, after: RedHatBoy) -> bool {
        let b = before.spec_bounding_box()->0;
        if exists|i: int| 0 <= i < self.bounding_boxes@.len() && b.overlaps(#[trigger] self.bounding_boxes@[i]) {
            exists|i: int|
                #[trigger] is_first_overlap(self.bounding_boxes@, b, i) && if self.falls_onto(
                    before,
                    self.bounding_boxes@[i],
                ) {
                    fired(before, after, Event::Land(self.bounding_boxes@[i].position.y))
                } else {
                    after == before
                }
        } else {
            after == before
        }
    }

    fn check_intersection(&self, rhb: &mut RedHatBoy) {
        if let Some(b) = rhb.bounding_box() {
            if let Some(i) = first_overlap(&self.bounding_boxes, &b) {
                let y = self.bounding_boxes[i].y();
                assert(is_first_overlap(self.bounding_boxes@, b, i as int));
                if rhb.velocity_y() > 0 && rhb.pos_y() < self.position.y && LOWEST_LANDING_TOP
                    + PLAYER_HEIGHT <= y && y <= CANVAS_SIZE {
                    rhb.land_on(y);
                }
            }
        }
    }

    fn move_horisontally(&mut self, distance: i16) {
        let ghost before = *self;
        self.position.x = self.position.x + distance;
        let mut i: usize = 0;
        while i < self.bounding_boxes.len()
            invariant
                0 <= i <= self.bounding_boxes@.len(),
                self.bounding_boxes@.len() == before.bounding_boxes@.len(),
                self.position == (Point { x: (before.position.x + distance) as i16, y: before.position.y }),
                self.sprites@ == before.sprites@,
                before.can_move(distance as int),
                before.wf(),
                forall|k: int| 0 <= k < i ==> #[trigger] self.bounding_boxes@[k] == shifted(before.bounding_boxes@[k], distance as int),
                forall|k: int| i <= k < self.bounding_boxes@.len() ==> #[trigger] self.bounding_boxes@[k] == before.bounding_boxes@[k],
            decreases self.bounding_boxes.len() - i,
        {
            let mut b = self.bounding_boxes[i];
            assert(before.bounding_boxes@[i as int] == b);
            b.set_x(b.x() + distance);
            self.bounding_boxes.set(i, b);
            i = i + 1;
        }
        proof {
            assert(self.bounding_boxes@ =~= before.bounding_boxes@.map_values(|b: Rect| shifted(b, distance as int)));
            lemma_max_right_shifted(before.bounding_boxes@, distance as int);
            if before.scroll_ok() {
                assert forall|k: int| 0 <= k < self.bounding_boxes@.len() implies 0 <= (
                #[trigger] self.bounding_boxes@[k]).width && self.bounding_boxes@[k].position.x
                    >= max_right(self.bounding_boxes@) - SCROLL_SPAN by {
                    assert(before.bounding_boxes@[k].position.x >= max_right(before.bounding_boxes@) - SCROLL_SPAN);
                }
            }
        }
    }

    fn right(&self) -> (r: i16) {
        let n = self.bounding_boxes.len();
        if n == 0 {
            return 0;
        }
        let mut best = self.bounding_boxes[0].right();
        let mut i: usize = 1;
        assert(self.bounding_boxes@.subrange(0, 1).drop_last().len() == 0);
        while i < n
            invariant
                1 <= i <= n,
                n == self.bounding_boxes@.len(),
                self.wf(),
                best == max_right(self.bounding_boxes@.subrange(0, i as int)),
            decreases n - i,
        {
            let next = self.bounding_boxes[i].right();
            assert(self.bounding_boxes@.subrange(0, i + 1).drop_last() =~= self.bounding_boxes@.subrange(0, i as int));
            if next > best {
                best = next;
            }
            i = i + 1;
        }
        assert(self.bounding_boxes@.subrange(0, n as int) =~= self.bounding_boxes@);
        best
    }
}

proof fn lemma_max_right_shifted(boxes: Seq<Rect>, distance: int)
    requires
        forall|i: int| 0 <= i < boxes.len() ==> fits_i16(#[trigger] boxes[i].position.x + distance),
    ensures
        boxes.len() > 0 ==> max_right(boxes.map_values(|b: Rect| shifted(b, distance))) == max_right(boxes) + distance,
    decreases boxes.len(),
{
    let m = boxes.map_values(|b: Rect| shifted(b, distance));
    if boxes.len() > 1 {
        let d = boxes.drop_last();
        assert(m.drop_last() =~= d.map_values(|b: Rect| shifted(b, distance)));
        lemma_max_right_shifted(d, distance);
    }
}

/// A stone: touching it knocks the runner out.
pub struct Barrier {
    pub collider: Collider,
}

impl From<Image> for Barrier {
    fn from(image: Image) -> (r: Barrier) {
        Barrier { collider: Collider::from(image) }
    }
}

impl vstd::std_specs::convert::FromSpecImpl<Image> for Barrier {
    open spec fn obeys_from_spec() -> bool {
        true
    }

    open spec fn from_spec(image: Image) -> Barrier {
        Barrier { collider: Collider { image, bounding_box: image.area() } }
    }
}

impl Obstacle for Barrier {
    open spec fn wf(&self) -> bool {
        &&& self.collider.wf()
        &&& self.collider.bounding_box.right_fits()
    }

    open spec fn scroll_ok(&self) -> bool {
        0 <= self.collider.bounding_box.width <= SCROLL_SPAN
    }

    open spec fn right_edge(&self) -> int {
        self.collider.bounding_box.right_edge()
    }

    open spec fn left_edge(&self) -> int {
        self.collider.bounding_box.position.x as int
    }

    open spec fn can_move(&self, distance: int) -> bool {
        &&& fits_i16(self.collider.bounding_box.position.x + distance)
        &&& fits_i16(self.collider.bounding_box.right_edge() + distance)
    }

    open spec fn moved(&self, after: &Self, distance: int) -> bool {
        after.collider.bounding_box == shifted(self.collider.bounding_box, distance)
    }

    /// Touching the stone knocks the runner out; otherwise nothing happens.
    open spec fn meets(&self, before: RedHatBoy, after: RedHatBoy) -> bool {
        if before.spec_bounding_box()->0.overlaps(
            self.collider.bounding_box,
        ) {
            fired(before, after, Event::KnockOut)
        } else {
            after == before
        }
    }

    fn check_intersection(&self, rhb: &mut RedHatBoy) {
        if let Some(b) = rhb.bounding_box() {
            if b.intersects(self.collider.bounding_box()) {
                rhb.knock_out();
            }
        }
    }

    fn move_horisontally(&mut self, distance: i16) {
        self.collider.move_horisontally(distance);
    }

    fn right(&self) -> (r: i16) {
        self.collider.bounding_box().right()
    }
}

/// One obstacle of a scene.
pub enum AnyObstacle {
    Platform(Platform),
    Barrier(Barrier),
}

impl Obstacle for AnyObstacle {
    open spec fn wf(&self) -> bool {
        match self {
            AnyObstacle::Platform(p) => p.wf(),
            AnyObstacle::Barrier(b) => b.wf(),
        }
    }

    open spec fn right_edge(&self) -> int {
        match self {
            AnyObstacle::Platform(p) => p.right_edge(),
            AnyObstacle::Barrier(b) => b.right_edge(),
        }
    }

    open spec fn left_edge(&self) -> int {
        match self {
            AnyObstacle::Platform(p) => p.left_edge(),
            AnyObstacle::Barrier(b) => b.left_edge(),
        }
    }

    open spec fn can_move(&self, distance: int) -> bool {
        match self {
            AnyObstacle::Platform(p) => p.can_move(distance),
            AnyObstacle::Barrier(b) => b.can_move(distance),
        }
    }

    open spec fn scroll_ok(&self) -> bool {
        match self {
            AnyObstacle::Platform(p) => p.scroll_ok(),
            AnyObstacle::Barrier(b) => b.scroll_ok(),
        }
    }

    open spec fn moved(&self, after: &Self, distance: int) -> bool {
        match (self, after) {
            (AnyObstacle::Platform(p), AnyObstacle::Platform(q)) => p.moved(q, distance),
            (AnyObstacle::Barrier(b), AnyObstacle::Barrier(c)) => b.moved(c, distance),
            _ => false,
        }
    }

    open spec fn meets(&self, before: RedHatBoy, after: RedHatBoy) -> bool {
        match self {
            AnyObstacle::Platform(p) => p.meets(before, after),
            AnyObstacle::Barrier(b) => b.meets(before, after),
        }
    }

    fn check_intersection(&self, rhb: &mut RedHatBoy) {
        match self {
            AnyObstacle::Platform(p) => p.check_intersection(rhb),
            AnyObstacle::Barrier(b) => b.check_intersection(rhb),
        }
    }

    fn move_horisontally(&mut self, distance: i16) {
        match self {
            AnyObstacle::Platform(p) => p.move_horisontally(distance),
            AnyObstacle::Barrier(b) => b.move_horisontally(distance),
        }
    }

    fn right(&self) -> (r: i16) {
        match self {
            AnyObstacle::Platform(p) => p.right(),
            AnyObstacle::Barrier(b) => b.right(),
        }
    }
}

/// The largest right edge among `obstacles`, or 0 when there are none.
pub open spec fn rightmost_edge(obstacles: Seq<AnyObstacle>) -> int
    decreases obstacles.len(),
{
    if obstacles.len() == 0 {
        0
    } else if obstacles.len() == 1 {
        obstacles[0].right_edge()
    } else {
        let rest = rightmost_edge(obstacles.drop_last());
        let last = obstacles.last().right_edge();
        if rest >= last {
            rest
        } else {
            last
        }
    }
}

/// The rightmost edge of a list of obstacles, 0 for an empty list.
pub fn rightmost(obstacle_list: &Vec<AnyObstacle>) -> (r: i16)
    requires
        forall|i: int| 0 <= i < obstacle_list@.len() ==> (#[trigger] obstacle_list@[i]).wf(),
    ensures
        r == rightmost_edge(obstacle_list@),
{
    let n = obstacle_list.len();
    if n == 0 {
        return 0;
    }
    let mut best = obstacle_list[0].right();
    assert(obstacle_list@.subrange(0, 1).drop_last().len() == 0);
    let mut i: usize = 1;
    while i < n
        invariant
            1 <= i <= n,
            n == obstacle_list@.len(),
            forall|k: int| 0 <= k < obstacle_list@.len() ==> (#[trigger] obstacle_list@[k]).wf(),
            best == rightmost_edge(obstacle_list@.subrange(0, i as int)),
        decreases n - i,
    {
        let next = obstacle_list[i].right();
        assert(obstacle_list@.subrange(0, i + 1).drop_last() =~= obstacle_list@.subrange(0, i as int));
        if next > best {
            best = next;
        }
        i = i + 1;
    }
    assert(obstacle_list@.subrange(0, n as int) =~= obstacle_list@);
    best
}

pub proof fn lemma_rightmost_edge(obstacles: Seq<AnyObstacle>)
    requires
        obstacles.len() > 0,
    ensures
        forall|i: int| 0 <= i < obstacles.len() ==> #[trigger] obstacles[i].right_edge() <= rightmost_edge(obstacles),
        exists|i: int| 0 <= i < obstacles.len() && #[trigger] obstacles[i].right_edge() == rightmost_edge(obstacles),
    decreases obstacles.len(),
{
    if obstacles.len() > 1 {
        let d = obstacles.drop_last();
        lemma_rightmost_edge(d);
        assert forall|i: int| 0 <= i < obstacles.len() implies #[trigger] obstacles[i].right_edge()
            <= rightmost_edge(obstacles) by {
            if i < obstacles.len() - 1 {
                assert(obstacles[i] == d[i]);
            }
        }
        let k = choose|k: int| 0 <= k < d.len() && #[trigger] d[k].right_edge() == rightmost_edge(d);
        assert(obstacles[k] == d[k]);
        if rightmost_edge(d) < obstacles.last().right_edge() {
            assert(obstacles[obstacles.len() - 1].right_edge() == rightmost_edge(obstacles));
        } else {
            assert(obstacles[k].right_edge() == rightmost_edge(obstacles));
        }
    } else {
        assert(obstacles[0].right_edge() == rightmost_edge(obstacles));
    }
}

} // verus!
