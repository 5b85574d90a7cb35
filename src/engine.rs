use vstd::prelude::*;
use vstd::string::StringExecFns;

verus! {

/// A point on the canvas.
#[derive(Clone, Copy, Debug, PartialEq, Eq, Structural)]
pub struct Point {
    pub x: i16,
    pub y: i16,
}

/// An axis-aligned box given by its top-left corner and its size.
#[derive(Clone, Copy, Debug, PartialEq, Eq, Structural)]
pub struct Rect {
    pub position: Point,
    pub width: i16,
    pub height: i16,
}

/// Open-interval overlap of `[a, a + aw)` and `[b, b + bw)` on one axis.
pub open spec fn spans_overlap(a: int, aw: int, b: int, bw: int) -> bool {
    a < b + bw && b < a + aw
}

impl Rect {
    /// Left edge.
    pub open spec fn left(self) -> int {
        self.position.x as int
    }

    /// Top edge.
    pub open spec fn top(self) -> int {
        self.position.y as int
    }

    /// Right edge, `x + width`, as a mathematical integer.
    pub open spec fn right_edge(self) -> int {
        self.position.x + self.width
    }

    /// Bottom edge, `y + height`, as a mathematical integer.
    pub open spec fn bottom_edge(self) -> int {
        self.position.y + self.height
    }

    /// The two boxes share some area: they overlap on both axes, with strict bounds.
    pub open spec fn overlaps(self, other: Rect) -> bool {
        spans_overlap(self.left(), self.width as int, other.left(), other.width as int)
            && spans_overlap(self.top(), self.height as int, other.top(), other.height as int)
    }

    /// The right edge fits in the coordinate type.
    pub open spec fn right_fits(self) -> bool {
        i16::MIN <= self.right_edge() <= i16::MAX
    }

    /// The box with corner `(x, y)` and the given size.
    pub open spec fn new_spec(x: i16, y: i16, width: i16, height: i16) -> Rect {
        Rect { position: Point { x, y }, width, height }
    }

    pub fn new(position: Point, width: i16, height: i16) -> (r: Rect)
        ensures
            r == (Rect { position, width, height }),
    {
        Rect { position, width, height }
    }

    pub fn new_from_x_y(x: i16, y: i16, width: i16, height: i16) -> (r: Rect)
        ensures
            r == (Rect { position: Point { x, y }, width, height }),
    {
        Rect::new(Point { x, y }, width, height)
    }

    pub fn x(&self) -> (r: i16)
        ensures
            r == self.position.x,
    {
        self.position.x
    }

    pub fn set_x(&mut self, x: i16)
        ensures
            *final(self) == (Rect { position: Point { x, y: old(self).position.y }, ..*old(self) }),
    {
        self.position.x = x;
    }

    pub fn y(&self) -> (r: i16)
        ensures
            r == self.position.y,
    {
        self.position.y
    }

    pub fn intersects(&self, other: &Rect) -> (r: bool)
        ensures
            r == self.overlaps(*other),
    {
        (self.x() as i32) < other.x() as i32 + other.width as i32
            && (other.x() as i32) < self.x() as i32 + self.width as i32
            && (self.y() as i32) < other.y() as i32 + other.height as i32
            && (other.y() as i32) < self.y() as i32 + self.height as i32
    }

    pub fn right(&self) -> (r: i16)
        requires
            self.right_fits(),
        ensures
            r == self.right_edge(),
    {
        self.x() + self.width
    }
}

/// Overlap does not depend on the order of the two boxes.
pub proof fn lemma_intersects_symmetric(a: Rect, b: Rect)
    ensures
        a.overlaps(b) == b.overlaps(a),
{
}

/// Boxes that only touch along an edge, one ending where the other begins on
/// either axis, do not overlap.
pub proof fn lemma_touching_edges_do_not_intersect(a: Rect, b: Rect)
    requires
        a.right_edge() == b.left() || b.right_edge() == a.left() || a.bottom_edge() == b.top()
            || b.bottom_edge() == a.top(),
    ensures
        !a.overlaps(b),
        !b.overlaps(a),
{
}

/// The size of a loaded picture: what the game logic reads of it.
#[derive(Clone, Copy, Debug, PartialEq, Eq, Structural)]
pub struct ImageSize {
    pub width: i16,
    pub height: i16,
}

/// A picture placed on the canvas.
#[derive(Clone, Copy, Debug)]
pub struct Image {
    pub element: ImageSize,
    pub position: Point,
}

impl Image {
    pub fn new(element: ImageSize, position: Point) -> (r: Image)
        ensures
            r == (Image { element, position }),
    {
        Image { element, position }
    }

    /// The box that the picture covers.
    pub open spec fn area(self) -> Rect {
        Rect { position: self.position, width: self.element.width, height: self.element.height }
    }

    /// Moves the picture by `distance` along the x axis.
    pub fn move_horisontally(&mut self, distance: i16)
        requires
            i16::MIN <= old(self).position.x + distance <= i16::MAX,
        ensures
            final(self).position.x == old(self).position.x + distance,
            final(self).position.y == old(self).position.y,
            final(self).element == old(self).element,
    {
        self.set_x(self.position.x + distance);
    }

    pub fn set_x(&mut self, x: i16)
        ensures
            final(self).position == (Point { x, y: old(self).position.y }),
            final(self).element == old(self).element,
    {
        self.position.x = x;
    }

    pub fn right(&self) -> (r: i16)
        requires
            self.area().right_fits(),
        ensures
            r == self.area().right_edge(),
    {
        self.position.x + self.element.width
    }
}

/// A picture that takes part in collisions, with the box it occupies.
#[derive(Clone, Copy, Debug)]
pub struct Collider {
    pub image: Image,
    pub bounding_box: Rect,
}

impl Collider {
    /// The box is the picture's own area.
    pub open spec fn wf(self) -> bool {
        self.bounding_box == self.image.area()
    }

    pub fn new(image: Image) -> (r: Collider)
        ensures
            r.image == image,
            r.bounding_box == image.area(),
            r.wf(),
    {
        let bounding_box = Rect::new_from_x_y(
            image.position.x,
            image.position.y,
            image.element.width,
            image.element.height,
        );
        Collider { image, bounding_box }
    }

    pub fn bounding_box(&self) -> (r: &Rect)
        ensures
            *r == self.bounding_box,
    {
        &self.bounding_box
    }

    /// Moves the picture and its box together.
    pub fn move_horisontally(&mut self, distance: i16)
        requires
            old(self).wf(),
            i16::MIN <= old(self).bounding_box.position.x + distance <= i16::MAX,
        ensures
            final(self).wf(),
            final(self).bounding_box == (Rect {
                position: Point {
                    x: (old(self).bounding_box.position.x + distance) as i16,
                    y: old(self).bounding_box.position.y,
                },
                ..old(self).bounding_box
            }),
    {
        self.bounding_box.set_x(self.bounding_box.x() + distance);
        self.image.move_horisontally(distance);
    }
}

impl From<Image> for Collider {
    fn from(image: Image) -> (r: Collider) {
        Collider::new(image)
    }
}

impl vstd::std_specs::convert::FromSpecImpl<Image> for Collider {
    open spec fn obeys_from_spec() -> bool {
        true
    }

    open spec fn from_spec(image: Image) -> Collider {
        Collider { image, bounding_box: image.area() }
    }
}

/// A rectangle as a sprite sheet describes it.
#[derive(Clone, Copy, Debug, PartialEq, Eq, Structural)]
pub struct SheetRect {
    pub x: i16,
    pub y: i16,
    pub w: i16,
    pub h: i16,
}

/// One cell of a sprite sheet: where it lies in the sheet, and the offset at
/// which it is drawn within its untrimmed frame.
#[derive(Clone, Copy, Debug, PartialEq, Eq, Structural)]
pub struct Cell {
    pub frame: SheetRect,
    pub sprite_source_size: SheetRect,
}

impl Cell {
    /// Where the cell lies in the sheet.
    pub fn rect(&self) -> (r: Rect)
        ensures
            r == Rect::new_spec(self.frame.x, self.frame.y, self.frame.w, self.frame.h),
    {
        Rect::new_from_x_y(self.frame.x, self.frame.y, self.frame.w, self.frame.h)
    }

    /// The cell's size placed at `(x, y)`.
    pub fn rect_start_x_y(&self, x: i16, y: i16) -> (r: Rect)
        ensures
            r == Rect::new_spec(x, y, self.frame.w, self.frame.h),
    {
        Rect::new_from_x_y(x, y, self.frame.w, self.frame.h)
    }

    /// The box drawn for the cell when its untrimmed frame starts at `(x, y)`.
    pub open spec fn placed_at(self, x: int, y: int) -> (int, int) {
        (x + self.sprite_source_size.x, y + self.sprite_source_size.y)
    }

    pub fn rect_start_x_y_with_size(&self, x: i16, y: i16) -> (r: Rect)
        requires
            i16::MIN <= self.placed_at(x as int, y as int).0 <= i16::MAX,
            i16::MIN <= self.placed_at(x as int, y as int).1 <= i16::MAX,
        ensures
            r.position.x == self.placed_at(x as int, y as int).0,
            r.position.y == self.placed_at(x as int, y as int).1,
            r.width == self.frame.w,
            r.height == self.frame.h,
    {
        Rect::new_from_x_y(
            x + self.sprite_source_size.x,
            y + self.sprite_source_size.y,
            self.frame.w,
            self.frame.h,
        )
    }
}

/// A named cell of a sheet.
#[derive(Clone, Debug)]
pub struct SheetFrame {
    pub name: String,
    pub cell: Cell,
}

/// The cell that the first frame named `name` holds.
pub open spec fn lookup_frame(frames: Seq<SheetFrame>, name: Seq<char>) -> Option<Cell>
    decreases frames.len(),
{
    if frames.len() == 0 {
        None
    } else if frames[0].name@ == name {
        Some(frames[0].cell)
    } else {
        lookup_frame(frames.drop_first(), name)
    }
}

/// The cells of a sprite sheet, by name.
#[derive(Clone, Debug)]
pub struct Sheet {
    pub frames: Vec<SheetFrame>,
}

impl Sheet {
    /// The cell stored under `name`, if any.
    pub open spec fn lookup(self, name: Seq<char>) -> Option<Cell> {
        lookup_frame(self.frames@, name)
    }

    pub fn new() -> (r: Sheet)
        ensures
            forall|n: Seq<char>| #[trigger] r.lookup(n) == None::<Cell>,
    {
        Sheet { frames: Vec::new() }
    }

    /// Looks a cell up by name.
    pub fn cell(&self, name: &str) -> (r: Option<Cell>)
        ensures
            r == self.lookup(name@),
    {
        let key = <String as StringExecFns>::from_str(name);
        let mut i: usize = 0;
        assert(self.frames@.subrange(0, self.frames@.len() as int) =~= self.frames@);
        while i < self.frames.len()
            invariant
                0 <= i <= self.frames.len(),
                key@ == name@,
                lookup_frame(self.frames@, name@) == lookup_frame(
                    self.frames@.subrange(i as int, self.frames@.len() as int),
                    name@,
                ),
            decreases self.frames.len() - i,
        {
            let ghost rest = self.frames@.subrange(i as int, self.frames@.len() as int);
            assert(rest.drop_first() =~= self.frames@.subrange(
                i + 1,
                self.frames@.len() as int,
            ));
            if self.frames[i].name == key {
                return Some(self.frames[i].cell);
            }
            i = i + 1;
        }
        None
    }

    /// Stores `cell` under `name`, in place of any cell that the name had.
    pub fn insert(&mut self, name: String, cell: Cell)
        ensures
            forall|n: Seq<char>| #[trigger]
                final(self).lookup(n) == if n == name@ {
                    Some(cell)
                } else {
                    old(self).lookup(n)
                },
    {
        let mut i: usize = 0;
        while i < self.frames.len()
            invariant
                0 <= i <= self.frames.len(),
                self.frames@ == old(self).frames@,
                forall|j: int| 0 <= j < i ==> #[trigger] self.frames@[j].name@ != name@,
            decreases self.frames.len() - i,
        {
            if self.frames[i].name == name {
                let ghost before = self.frames@;
                let frame = SheetFrame { name, cell };
                let ghost replaced = frame;
                self.frames.set(i, frame);
                proof {
                    assert forall|n: Seq<char>| #[trigger]
                        self.lookup(n) == if n == name@ {
                            Some(cell)
                        } else {
                            old(self).lookup(n)
                        } by {
                        lemma_lookup_replaced(before, i as int, replaced, n);
                    }
                }
                return;
            }
            i = i + 1;
        }
        let ghost before = self.frames@;
        self.frames.push(SheetFrame { name, cell });
        proof {
            assert forall|n: Seq<char>| #[trigger]
                self.lookup(n) == if n == name@ {
                    Some(cell)
                } else {
                    old(self).lookup(n)
                } by {
                lemma_lookup_appended(before, SheetFrame { name, cell }, n);
            }
        }
    }
}

proof fn lemma_lookup_replaced(frames: Seq<SheetFrame>, i: int, f: SheetFrame, n: Seq<char>)
    requires
        0 <= i < frames.len(),
        f.name@ == frames[i].name@,
        forall|j: int| 0 <= j < i ==> #[trigger] frames[j].name@ != frames[i].name@,
    ensures
        lookup_frame(frames.update(i, f), n) == if n == f.name@ {
            Some(f.cell)
        } else {
            lookup_frame(frames, n)
        },
    decreases i,
{
    let g = frames.update(i, f);
    let d = frames.drop_first();
    if i == 0 {
        assert(g.drop_first() =~= d);
        assert(g[0] == f);
    } else {
        assert(frames[0].name@ != frames[i].name@);
        assert(g[0] == frames[0]);
        assert forall|j: int| 0 <= j < i - 1 implies #[trigger] d[j].name@ != d[i - 1].name@ by {
            assert(d[j] == frames[j + 1]);
        }
        lemma_lookup_replaced(d, i - 1, f, n);
        assert(g.drop_first() =~= d.update(i - 1, f));
    }
}

proof fn lemma_lookup_appended(frames: Seq<SheetFrame>, f: SheetFrame, n: Seq<char>)
    requires
        forall|j: int| 0 <= j < frames.len() ==> #[trigger] frames[j].name@ != f.name@,
    ensures
        lookup_frame(frames.push(f), n) == if n == f.name@ {
            Some(f.cell)
        } else {
            lookup_frame(frames, n)
        },
    decreases frames.len(),
{
    if frames.len() == 0 {
        assert(frames.push(f).drop_first() =~= frames);
    } else {
        let d = frames.drop_first();
        assert forall|j: int| 0 <= j < d.len() implies #[trigger] d[j].name@ != f.name@ by {
            assert(d[j] == frames[j + 1]);
        }
        lemma_lookup_appended(d, f, n);
        assert(frames.push(f).drop_first() =~= d.push(f));
        assert(frames.push(f)[0] == frames[0]);
    }
}

/// A sprite sheet shared by the obstacles that are drawn from it.
#[derive(Clone, Debug)]
pub struct SpriteSheet {
    pub sheet: Sheet,
}

impl SpriteSheet {
    pub fn new(sheet: Sheet) -> (r: SpriteSheet)
        ensures
            r.sheet == sheet,
    {
        SpriteSheet { sheet }
    }

    pub fn cell(&self, name: &str) -> (r: Option<Cell>)
        ensures
            r == self.sheet.lookup(name@),
    {
        self.sheet.cell(name)
    }
}

/// The keys held down at one moment, by their key codes.
pub struct KeyState {
    pub pressed_keys: Vec<String>,
}

impl KeyState {
    /// The key with code `code` is held.
    pub open spec fn holds(self, code: Seq<char>) -> bool {
        holds_among(self.pressed_keys@, self.pressed_keys@.len() as int, code)
    }

    pub fn new() -> (r: KeyState)
        ensures
            forall|c: Seq<char>| !#[trigger] r.holds(c),
    {
        KeyState { pressed_keys: Vec::new() }
    }

    pub fn is_pressed(&self, code: &str) -> (r: bool)
        ensures
            r == self.holds(code@),
    {
        let key = <String as StringExecFns>::from_str(code);
        let mut i: usize = 0;
        while i < self.pressed_keys.len()
            invariant
                0 <= i <= self.pressed_keys@.len(),
                key@ == code@,
                forall|j: int| 0 <= j < i ==> (#[trigger] self.pressed_keys@[j])@ != code@,
            decreases self.pressed_keys.len() - i,
        {
            if self.pressed_keys[i] == key {
                return true;
            }
            i = i + 1;
        }
        false
    }

    /// Records that the key `code` went down.
    pub fn set_pressed(&mut self, code: &str)
        ensures
            forall|c: Seq<char>| #[trigger] final(self).holds(c) == (old(self).holds(c) || c == code@),
    {
        if !self.is_pressed(code) {
            self.pressed_keys.push(<String as StringExecFns>::from_str(code));
            proof {
                let n = old(self).pressed_keys@.len() as int;
                assert forall|c: Seq<char>| #[trigger]
                    self.holds(c) == (old(self).holds(c) || c == code@) by {
                    if old(self).holds(c) {
                        let i = choose|i: int| 0 <= i < n && (#[trigger] old(self).pressed_keys@[i])@ == c;
                        assert(self.pressed_keys@[i] == old(self).pressed_keys@[i]);
                    }
                    if c == code@ {
                        assert(self.pressed_keys@[n]@ == c);
                    }
                    if self.holds(c) {
                        let i = choose|i: int| 0 <= i < n + 1 && (#[trigger] self.pressed_keys@[i])@ == c;
                        if i < n {
                            assert(self.pressed_keys@[i] == old(self).pressed_keys@[i]);
                        }
                    }
                }
            }
        }
    }

    /// Records that the key `code` went up.
    pub fn set_released(&mut self, code: &str)
        ensures
            forall|c: Seq<char>| #[trigger] final(self).holds(c) == (old(self).holds(c) && c != code@),
    {
        let key = <String as StringExecFns>::from_str(code);
        let mut kept: Vec<String> = Vec::new();
        let mut i: usize = 0;
        while i < self.pressed_keys.len()
            invariant
                0 <= i <= self.pressed_keys@.len(),
                key@ == code@,
                self.pressed_keys@ == old(self).pressed_keys@,
                forall|c: Seq<char>| #[trigger] holds_among(kept@, kept@.len() as int, c) == (
                    holds_among(self.pressed_keys@, i as int, c) && c != code@),
            decreases self.pressed_keys.len() - i,
        {
            let ghost before = kept@;
            if self.pressed_keys[i] != key {
                let k = self.pressed_keys[i].clone();
                kept.push(k);
            }
            proof {
                let e = self.pressed_keys@[i as int];
                assert forall|c: Seq<char>| #[trigger] holds_among(kept@, kept@.len() as int, c) == (
                    holds_among(self.pressed_keys@, i + 1, c) && c != code@) by {
                    if holds_among(kept@, kept@.len() as int, c) {
                        let j = choose|j: int| 0 <= j < kept@.len() && (#[trigger] kept@[j])@ == c;
                        if j < before.len() {
                            assert(before[j] == kept@[j]);
                            assert(holds_among(before, before.len() as int, c));
                        }
                    }
                    if holds_among(before, before.len() as int, c) {
                        let j = choose|j: int| 0 <= j < before.len() && (#[trigger] before[j])@ == c;
                        assert(kept@[j] == before[j]);
                    }
                    if holds_among(self.pressed_keys@, i + 1, c) && c != code@ {
                        let k = choose|k: int| 0 <= k < i + 1 && (#[trigger] self.pressed_keys@[k])@ == c;
                        if k == i {
                            assert(kept@[kept@.len() - 1]@ == c);
                        }
                    }
                    if holds_among(self.pressed_keys@, i as int, c) {
                        let k = choose|k: int| 0 <= k < i && (#[trigger] self.pressed_keys@[k])@ == c;
                        assert(holds_among(self.pressed_keys@, i + 1, c));
                    }
                    if holds_among(self.pressed_keys@, i + 1, c) && !holds_among(self.pressed_keys@, i as int, c) {
                        let k = choose|k: int| 0 <= k < i + 1 && (#[trigger] self.pressed_keys@[k])@ == c;
                        assert(k == i);
                    }
                }
            }
            i = i + 1;
        }
        self.pressed_keys = kept;
    }
}

/// One of the first `n` strings of `s` has the characters `c`.
pub open spec fn holds_among(s: Seq<String>, n: int, c: Seq<char>) -> bool {
    exists|j: int| 0 <= j < n && (#[trigger] s[j])@ == c
}

} // verus!
