use walk_the_dog::engine::{Cell, Collider, Image, ImageSize, KeyState, Point, Rect, Sheet, SheetRect};

#[test]
fn two_rects_that_intersect_on_the_left() {
    let rect1 = Rect {
        position: Point { x: 10, y: 10 },
        height: 100,
        width: 100,
    };
    let rect2 = Rect {
        position: Point { x: 0, y: 10 },
        height: 100,
        width: 100,
    };

    assert_eq!(rect2.intersects(&rect1), true);
}

#[test]
fn two_rects_that_intersect_on_the_top() {
    let rect1 = Rect {
        position: Point { x: 10, y: 10 },
        height: 100,
        width: 100,
    };
    let rect2 = Rect {
        position: Point { x: 10, y: 0 },
        height: 100,
        width: 100,
    };

    assert_eq!(rect2.intersects(&rect1), true);
}

#[test]
fn two_rects_that_not_intersect() {
    let rect1 = Rect {
        position: Point { x: 10, y: 10 },
        height: 100,
        width: 100,
    };
    let rect2 = Rect {
        position: Point { x: 10, y: 110 },
        height: 100,
        width: 100,
    };

    assert_eq!(rect2.intersects(&rect1), false);
}

#[test]
fn intersection_does_not_depend_on_order() {
    let a = Rect::new_from_x_y(0, 0, 50, 50);
    let b = Rect::new_from_x_y(40, 45, 10, 10);
    let c = Rect::new_from_x_y(60, 0, 10, 10);
    assert_eq!(a.intersects(&b), b.intersects(&a));
    assert!(a.intersects(&b));
    assert_eq!(a.intersects(&c), c.intersects(&a));
    assert!(!a.intersects(&c));
}

#[test]
fn rects_sharing_only_an_edge_do_not_intersect() {
    let a = Rect::new_from_x_y(0, 0, 100, 100);
    let right_neighbour = Rect::new_from_x_y(100, 0, 100, 100);
    let below = Rect::new_from_x_y(0, 100, 100, 100);
    assert!(!a.intersects(&right_neighbour));
    assert!(!right_neighbour.intersects(&a));
    assert!(!a.intersects(&below));
    assert!(!below.intersects(&a));
    let overlapping_by_one = Rect::new_from_x_y(99, 0, 100, 100);
    assert!(a.intersects(&overlapping_by_one));
}

#[test]
fn rect_accessors() {
    let mut r = Rect::new(Point { x: 3, y: 4 }, 10, 20);
    assert_eq!(r.x(), 3);
    assert_eq!(r.y(), 4);
    assert_eq!(r.right(), 13);
    r.set_x(-7);
    assert_eq!(r.x(), -7);
    assert_eq!(r.right(), 3);
    assert_eq!(r.y(), 4);
}

#[test]
fn images_and_colliders_move_together() {
    let size = ImageSize { width: 90, height: 54 };
    let mut image = Image::new(size, Point { x: 100, y: 546 });
    assert_eq!(image.right(), 190);
    image.move_horisontally(-3);
    assert_eq!(image.position.x, 97);
    assert_eq!(image.right(), 187);
    image.set_x(5);
    assert_eq!(image.position, Point { x: 5, y: 546 });

    let mut collider = Collider::from(Image::new(size, Point { x: 100, y: 546 }));
    assert_eq!(*collider.bounding_box(), Rect::new_from_x_y(100, 546, 90, 54));
    collider.move_horisontally(-10);
    assert_eq!(*collider.bounding_box(), Rect::new_from_x_y(90, 546, 90, 54));
    assert_eq!(collider.image.position, Point { x: 90, y: 546 });
}

#[test]
fn cell_rects() {
    let cell = Cell {
        frame: SheetRect { x: 10, y: 20, w: 30, h: 40 },
        sprite_source_size: SheetRect { x: 5, y: 6, w: 70, h: 80 },
    };
    assert_eq!(cell.rect(), Rect::new_from_x_y(10, 20, 30, 40));
    assert_eq!(cell.rect_start_x_y(1, 2), Rect::new_from_x_y(1, 2, 30, 40));
    assert_eq!(cell.rect_start_x_y_with_size(1, 2), Rect::new_from_x_y(6, 8, 30, 40));
}

fn cell_of_width(w: i16) -> Cell {
    Cell {
        frame: SheetRect { x: 0, y: 0, w, h: 1 },
        sprite_source_size: SheetRect { x: 0, y: 0, w, h: 1 },
    }
}

#[test]
fn sheet_lookup_and_replace() {
    let mut sheet = Sheet::new();
    assert_eq!(sheet.cell("a.png"), None);
    sheet.insert(String::from("a.png"), cell_of_width(1));
    sheet.insert(String::from("b.png"), cell_of_width(2));
    assert_eq!(sheet.cell("a.png"), Some(cell_of_width(1)));
    assert_eq!(sheet.cell("b.png"), Some(cell_of_width(2)));
    sheet.insert(String::from("a.png"), cell_of_width(3));
    assert_eq!(sheet.cell("a.png"), Some(cell_of_width(3)));
    assert_eq!(sheet.frames.len(), 2);
    assert_eq!(sheet.cell("c.png"), None);
}

#[test]
fn key_state_tracks_held_keys() {
    let mut keys = KeyState::new();
    assert!(!keys.is_pressed("ArrowUp"));
    keys.set_pressed("ArrowUp");
    keys.set_pressed("ArrowUp");
    keys.set_pressed("Enter");
    assert!(keys.is_pressed("ArrowUp"));
    assert!(keys.is_pressed("Enter"));
    assert_eq!(keys.pressed_keys.len(), 2);
    keys.set_released("ArrowUp");
    assert!(!keys.is_pressed("ArrowUp"));
    assert!(keys.is_pressed("Enter"));
    keys.set_released("Space");
    assert!(keys.is_pressed("Enter"));
}
