use ruxel::canvas::Canvas;
use ruxel::color::Rgba;
use ruxel::position::Position;

#[test]
fn new_canvas_is_opaque_black() {
    let c = Canvas::new((2, 3));
    assert_eq!(c.size(), (2, 3));
    let p = Position::new((1, 2));
    assert_eq!(c.at(&p).rgba(), (0, 0, 0, 255));
}

#[test]
fn update_sets_one_cell() {
    let c = Canvas::new((3, 2));
    let red = Rgba::new(255, 0, 0, 255);
    let p = Position::new((2, 1));
    let c2 = c.update(&p, red);
    assert_eq!(c2.at(&p), red);
    assert_eq!(c2.at(&Position::new((0, 0))).rgba(), (0, 0, 0, 255));
    assert_eq!(c2.at(&Position::new((1, 1))).rgba(), (0, 0, 0, 255));
}

#[test]
fn update_leaves_the_old_canvas_alone() {
    let c = Canvas::new((2, 2));
    let green = Rgba::new(0, 255, 0, 255);
    let p = Position::new((0, 1));
    let c2 = c.update(&p, green);
    assert_eq!(c.at(&p).rgba(), (0, 0, 0, 255));
    assert_eq!(c2.at(&p), green);
}

#[test]
fn update_distinguishes_row_major_cells() {
    // a wrong row-major index would land this update on another cell
    let c = Canvas::new((3, 3));
    let blue = Rgba::new(0, 0, 255, 255);
    let p = Position::new((1, 2));
    let c2 = c.update(&p, blue);
    assert_eq!(c2.at(&Position::new((2, 1))).rgba(), (0, 0, 0, 255));
    assert_eq!(c2.at(&p), blue);
}

#[test]
fn contains_checks_both_bounds() {
    let c = Canvas::new((2, 3));
    assert!(c.contains(&Position::new((0, 0))));
    assert!(c.contains(&Position::new((1, 2))));
    assert!(!c.contains(&Position::new((2, 0))));
    assert!(!c.contains(&Position::new((0, 3))));
}

#[test]
fn clone_shares_the_same_picture() {
    let c = Canvas::new((2, 2)).update(&Position::new((1, 1)), Rgba::new(9, 9, 9, 9));
    let d = c.clone();
    assert_eq!(d.size(), (2, 2));
    assert_eq!(d.at(&Position::new((1, 1))).rgba(), (9, 9, 9, 9));
}

#[test]
fn empty_canvas_has_no_cells() {
    let c = Canvas::new((0, 5));
    assert_eq!(c.size(), (0, 5));
    assert!(!c.contains(&Position::new((0, 0))));
}
