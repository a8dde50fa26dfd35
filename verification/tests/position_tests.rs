use ruxel::position::{Direction, Position};
use ruxel::view::Viewport;

#[test]
fn new_and_default() {
    let p = Position::new((3, 4));
    assert_eq!(p.xy(), (3, 4));
    assert_eq!(Position::default().xy(), (0, 0));
}

#[test]
fn moves_replace_coordinates() {
    let p = Position::new((3, 4));
    assert_eq!(p.move_xy((7, 8)).xy(), (7, 8));
    assert_eq!(p.move_x(9).xy(), (9, 4));
    assert_eq!(p.move_y(9).xy(), (3, 9));
}

#[test]
fn steps_clamp_at_the_edges() {
    let p = Position::new((2, 2));
    assert_eq!(p.left(1).xy(), (1, 2));
    assert_eq!(p.left(5).xy(), (0, 2));
    assert_eq!(p.up(5).xy(), (2, 0));
    assert_eq!(p.right(3).xy(), (5, 2));
    assert_eq!(p.down(3).xy(), (2, 5));
    let edge = Position::new((u32::MAX - 1, u32::MAX - 1));
    assert_eq!(edge.right(10).xy(), (u32::MAX, u32::MAX - 1));
    assert_eq!(edge.down(10).xy(), (u32::MAX - 1, u32::MAX));
}

#[test]
fn put_in_clamps_into_the_viewport() {
    let v = Viewport::new((10, 10), (5, 5));
    assert_eq!(Position::new((0, 0)).put_in(&v).xy(), (10, 10));
    assert_eq!(Position::new((12, 3)).put_in(&v).xy(), (12, 10));
    assert_eq!(Position::new((100, 100)).put_in(&v).xy(), (14, 14));
    assert_eq!(Position::new((11, 12)).put_in(&v).xy(), (11, 12));
}

#[test]
fn app_road_walks_in_order() {
    let road = vec![Direction::Right, Direction::Right, Direction::Down, Direction::UpperLeft];
    let p = Position::new((5, 5)).app_road(&road);
    assert_eq!(p.xy(), (6, 5));
}

#[test]
fn app_road_clamps_at_zero() {
    let road = vec![Direction::Left, Direction::Left, Direction::Up];
    let p = Position::new((1, 0)).app_road(&road);
    assert_eq!(p.xy(), (0, 0));
}

#[test]
fn app_road_with_fold_visits_each_step() {
    let road = vec![Direction::Right, Direction::Down, Direction::Right];
    let (p, visited) = Position::new((0, 0)).app_road_with_fold(
        &road,
        Vec::new(),
        |xy: (u32, u32), mut acc: Vec<(u32, u32)>| {
            acc.push(xy);
            acc
        },
    );
    assert_eq!(p.xy(), (2, 1));
    assert_eq!(visited, vec![(1, 0), (1, 1), (2, 1)]);
}

#[test]
fn get_direction_all_cases() {
    let c = Position::new((5, 5));
    assert!(matches!(c.get_direction(&Position::new((5, 5))), Direction::Middle));
    assert!(matches!(c.get_direction(&Position::new((4, 5))), Direction::Left));
    assert!(matches!(c.get_direction(&Position::new((6, 5))), Direction::Right));
    assert!(matches!(c.get_direction(&Position::new((5, 4))), Direction::Up));
    assert!(matches!(c.get_direction(&Position::new((5, 6))), Direction::Down));
    assert!(matches!(c.get_direction(&Position::new((4, 4))), Direction::UpperLeft));
    assert!(matches!(c.get_direction(&Position::new((6, 4))), Direction::UpperRight));
    assert!(matches!(c.get_direction(&Position::new((4, 6))), Direction::LowerLeft));
    assert!(matches!(c.get_direction(&Position::new((6, 6))), Direction::LowerRight));
}

#[test]
fn viewport_clamps_extent() {
    let v = Viewport::new((0, 0), (0, 0));
    let (ox, oy, w, h) = v.bounds();
    assert_eq!((ox, oy, w, h), (0, 0, 1, 1));
    let v2 = Viewport::new((u32::MAX - 2, 0), (10, 10));
    let (_, _, w2, _) = v2.bounds();
    assert_eq!(w2, 3);
    let d = Viewport::default();
    assert_eq!(d.bounds(), (0, 0, u32::MAX, u32::MAX));
}

#[test]
fn viewport_move_and_stretch() {
    let v = Viewport::new((1, 2), (3, 4));
    assert_eq!(v.move_org((7, 8)).bounds(), (7, 8, 3, 4));
    assert_eq!(v.stretch((9, 9)).bounds(), (1, 2, 9, 9));
}
