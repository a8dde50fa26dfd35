use ruxel::command::{as_pos, as_rgb, draw, move_to, msg_line_num};
use ruxel::tui::{Canvas, Rgba};
use ruxel::unit::Position;

#[test]
fn as_rgb_reads_hex_pairs() {
    let c = as_rgb("#ff0080".to_string());
    assert_eq!(c.rgba(), (255, 0, 128, 255));
    let d = as_rgb("#A1b2C3".to_string());
    assert_eq!(d.rgba(), (161, 178, 195, 255));
}

#[test]
fn as_pos_single_steps() {
    assert_eq!(as_pos("l".to_string()), Position::new(1, 0));
    assert_eq!(as_pos("hj".to_string()), Position::new(-1, 1));
    assert_eq!(as_pos("k".to_string()), Position::new(0, -1));
}

#[test]
fn as_pos_counted_steps() {
    assert_eq!(as_pos("3l".to_string()), Position::new(3, 0));
    assert_eq!(as_pos("12j".to_string()), Position::new(0, 12));
}

#[test]
fn as_pos_count_is_not_cleared_by_motion() {
    // the accumulated count survives a motion letter and keeps growing
    assert_eq!(as_pos("2h3j".to_string()), Position::new(-2, 23));
}

#[test]
fn as_pos_ignores_other_characters() {
    assert_eq!(as_pos("a l?l".to_string()), Position::new(2, 0));
}

#[test]
fn move_to_sets_coordinates() {
    let start = Position::new(7, 7);
    assert_eq!(move_to(start, "10x5y".to_string()), Position::new(10, 5));
    assert_eq!(move_to(start, "4y".to_string()), Position::new(7, 4));
    assert_eq!(move_to(start, "".to_string()), start);
}

#[test]
fn draw_paints_along_the_stroke() {
    let mut canvas = Canvas::new(Position::new(3, 3));
    let red = Rgba::new(255, 0, 0, 255);
    let end = draw(&mut canvas, Position::new(0, 0), red, "ll".to_string());
    assert_eq!(end, Position::new(2, 0));
    // the pen moves before painting: the starting cell stays untouched
    assert_eq!(canvas.data[0][0], Rgba::default());
    assert_eq!(canvas.data[0][1], red);
    assert_eq!(canvas.data[0][2], red);
}

#[test]
fn draw_dot_paints_in_place() {
    let mut canvas = Canvas::new(Position::new(2, 2));
    let blue = Rgba::new(0, 0, 255, 255);
    let end = draw(&mut canvas, Position::new(1, 1), blue, "d".to_string());
    assert_eq!(end, Position::new(1, 1));
    assert_eq!(canvas.data[1][1], blue);
    assert_eq!(canvas.data[0][0], Rgba::default());
}

#[test]
fn draw_counted_stroke_and_clipping() {
    let mut canvas = Canvas::new(Position::new(3, 1));
    let c = Rgba::new(9, 9, 9, 255);
    // five steps right from the left edge: only the three cells exist
    let end = draw(&mut canvas, Position::new(-1, 0), c, "5l".to_string());
    assert_eq!(end, Position::new(4, 0));
    assert_eq!(canvas.data[0][0], c);
    assert_eq!(canvas.data[0][1], c);
    assert_eq!(canvas.data[0][2], c);
}

#[test]
fn msg_line_num_counts_terminators() {
    assert_eq!(msg_line_num("".to_string()), 1);
    assert_eq!(msg_line_num("one".to_string()), 1);
    assert_eq!(msg_line_num("a\nb".to_string()), 2);
    assert_eq!(msg_line_num("a\nb\n".to_string()), 3);
}
