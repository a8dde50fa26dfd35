use ruxel::numtext::u64_to_dec;
use ruxel::tui::{clear_down_codes, clear_up_codes, pixel, pixel_bottom, Canvas, Rgba, X};
use ruxel::unit::{trim_newline, Position};

#[test]
fn x_adds() {
    let a = X::new(2);
    let b = X::new(40);
    assert_eq!(a.add(b).r, 42);
    assert_eq!(X::new(-5).add(X::new(3)).r, -2);
}

#[test]
fn decimal_rendering() {
    assert_eq!(u64_to_dec(0), "0");
    assert_eq!(u64_to_dec(7), "7");
    assert_eq!(u64_to_dec(10), "10");
    assert_eq!(u64_to_dec(65535), "65535");
    assert_eq!(u64_to_dec(18446744073709551615), "18446744073709551615");
}

#[test]
fn grid_canvas_shape() {
    let c = Canvas::new(Position::new(3, 2));
    assert_eq!(c.data.len(), 2);
    assert_eq!(c.data[0].len(), 3);
    assert_eq!(c.data[1][2], Rgba::default());
    assert_eq!(c.size, Position::new(3, 2));
}

#[test]
fn pixel_escape_text() {
    let upper = Rgba::new(255, 0, 0, 255);
    let lower = Rgba::new(0, 0, 255, 255);
    assert_eq!(
        pixel(upper, lower),
        "\x1b[38;2;255;0;0m\x1b[48;2;0;0;255m\u{2580}\x1b[0m"
    );
}

#[test]
fn pixel_bottom_escape_text() {
    assert_eq!(
        pixel_bottom(Rgba::new(1, 22, 77, 255)),
        "\x1b[38;2;1;22;77m\u{2580}\x1b[0m"
    );
}

#[test]
fn clear_codes() {
    assert_eq!(clear_up_codes(0), "");
    assert_eq!(clear_up_codes(2), "\x1b[2F\x1b[2K\n\x1b[2K\n\x1b[2F");
    assert_eq!(clear_down_codes(0), "");
    assert_eq!(clear_down_codes(1), "\x1b[2K\n\x1b[1F");
}

#[test]
fn trim_newline_takes_one_terminator() {
    assert_eq!(trim_newline("abc\n".to_string()), "abc");
    assert_eq!(trim_newline("abc\r\n".to_string()), "abc");
    assert_eq!(trim_newline("abc".to_string()), "abc");
    assert_eq!(trim_newline("abc\n\n".to_string()), "abc\n");
    assert_eq!(trim_newline("abc\r".to_string()), "abc\r");
    assert_eq!(trim_newline("".to_string()), "");
}

#[test]
fn unit_position_add() {
    let p = Position::new(3, -4).add(Position::new(-1, 10));
    assert_eq!(p, Position::new(2, 6));
}
