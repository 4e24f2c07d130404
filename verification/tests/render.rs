use weiqi::render::{draw_board, Line, CURSOR_RADIUS, PIECE_RADIUS};

#[test]
fn draw_board_gives_a_line_for_each_column_and_row() {
    let lines = draw_board();
    assert_eq!(lines.len(), 38);
    for i in 0..19usize {
        let pos = -285 + 30 * i as i64;
        assert_eq!(lines[2 * i], Line { start_x: pos, start_y: -285, end_x: pos, end_y: 255 });
        assert_eq!(lines[2 * i + 1], Line { start_x: -285, start_y: pos, end_x: 255, end_y: pos });
    }
}

#[test]
fn draw_board_first_and_last_lines() {
    let lines = draw_board();
    assert_eq!(lines[0], Line { start_x: -285, start_y: -285, end_x: -285, end_y: 255 });
    assert_eq!(lines[1], Line { start_x: -285, start_y: -285, end_x: 255, end_y: -285 });
    assert_eq!(lines[36], Line { start_x: 255, start_y: -285, end_x: 255, end_y: 255 });
    assert_eq!(lines[37], Line { start_x: -285, start_y: 255, end_x: 255, end_y: 255 });
}

#[test]
fn draw_board_is_the_same_in_every_frame() {
    assert_eq!(draw_board(), draw_board());
}

#[test]
fn radii_have_their_values() {
    assert_eq!(PIECE_RADIUS, 12);
    assert_eq!(CURSOR_RADIUS, 10);
}
