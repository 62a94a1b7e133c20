use mergearea::area::MergeArea;
use mergearea::cursor::CursorMove;
use mergearea::scroll::Scrolling;

#[test]
fn word_motion_skips_blank_lines() {
    let mut t = MergeArea::with_value("ab\ncd\nef");
    t.move_cursor(CursorMove::Jump(1, 1));
    t.move_cursor(CursorMove::WordForward);
    assert_eq!(t.cursor2(), (2, 0));

    let mut t = MergeArea::with_value("ab\ncd\nef");
    t.move_cursor(CursorMove::Jump(1, 1));
    t.move_cursor(CursorMove::WordBack);
    assert_eq!(t.cursor2(), (1, 0));
    t.move_cursor(CursorMove::WordBack);
    assert_eq!(t.cursor2(), (0, 0));

    let mut t = MergeArea::with_value("ab\n\n   \ncd");
    t.move_cursor(CursorMove::WordForward);
    assert_eq!(t.cursor2(), (3, 0));
    t.move_cursor(CursorMove::WordBack);
    assert_eq!(t.cursor2(), (0, 0));
}

#[test]
fn insert_two_lines_inside_first_line() {
    let mut t = MergeArea::with_value("ab\ncd\nef");
    t.move_cursor(CursorMove::Jump(0, 2));
    assert!(t.insert_str("x\ny"));
    assert_eq!(t.text().as_str(), "abx\ny\ncd\nef");
    assert_eq!(t.lines(), ["abx", "y", "cd", "ef"]);
    assert_eq!(t.cursor2(), (1, 1));
}

#[test]
fn delete_selection_across_lines() {
    let mut t = MergeArea::with_value("ab\ncd\nef");
    t.move_cursor(CursorMove::Jump(0, 1));
    t.start_selection();
    t.move_cursor(CursorMove::Jump(2, 1));
    assert!(t.delete_str(1));
    assert_eq!(t.text().as_str(), "af");
    assert_eq!(t.cursor2(), (0, 1));
    assert!(!t.is_selecting());
    assert_eq!(t.yank_text(), "b\ncd\ne");
}

#[test]
fn delete_str_across_newline_yanks() {
    let mut t = MergeArea::with_value("ab\ncd\nef");
    assert!(t.delete_str(3));
    assert_eq!(t.text().as_str(), "cd\nef");
    assert_eq!(t.yank_text(), "ab\n");
    assert_eq!(t.cursor(), 0);
}

#[test]
fn page_down_stops_at_last_row() {
    let text = (0..20).map(|i| i.to_string()).collect::<Vec<_>>().join("\n");
    let mut t = MergeArea::with_value(&text);
    t.resize(24, 8);
    t.scroll(Scrolling::PageDown);
    assert_eq!(t.viewport().row, 8);
    assert_eq!(t.cursor2(), (8, 0));
    t.scroll(Scrolling::PageDown);
    assert_eq!(t.viewport().row, 16);
    assert_eq!(t.cursor2(), (16, 0));
    t.scroll(Scrolling::PageDown);
    assert_eq!(t.viewport().row, 19);
    assert_eq!(t.cursor2(), (19, 0));
    t.scroll(Scrolling::PageDown);
    assert_eq!(t.viewport().row, 19);
}

#[test]
fn half_pages_and_deltas() {
    let text = (0..20).map(|i| i.to_string()).collect::<Vec<_>>().join("\n");
    let mut t = MergeArea::with_value(&text);
    t.resize(24, 7);
    t.scroll(Scrolling::HalfPageDown);
    assert_eq!(t.viewport().row, 3);
    t.scroll(Scrolling::HalfPageUp);
    assert_eq!(t.viewport().row, 0);
    t.scroll(Scrolling::PageUp);
    assert_eq!(t.viewport().row, 0);
    t.scroll(Scrolling::from((2, 3)));
    assert_eq!(t.viewport().row, 2);
    assert_eq!(t.viewport().col, 3);
    t.scroll(Scrolling::Delta { rows: -5, cols: -1 });
    assert_eq!(t.viewport().row, 0);
    assert_eq!(t.viewport().col, 2);
}

#[test]
fn in_viewport_pulls_cursor_up() {
    let text = (0..20).map(|i| i.to_string()).collect::<Vec<_>>().join("\n");
    let mut t = MergeArea::with_value(&text);
    t.resize(24, 8);
    t.move_cursor(CursorMove::Bottom);
    assert_eq!(t.cursor2(), (19, 0));
    t.move_cursor(CursorMove::InViewport);
    assert_eq!(t.cursor2(), (7, 1));
}
