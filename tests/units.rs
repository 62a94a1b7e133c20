use mergearea::area::MergeArea;
use mergearea::cursor::CursorMove;
use mergearea::scroll::{Scrolling, Viewport};
use mergearea::util::{find_line_end, find_line_start, num_digits, spaces, Pos};
use mergearea::word::{
    find_word_exclusive_end_forward, find_word_inclusive_end_forward, find_word_start_backward,
    find_word_start_backward_v2, find_word_start_forward, CharKind,
};

#[test]
fn digits_and_spaces() {
    assert_eq!(num_digits(0), 1);
    assert_eq!(num_digits(9), 1);
    assert_eq!(num_digits(10), 2);
    assert_eq!(num_digits(12345), 5);
    assert_eq!(num_digits(usize::MAX), 20);
    assert_eq!(spaces(0), "");
    assert_eq!(spaces(3), "   ");
    assert_eq!(spaces(255).len(), 255);
    let p = Pos::new(1, 2, 3);
    assert_eq!((p.row, p.col, p.offset), (1, 2, 3));
}

#[test]
fn line_bounds() {
    let chars: Vec<char> = "ab\ncde\n".chars().collect();
    assert_eq!(find_line_start(0, &chars), 0);
    assert_eq!(find_line_start(2, &chars), 0);
    assert_eq!(find_line_start(5, &chars), 3);
    assert_eq!(find_line_start(7, &chars), 7);
    assert_eq!(find_line_end(0, &chars), 1);
    assert_eq!(find_line_end(4, &chars), 5);
}

#[test]
fn char_classes() {
    assert!(CharKind::new(' ') == CharKind::Space);
    assert!(CharKind::new('\n') == CharKind::Space);
    assert!(CharKind::new('\u{3000}') == CharKind::Space);
    assert!(CharKind::new('!') == CharKind::Punct);
    assert!(CharKind::new('~') == CharKind::Punct);
    assert!(CharKind::new('a') == CharKind::Other);
    assert!(CharKind::new('あ') == CharKind::Other);
    assert!(CharKind::new('。') == CharKind::Other);
}

#[test]
fn word_boundaries() {
    assert_eq!(find_word_start_forward("fn foo(a)", 0), Some(3));
    assert_eq!(find_word_start_forward("fn foo(a)", 3), Some(6));
    assert_eq!(find_word_start_forward("fn foo(a)", 8), None);
    assert_eq!(find_word_start_forward("abc", 5), None);
    assert_eq!(find_word_exclusive_end_forward("fn foo(a)", 0), Some(2));
    assert_eq!(find_word_exclusive_end_forward("fn foo(a)", 3), Some(6));
    assert_eq!(find_word_exclusive_end_forward("aaa", 0), None);
    assert_eq!(find_word_inclusive_end_forward("aaa bbb", 0), Some(2));
    assert_eq!(find_word_inclusive_end_forward("aaa bbb", 3), Some(6));
    assert_eq!(find_word_inclusive_end_forward("aaa   ", 3), Some(6));
    assert_eq!(find_word_start_backward("aaa bbb", 7), Some(4));
    assert_eq!(find_word_start_backward("aaa bbb", 4), Some(0));
    assert_eq!(find_word_start_backward("   ", 3), None);
    assert_eq!(find_word_start_backward("a b", 5), Some(2));
    assert_eq!(find_word_start_backward("a b", 3), Some(2));
    assert_eq!(find_word_start_backward("", 0), None);
    assert_eq!(find_word_start_backward_v2("aaa bbb", 6), Some(4));
    assert_eq!(find_word_start_backward_v2("aaa bbb", 3), Some(0));
    assert_eq!(find_word_start_backward_v2("!bb", 2), Some(1));
    assert_eq!(find_word_start_backward_v2("", 4), Some(0));
}

#[test]
fn viewport_geometry() {
    let mut v = Viewport::new();
    assert_eq!(v.rect(), (0, 0, 0, 0));
    assert_eq!(v.position(), (0, 0, 0, 0));
    v.set_size(10, 4);
    v.scroll(3, 2, 100);
    assert_eq!(v.rect(), (3, 2, 10, 4));
    assert_eq!(v.position(), (3, 2, 6, 11));
    v.scroll(-10, -10, 100);
    assert_eq!(v.rect(), (0, 0, 10, 4));
    Scrolling::PageDown.scroll(&mut v, 2);
    assert_eq!(v.row, 2);
}

#[test]
fn cursor_moves_by_line() {
    let mut t = MergeArea::with_value("abcd\nef\nghij");
    t.move_cursor(CursorMove::Jump(0, 3));
    t.move_cursor(CursorMove::Down);
    assert_eq!(t.cursor2(), (1, 2));
    t.move_cursor(CursorMove::Down);
    assert_eq!(t.cursor2(), (2, 2));
    t.move_cursor(CursorMove::Down);
    assert_eq!(t.cursor2(), (2, 2));
    t.move_cursor(CursorMove::Up);
    t.move_cursor(CursorMove::Up);
    assert_eq!(t.cursor2(), (0, 2));
    t.move_cursor(CursorMove::Up);
    assert_eq!(t.cursor2(), (0, 2));
}

#[test]
fn replaced_text_clamps_cursor_and_clears_history() {
    let mut t = MergeArea::with_value("hello world");
    t.move_cursor(CursorMove::End);
    t.insert_str("!");
    t.start_selection();
    t.set_text(autosurgeon::Text::with_value("hi"));
    assert_eq!(t.cursor(), 2);
    assert!(!t.is_selecting());
    assert!(!t.undo());
    assert_eq!(t.text().as_str(), "hi");
}

#[test]
fn copy_cut_paste() {
    let mut t = MergeArea::with_value("abc");
    t.move_cursor(CursorMove::Jump(0, 1));
    t.start_selection();
    t.move_cursor(CursorMove::End);
    assert_eq!(t.selection_range(), Some((1, 3)));
    t.copy();
    assert_eq!(t.yank_text(), "bc");
    assert_eq!(t.selection_range(), None);
    t.paste();
    assert_eq!(t.text().as_str(), "abcbc");
    assert_eq!(t.cursor(), 5);
    t.move_cursor(CursorMove::Head);
    t.start_selection();
    t.move_cursor(CursorMove::Forward);
    assert!(t.cut());
    assert_eq!(t.text().as_str(), "bcbc");
    assert_eq!(t.yank_text(), "a");
    assert!(!t.cut());
    t.set_yank_text("x\ny");
    assert!(t.paste());
    assert_eq!(t.text().as_str(), "x\nybcbc");
    assert_eq!(t.cursor2(), (1, 1));
    t.insert_newline();
    assert_eq!(t.lines(), ["x", "y", "bcbc"]);
}

#[test]
fn lines_of_text() {
    assert_eq!(MergeArea::with_value("").lines().len(), 0);
    assert_eq!(MergeArea::with_value("a\n").lines(), ["a"]);
    assert_eq!(MergeArea::with_value("a\n\nb").lines(), ["a", "", "b"]);
}
