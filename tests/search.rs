use mergearea::area::MergeArea;
use mergearea::cursor::CursorMove;
use mergearea::search::{find_matches, next_match, prev_match, Pattern};

#[test]
fn navigation_wraps_around() {
    let spans = vec![(1, 2), (4, 6), (9, 9)];
    assert_eq!(next_match(&spans, 0), Some((1, 2)));
    assert_eq!(next_match(&spans, 1), Some((4, 6)));
    assert_eq!(next_match(&spans, 8), Some((9, 9)));
    assert_eq!(next_match(&spans, 9), Some((1, 2)));
    assert_eq!(prev_match(&spans, 10), Some((9, 9)));
    assert_eq!(prev_match(&spans, 4), Some((1, 2)));
    assert_eq!(prev_match(&spans, 1), Some((9, 9)));
    assert_eq!(next_match(&vec![], 3), None);
    assert_eq!(prev_match(&vec![], 3), None);
}

#[test]
fn matches_are_character_spans() {
    let p = Pattern::new("b+").unwrap();
    assert_eq!(find_matches(&p, "🐶bb あb"), vec![(1, 3), (5, 6)]);
    assert_eq!(find_matches(&p, "xyz"), vec![]);
    assert_eq!(find_matches(&Pattern::new("a").unwrap(), "A"), vec![]);
    assert_eq!(find_matches(&Pattern::new("(?i)a").unwrap(), "A"), vec![(0, 1)]);
    assert_eq!(Pattern::new("(").unwrap_err().pattern, "(");
}

#[test]
fn search_moves_cursor_between_matches() {
    let mut t = MergeArea::with_value("ab\ncab\nあab");
    assert!(!t.search_forward());
    assert!(t.set_search_pattern("ab").is_ok());
    assert!(t.has_search_pattern());
    assert!(t.search_forward());
    assert_eq!(t.cursor2(), (1, 1));
    assert!(t.search_forward());
    assert_eq!(t.cursor2(), (2, 1));
    assert!(t.search_forward());
    assert_eq!(t.cursor2(), (0, 0));
    assert!(t.search_back());
    assert_eq!(t.cursor2(), (2, 1));
    t.move_cursor(CursorMove::Jump(1, 2));
    assert!(t.search_back());
    assert_eq!(t.cursor2(), (1, 1));
}

#[test]
fn bad_pattern_keeps_previous_one() {
    let mut t = MergeArea::with_value("foo bar");
    assert!(t.set_search_pattern("bar").is_ok());
    let err = t.set_search_pattern("(unclosed").unwrap_err();
    assert_eq!(err.pattern, "(unclosed");
    assert!(t.search_forward());
    assert_eq!(t.cursor(), 4);
    assert!(t.set_search_pattern("zzz").is_ok());
    assert!(!t.search_forward());
    assert_eq!(t.cursor(), 4);
    assert!(t.set_search_pattern("").is_ok());
    assert!(!t.has_search_pattern());
    assert!(!t.search_back());
}
