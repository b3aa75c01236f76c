use multiselect::keys::Key;
use multiselect::select;
use multiselect::selector::{Outcome, SelectorState};
use multiselect::store::{marshal_strings_into_lines, Line};

fn strings(v: &[&str]) -> Vec<String> {
    v.iter().map(|s| s.to_string()).collect()
}

const SPACE: [u8; 3] = [32, 0, 0];
const ENTER: [u8; 3] = [13, 0, 0];
const DOWN: [u8; 3] = [106, 0, 0];
const UP: [u8; 3] = [107, 0, 0];

#[test]
fn lines_to_strings() {
    let mut g = SelectorState::new(vec![]);
    g.lines = vec![
        Line {
            content: "?? /hello".to_string(),
            is_selected: true,
        },
        Line {
            content: " M /is-it-me-you're-looking-for".to_string(),
            is_selected: false,
        },
    ];
    g.selector_index = 1;

    assert_eq!(
        g.fmt_lines_for_display(24),
        vec![
            "  [*] ?? /hello".to_string(),
            "> [ ]  M /is-it-me-you're-looking-for".to_string(),
        ]
    )
}

#[test]
fn formatting_after_toggle_and_move() {
    let mut g = SelectorState::new(strings(&["?? /hello", " M /thing"]));
    assert_eq!(g.handle_input(SPACE, 24), None);
    assert_eq!(g.handle_input(DOWN, 24), None);
    assert_eq!(
        g.fmt_lines_for_display(24),
        vec!["  [*] ?? /hello".to_string(), "> [ ]  M /thing".to_string()]
    );
}

#[test]
fn keys_decode_from_bytes() {
    assert_eq!(Key::from_u8(3), Some(Key::CtrlC));
    assert_eq!(Key::from_u8(13), Some(Key::Enter));
    assert_eq!(Key::from_u8(27), Some(Key::Escape));
    assert_eq!(Key::from_u8(32), Some(Key::Space));
    assert_eq!(Key::from_u8(106), Some(Key::J));
    assert_eq!(Key::from_u8(107), Some(Key::K));
    assert_eq!(Key::from_u8(113), Some(Key::Q));
    assert_eq!(Key::from_u8(65), None);
    assert_eq!(Key::from_u8(0), None);
}

#[test]
fn confirm_returns_selection_in_input_order() {
    let lines = strings(&["a", "b", "c", "d"]);
    // select d, then b, then a: the result keeps the input order
    let events = vec![UP, SPACE, UP, UP, SPACE, UP, SPACE, ENTER];
    let r = select(lines, &events, 24);
    assert_eq!(r, Some(Outcome::Confirmed(strings(&["a", "b", "d"]))));
}

#[test]
fn toggling_twice_unselects() {
    let mut g = SelectorState::new(strings(&["a", "b"]));
    g.handle_input(SPACE, 24);
    assert_eq!(g.get_selected_lines(), strings(&["a"]));
    g.handle_input(SPACE, 24);
    assert!(g.get_selected_lines().is_empty());
    assert_eq!(select(strings(&["a", "b"]), &vec![SPACE, SPACE, ENTER], 24), Some(Outcome::Confirmed(vec![])));
}

#[test]
fn cursor_wraps_around() {
    let mut g = SelectorState::new(strings(&["a", "b", "c"]));
    g.move_selector_up(24);
    assert_eq!(g.selector_index, 2);
    g.move_selector_down(24);
    assert_eq!(g.selector_index, 0);
    assert_eq!(g.top_of_screen_index, 0);
}

#[test]
fn single_item_moves_are_no_ops() {
    let mut g = SelectorState::new(strings(&["only"]));
    g.move_selector_down(5);
    assert_eq!((g.selector_index, g.top_of_screen_index), (0, 0));
    g.move_selector_up(5);
    assert_eq!((g.selector_index, g.top_of_screen_index), (0, 0));
}

#[test]
fn viewport_scrolls_with_cursor() {
    // 10 items on a 5-row screen: 4 visible rows
    let items: Vec<String> = (0..10).map(|i| format!("item{}", i)).collect();
    let mut g = SelectorState::new(items);
    for _ in 0..4 {
        g.move_selector_down(5);
    }
    assert_eq!((g.selector_index, g.top_of_screen_index), (4, 1));
    assert_eq!(
        g.fmt_lines_for_display(5),
        vec!["  [ ] item1", "  [ ] item2", "  [ ] item3", "> [ ] item4"]
    );
    // up from the first item wraps and shows the last four
    let mut h = SelectorState::new((0..10).map(|i| format!("item{}", i)).collect());
    h.move_selector_up(5);
    assert_eq!((h.selector_index, h.top_of_screen_index), (9, 6));
    assert_eq!(h.fmt_lines_for_display(5).len(), 4);
    assert_eq!(h.fmt_lines_for_display(5)[3], "> [ ] item9");
    h.move_selector_up(5);
    h.move_selector_up(5);
    h.move_selector_up(5);
    h.move_selector_up(5);
    assert_eq!((h.selector_index, h.top_of_screen_index), (5, 5));
    for _ in 0..30 {
        h.move_selector_down(5);
        assert!(h.top_of_screen_index <= h.selector_index);
        assert!(h.selector_index < h.top_of_screen_index + 4);
    }
}

#[test]
fn empty_list_renders_nothing_and_confirms_empty() {
    let g = SelectorState::new(vec![]);
    assert!(g.fmt_lines_for_display(24).is_empty());
    assert_eq!(select(vec![], &vec![ENTER], 24), Some(Outcome::Confirmed(vec![])));
    let mut e = SelectorState::new(vec![]);
    assert_eq!(e.handle_input(DOWN, 24), None);
    assert_eq!(e.handle_input(UP, 24), None);
    assert_eq!(e.handle_input(SPACE, 24), None);
    assert_eq!((e.selector_index, e.top_of_screen_index), (0, 0));
}

#[test]
fn unrecognized_byte_changes_nothing() {
    let mut g = SelectorState::new(strings(&["x", "y"]));
    g.handle_input(DOWN, 24);
    let before = g.fmt_lines_for_display(24);
    assert_eq!(g.handle_input([65, 0, 0], 24), None);
    assert_eq!(g.fmt_lines_for_display(24), before);
    assert_eq!(g.selector_index, 1);
}

#[test]
fn escape_sequences_are_ignored() {
    let mut g = SelectorState::new(strings(&["x", "y"]));
    // arrow down, and sequences whose first byte is a bound key
    for ev in [[27, 91, 66], [106, 1, 0], [13, 10, 0], [113, 113, 0], [3, 3, 3]] {
        assert_eq!(g.handle_input(ev, 24), None);
    }
    assert_eq!(g.selector_index, 0);
    assert_eq!(select(strings(&["x"]), &vec![[27, 91, 65], [32, 7, 0]], 24), None);
}

#[test]
fn cancel_keys_and_exit_codes() {
    assert_eq!(select(strings(&["x"]), &vec![[113, 0, 0]], 24), Some(Outcome::CancelledGracefully));
    assert_eq!(select(strings(&["x"]), &vec![[27, 0, 0]], 24), Some(Outcome::CancelledGracefully));
    assert_eq!(select(strings(&["x"]), &vec![[3, 0, 0]], 24), Some(Outcome::CancelledForcefully));
    assert_eq!(Outcome::CancelledGracefully.exit_code(), Some(0));
    assert_eq!(Outcome::CancelledForcefully.exit_code(), Some(130));
    assert_eq!(Outcome::Confirmed(vec![]).exit_code(), None);
}

#[test]
fn session_stops_at_first_deciding_event() {
    let r = select(strings(&["a", "b"]), &vec![SPACE, ENTER, DOWN, SPACE, [3, 0, 0]], 24);
    assert_eq!(r, Some(Outcome::Confirmed(strings(&["a"]))));
    assert_eq!(select(strings(&["a"]), &vec![], 24), None);
}

#[test]
fn marshal_keeps_order_unselected() {
    let lines = marshal_strings_into_lines(strings(&["p", "q"]));
    assert_eq!(
        lines,
        vec![
            Line { content: "p".to_string(), is_selected: false },
            Line { content: "q".to_string(), is_selected: false },
        ]
    );
}

#[test]
fn display_erases_previous_frame() {
    let mut g = SelectorState::new(strings(&["a", "b"]));
    let first = g.display(g.fmt_lines_for_display(24), 3);
    assert_eq!(first, "> [ ] a\n  [ ] b\n");
    assert_eq!(g.max_number_of_lines, 2);
    let second = g.display(vec!["z".to_string()], 3);
    assert_eq!(second, "\x1b[2A   \n   \n\x1b[2Az\n");
    assert_eq!(g.clear_screen(2), "\x1b[1A  \n\x1b[1A");
}

#[test]
fn cursor_up_uses_decimal_count() {
    let mut g = SelectorState::new(vec![]);
    g.max_number_of_lines = 123;
    let s = g.clear_screen(0);
    assert!(s.starts_with("\x1b[123A\n"));
    assert!(s.ends_with("\n\x1b[123A"));
    assert_eq!(s.len(), 6 + 123 + 6);
}

#[test]
fn empty_frame_is_one_newline() {
    let mut g = SelectorState::new(vec![]);
    assert_eq!(g.display(vec![], 10), "\n");
    assert_eq!(g.max_number_of_lines, 0);
}

#[test]
fn confirm_keeps_items_toggled_odd_times_in_input_order() {
    let lines = strings(&["a", "b", "c", "d"]);
    // toggles c, a, b, a, a, d, d: c, a and b an odd number of times
    let events = vec![
        UP, UP, SPACE, DOWN, DOWN, SPACE, DOWN, SPACE, UP, SPACE, SPACE, UP, SPACE, SPACE, ENTER,
    ];
    let r = select(lines, &events, 3);
    assert_eq!(r, Some(Outcome::Confirmed(strings(&["a", "b", "c"]))));
}
