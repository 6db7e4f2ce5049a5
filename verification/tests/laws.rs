use multiselect::{Key, MultiSelect};

fn fruit() -> [&'static str; 6] {
    ["Apple", "apricot", "Banana", "Cherry", "grape", "Pineapple"]
}

#[test]
fn one_check_mark_per_entry_after_every_key() {
    let mut menu = MultiSelect::new();
    menu.items(&fruit()).paged(true).page_size(4);
    let keys = [
        Key::Char('a'),
        Key::ArrowDown,
        Key::Char(' '),
        Key::Char('p'),
        Key::ArrowRight,
        Key::Char('z'),
        Key::Char(' '),
        Key::ArrowLeft,
        Key::Backspace,
        Key::Backspace,
        Key::Backspace,
        Key::Backspace,
        Key::ArrowUp,
        Key::Other,
    ];
    let mut s = menu.start().unwrap();
    assert_eq!(s.checked().len(), 6);
    for key in keys {
        let (next, _) = s.handle_key(key);
        s = next;
        assert_eq!(s.checked().len(), 6);
    }
}

#[test]
fn cursor_stays_on_a_visible_row() {
    let mut menu = MultiSelect::new();
    menu.items(&fruit()).paged(true).page_size(2);
    let keys = [
        Key::ArrowUp,
        Key::Char('a'),
        Key::Char('p'),
        Key::ArrowRight,
        Key::ArrowRight,
        Key::Char('p'),
        Key::ArrowDown,
        Key::ArrowLeft,
        Key::Char('l'),
        Key::Char('e'),
        Key::ArrowUp,
        Key::Backspace,
        Key::ArrowDown,
        Key::ArrowDown,
    ];
    let mut s = menu.start().unwrap();
    for key in keys {
        let (next, _) = s.handle_key(key);
        s = next;
        let rows = s.visible();
        assert!(!rows.is_empty());
        assert!(s.cursor() < rows.len());
        assert_eq!(s.page(), s.cursor() / 2);
    }
}

#[test]
fn cursor_is_clamped_when_the_view_shrinks() {
    let mut menu = MultiSelect::new();
    menu.items(&fruit());
    let s = menu.start().unwrap();
    let (s, _) = s.handle_key(Key::ArrowUp);
    assert_eq!(s.cursor(), 5);
    let (s, _) = s.handle_key(Key::Char('r'));
    assert_eq!(s.visible(), vec![1, 3, 4]);
    assert_eq!(s.cursor(), 2);
    let (s, _) = s.handle_key(Key::Char('y'));
    assert_eq!(s.visible(), vec![3]);
    assert_eq!(s.cursor(), 0);
}

#[test]
fn empty_view_keeps_cursor_and_allows_editing() {
    let mut menu = MultiSelect::new();
    menu.items(&fruit());
    let s = menu.start().unwrap();
    let (s, _) = s.handle_key(Key::ArrowDown);
    let (s, _) = s.handle_key(Key::ArrowDown);
    let (s, _) = s.handle_key(Key::Char('q'));
    assert!(s.visible().is_empty());
    assert_eq!(s.cursor(), 2);
    let (s, _) = s.handle_key(Key::Char(' '));
    assert_eq!(s.checked(), &vec![false; 6]);
    assert_eq!(s.filter_text(), "q");
    let (s, _) = s.handle_key(Key::ArrowDown);
    let (s, _) = s.handle_key(Key::ArrowUp);
    let (s, _) = s.handle_key(Key::ArrowLeft);
    let (s, _) = s.handle_key(Key::ArrowRight);
    assert_eq!(s.cursor(), 2);
    let (s, _) = s.handle_key(Key::Backspace);
    assert_eq!(s.visible(), vec![0, 1, 2, 3, 4, 5]);
    assert_eq!(s.cursor(), 2);
    let (s, _) = s.handle_key(Key::Char('q'));
    let (_, r) = s.handle_key(Key::Enter);
    assert_eq!(r.outcome.unwrap().into_selection(), Vec::<usize>::new());
}

#[test]
fn toggling_twice_restores_the_mark() {
    let mut menu = MultiSelect::new();
    menu.items_checked(&[("a", false), ("b", true), ("c", false)]);
    let s = menu.start().unwrap();
    let (s, _) = s.handle_key(Key::ArrowDown);
    let before = s.checked().clone();
    let (s, _) = s.handle_key(Key::Char(' '));
    assert_eq!(s.checked(), &vec![false, false, false]);
    let (s, _) = s.handle_key(Key::Char(' '));
    assert_eq!(s.checked(), &before);
    assert_eq!(s.cursor(), 1);
}

#[test]
fn toggle_goes_by_menu_position() {
    let mut menu = MultiSelect::new();
    menu.items(&fruit());
    let s = menu.start().unwrap();
    let (s, _) = s.handle_key(Key::Char('n'));
    assert_eq!(s.visible(), vec![2, 5]);
    let (s, _) = s.handle_key(Key::ArrowDown);
    let (s, _) = s.handle_key(Key::Char(' '));
    let (s, _) = s.handle_key(Key::Backspace);
    assert_eq!(s.checked(), &vec![false, false, false, false, false, true]);
    let (_, r) = s.handle_key(Key::Enter);
    assert_eq!(r.outcome.unwrap().into_selection(), vec![5]);
}

#[test]
fn down_once_per_row_comes_back() {
    let mut menu = MultiSelect::new();
    menu.items(&fruit()).paged(true).page_size(4);
    let s = menu.start().unwrap();
    let (s, _) = s.handle_key(Key::Char('a'));
    let (mut s, _) = s.handle_key(Key::ArrowDown);
    let rows = s.visible().len();
    assert_eq!(rows, 5);
    let cursor = s.cursor();
    let page = s.page();
    let mut seen = Vec::new();
    for _ in 0..rows {
        let (next, _) = s.handle_key(Key::ArrowDown);
        s = next;
        seen.push(s.cursor());
    }
    assert_eq!(seen, vec![2, 3, 4, 0, 1]);
    assert_eq!(s.cursor(), cursor);
    assert_eq!(s.page(), page);
}

#[test]
fn up_from_the_top_goes_to_the_bottom() {
    let mut menu = MultiSelect::new();
    menu.items(&fruit());
    let s = menu.start().unwrap();
    let (s, _) = s.handle_key(Key::ArrowUp);
    assert_eq!(s.cursor(), 5);
    let (s, _) = s.handle_key(Key::ArrowUp);
    assert_eq!(s.cursor(), 4);
    let (s, _) = s.handle_key(Key::ArrowDown);
    let (s, _) = s.handle_key(Key::ArrowDown);
    assert_eq!(s.cursor(), 0);
}

#[test]
fn page_follows_the_cursor() {
    let mut menu = MultiSelect::new();
    menu.items(&fruit()).paged(true).page_size(4);
    let s = menu.start().unwrap();
    let (s, _) = s.handle_key(Key::ArrowUp);
    assert_eq!(s.cursor(), 5);
    assert_eq!(s.page(), 1);
    let (s, _) = s.handle_key(Key::ArrowDown);
    assert_eq!(s.cursor(), 0);
    assert_eq!(s.page(), 0);
}

#[test]
fn left_and_right_do_nothing_without_paging() {
    let mut menu = MultiSelect::new();
    menu.items(&fruit()).page_size(2);
    let s = menu.start().unwrap();
    let (s, _) = s.handle_key(Key::ArrowDown);
    let (s, _) = s.handle_key(Key::ArrowRight);
    assert_eq!((s.cursor(), s.page()), (1, 0));
    let (s, _) = s.handle_key(Key::ArrowLeft);
    assert_eq!((s.cursor(), s.page()), (1, 0));
}

#[test]
fn backspace_until_empty_shows_everything_again() {
    let mut menu = MultiSelect::new();
    menu.items(&fruit());
    let mut s = menu.start().unwrap();
    for c in "pine".chars() {
        let (next, _) = s.handle_key(Key::Char(c));
        s = next;
    }
    assert_eq!(s.visible(), vec![5]);
    for left in ["pin", "pi", "p", ""] {
        let (next, _) = s.handle_key(Key::Backspace);
        s = next;
        assert_eq!(s.filter_text(), left);
    }
    assert_eq!(s.visible(), vec![0, 1, 2, 3, 4, 5]);
    let (s, _) = s.handle_key(Key::Backspace);
    assert_eq!(s.filter_text(), "");
    assert_eq!(s.visible(), vec![0, 1, 2, 3, 4, 5]);
}

#[test]
fn same_state_same_frame() {
    let mut menu = MultiSelect::new();
    menu.items(&fruit()).paged(true).page_size(3).with_prompt("Fruit");
    let s = menu.start().unwrap();
    let (s, _) = s.handle_key(Key::Char('a'));
    let (s, _) = s.handle_key(Key::Char(' '));
    let first = s.frame();
    let second = s.frame();
    assert_eq!(first, second);
    assert_eq!(s.cursor(), 0);
    assert_eq!(s.filter_text(), "a");
}
