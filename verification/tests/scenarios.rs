use multiselect::{DrawCall, EmptyInputError, Key, MultiSelect, Outcome};

fn letters() -> [&'static str; 5] {
    ["alpha", "beta", "gamma", "delta", "epsilon"]
}

#[test]
fn space_on_first_and_third_then_enter() {
    let mut menu = MultiSelect::new();
    menu.items(&letters());
    let s = menu.start().unwrap();
    let (s, r) = s.handle_key(Key::Char(' '));
    assert!(r.outcome.is_none());
    let (s, _) = s.handle_key(Key::ArrowDown);
    let (s, _) = s.handle_key(Key::ArrowDown);
    assert_eq!(s.cursor(), 2);
    let (s, _) = s.handle_key(Key::Char(' '));
    assert_eq!(s.checked(), &vec![true, false, true, false, false]);
    let (_, r) = s.handle_key(Key::Enter);
    assert_eq!(r.outcome, Some(Outcome::Confirmed(vec![0, 2])));
    assert_eq!(r.outcome.unwrap().into_selection(), vec![0, 2]);
}

#[test]
fn right_walks_three_pages_and_wraps() {
    let mut menu = MultiSelect::new();
    menu.items(&letters()).paged(true).page_size(2);
    let s = menu.start().unwrap();
    assert_eq!(s.page(), 0);
    let (s, _) = s.handle_key(Key::ArrowRight);
    assert_eq!(s.page(), 1);
    assert_eq!(s.cursor(), 2);
    let (s, _) = s.handle_key(Key::ArrowRight);
    assert_eq!(s.page(), 2);
    assert_eq!(s.cursor(), 4);
    let (s, _) = s.handle_key(Key::ArrowRight);
    assert_eq!(s.page(), 0);
    assert_eq!(s.cursor(), 0);
}

#[test]
fn left_from_first_page_wraps_to_last() {
    let mut menu = MultiSelect::new();
    menu.items(&letters()).paged(true).page_size(2);
    let s = menu.start().unwrap();
    let (s, _) = s.handle_key(Key::ArrowLeft);
    assert_eq!(s.page(), 2);
    assert_eq!(s.cursor(), 4);
    let (s, _) = s.handle_key(Key::ArrowLeft);
    assert_eq!(s.page(), 1);
    assert_eq!(s.cursor(), 2);
}

#[test]
fn typing_ap_leaves_apple_and_apricot() {
    let mut menu = MultiSelect::new();
    menu.items(&["Apple", "apricot", "Banana"]);
    let s = menu.start().unwrap();
    let (s, _) = s.handle_key(Key::ArrowUp);
    assert_eq!(s.cursor(), 2);
    let (s, _) = s.handle_key(Key::Char('a'));
    let (s, _) = s.handle_key(Key::Char('p'));
    assert_eq!(s.filter_text(), "ap");
    assert_eq!(s.visible(), vec![0, 1]);
    assert_eq!(s.cursor(), 1);
    let rows = multiselect::filter::filter(menu.entries(), "ap");
    assert_eq!(rows, vec![(0, "Apple".to_string()), (1, "apricot".to_string())]);
}

#[test]
fn escape_at_once_returns_the_defaults() {
    let mut menu = MultiSelect::new();
    menu.item("one").item_checked("two", true).item("three");
    let s = menu.start().unwrap();
    let (_, r) = s.handle_key(Key::Escape);
    assert_eq!(r.outcome, Some(Outcome::Cancelled(vec![1])));
}

#[test]
fn escape_forgets_the_edits() {
    let mut menu = MultiSelect::new();
    menu.item("one").item_checked("two", true).item("three");
    let s = menu.start().unwrap();
    let (s, _) = s.handle_key(Key::Char(' '));
    let (s, _) = s.handle_key(Key::ArrowDown);
    let (s, _) = s.handle_key(Key::Char(' '));
    assert_eq!(s.checked(), &vec![true, false, false]);
    let (_, r) = s.handle_key(Key::Escape);
    assert_eq!(r.outcome.unwrap().into_selection(), vec![1]);
}

#[test]
fn no_items_is_an_error_and_draws_nothing() {
    let menu = MultiSelect::new();
    match menu.start() {
        Ok(_) => panic!("a menu without entries started"),
        Err(e) => {
            assert_eq!(e, EmptyInputError);
            assert_eq!(e.message(), "Empty list of items given to `MultiSelect`");
        }
    }
}

#[test]
fn no_items_after_defaults_is_still_an_error() {
    let mut menu = MultiSelect::new();
    menu.defaults(&[true, true]).with_prompt("pick");
    assert!(menu.start().is_err());
}

#[test]
fn start_state_is_top_of_first_page() {
    let mut menu = MultiSelect::new();
    menu.items_checked(&[("a", true), ("b", false), ("c", true)]);
    let s = menu.start().unwrap();
    assert_eq!(s.cursor(), 0);
    assert_eq!(s.page(), 0);
    assert_eq!(s.filter_text(), "");
    assert_eq!(s.checked(), &vec![true, false, true]);
    assert_eq!(s.visible(), vec![0, 1, 2]);
}

#[test]
fn enter_at_once_returns_the_defaults_too() {
    let mut menu = MultiSelect::new();
    menu.items_checked(&[("a", true), ("b", false), ("c", true)]);
    let (_, r) = menu.start().unwrap().handle_key(Key::Enter);
    assert_eq!(r.outcome, Some(Outcome::Confirmed(vec![0, 2])));
}

#[test]
fn other_keys_change_nothing() {
    let mut menu = MultiSelect::new();
    menu.items(&letters());
    let s = menu.start().unwrap();
    let (s, _) = s.handle_key(Key::ArrowDown);
    let (s, r) = s.handle_key(Key::Other);
    assert!(r.outcome.is_none());
    assert_eq!(s.cursor(), 1);
    assert_eq!(s.page(), 0);
    assert_eq!(s.filter_text(), "");
    assert_eq!(s.checked(), &vec![false; 5]);
    assert_eq!(r.calls, vec![DrawCall::ClearPreservingPrompt(vec![5, 4, 5, 5, 7])]);
}
