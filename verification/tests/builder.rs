use multiselect::lines::line_sizes;
use multiselect::{Item, MultiSelect, SimpleTheme};

#[test]
fn a_new_menu_is_empty_and_plain() {
    let menu = MultiSelect::new();
    assert!(menu.entries().is_empty());
    assert!(menu.prompt_text().is_none());
    assert!(menu.clears_on_exit());
    assert!(!menu.is_paged());
    assert_eq!(menu.capacity(7), 7);
}

#[test]
fn with_theme_carries_the_theme() {
    let theme = String::from("neon");
    let mut menu = MultiSelect::with_theme(&theme);
    menu.item("a").paged(true);
    assert!(std::ptr::eq(menu.theme(), &theme));
    assert_eq!(menu.theme(), "neon");
    assert!(menu.prompt_text().is_none());
    assert!(menu.clears_on_exit());
    assert_eq!(menu.capacity(3), 10);
}

#[test]
fn with_theme_takes_unsized_themes() {
    let menu = MultiSelect::<str>::with_theme("plain");
    assert_eq!(menu.theme(), "plain");
    let simple: &SimpleTheme = MultiSelect::new().theme();
    let _ = simple;
}

#[test]
fn page_size_is_used_when_paged() {
    let mut menu = MultiSelect::new();
    menu.page_size(3);
    assert_eq!(menu.capacity(8), 8);
    menu.paged(true);
    assert_eq!(menu.capacity(8), 3);
    assert_eq!(menu.capacity(0), 3);
    menu.paged(false);
    assert_eq!(menu.capacity(0), 0);
}

#[test]
fn page_size_zero_stands_for_ten() {
    let mut menu = MultiSelect::new();
    menu.paged(true).page_size(4).page_size(0);
    assert_eq!(menu.capacity(50), 10);
}

#[test]
fn items_are_added_in_order() {
    let mut menu = MultiSelect::new();
    menu.item("a")
        .item_checked("b", true)
        .items(&["c", "d"])
        .items_checked(&[("e", true), ("f", false)])
        .item_checked("g", false);
    let expected = vec![
        Item::new("a", false),
        Item::new("b", true),
        Item::new("c", false),
        Item::new("d", false),
        Item::new("e", true),
        Item::new("f", false),
        Item::new("g", false),
    ];
    assert_eq!(menu.entries(), &expected);
}

#[test]
fn defaults_shorter_than_the_menu_are_padded() {
    let mut menu = MultiSelect::new();
    menu.items(&["a", "b", "c", "d"]).defaults(&[true, false, true]);
    let flags: Vec<bool> = menu.entries().iter().map(|i| i.checked).collect();
    assert_eq!(flags, vec![true, false, true, false]);
}

#[test]
fn defaults_longer_than_the_menu_are_cut() {
    let mut menu = MultiSelect::new();
    menu.items(&["a", "b"]).defaults(&[false, true, true, true]).item("c");
    let flags: Vec<bool> = menu.entries().iter().map(|i| i.checked).collect();
    assert_eq!(flags, vec![false, true, false]);
    let labels: Vec<&str> = menu.entries().iter().map(|i| i.label.as_str()).collect();
    assert_eq!(labels, vec!["a", "b", "c"]);
}

#[test]
fn defaults_replace_earlier_marks() {
    let mut menu = MultiSelect::new();
    menu.items_checked(&[("a", true), ("b", true)]).defaults(&[]);
    let flags: Vec<bool> = menu.entries().iter().map(|i| i.checked).collect();
    assert_eq!(flags, vec![false, false]);
}

#[test]
fn prompt_and_clear_are_kept() {
    let mut menu = MultiSelect::new();
    menu.with_prompt("Pick some").clear(false);
    assert_eq!(menu.prompt_text().map(|p| p.as_str()), Some("Pick some"));
    assert!(!menu.clears_on_exit());
    menu.with_prompt("Pick more").clear(true);
    assert_eq!(menu.prompt_text().map(|p| p.as_str()), Some("Pick more"));
    assert!(menu.clears_on_exit());
}

#[test]
fn line_sizes_count_bytes_of_each_line() {
    let items = vec![
        Item::new("ab\ncde", false),
        Item::new("", false),
        Item::new("x\n", true),
        Item::new("h\u{e9}llo", false),
        Item::new("\n\n", false),
        Item::new("\u{65e5}\u{672c}\n\u{1f600}!", false),
    ];
    assert_eq!(line_sizes(&items), vec![2, 3, 0, 1, 0, 6, 0, 0, 0, 6, 5]);
    assert_eq!(line_sizes(&Vec::new()), Vec::<usize>::new());
}
