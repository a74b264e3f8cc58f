use capture_core::labels::{format_client_line, truncate_middle, truncate_title};

#[test]
fn short_title_is_kept() {
    assert_eq!(truncate_title("hello", 5), "hello");
    assert_eq!(truncate_title("", 0), "");
}

#[test]
fn long_title_is_cut_by_characters() {
    assert_eq!(truncate_title("hello world", 5), "hello...");
    assert_eq!(truncate_title("h\u{e9}llo w\u{f6}rld", 4), "h\u{e9}ll...");
    assert_eq!(truncate_title("abc", 0), "...");
}

#[test]
fn middle_is_cut_out() {
    assert_eq!(truncate_middle("abcdefghij", 7), "ab...ij");
    assert_eq!(truncate_middle("abcdefghij", 8), "ab...hij");
    assert_eq!(truncate_middle("abcdefghij", 3), "...");
    assert_eq!(truncate_middle("abcdefghij", 10), "abcdefghij");
    assert_eq!(truncate_middle("ab", 2), "ab");
}

#[test]
fn client_line_shows_class_and_title() {
    assert_eq!(format_client_line("kitty", ""), "kitty");
    assert_eq!(format_client_line("firefox", "Inbox"), "firefox: Inbox");
    let long = "x".repeat(45);
    assert_eq!(format_client_line("app", &long), format!("app: {}...", "x".repeat(40)));
}
