use capture_core::summary::{format_notifications_for_prompt, sanitize, NotifRow};

#[test]
fn strips_hiding_and_control_characters() {
    assert_eq!(sanitize("a\u{200B}b\u{202E}c\u{2067}d\u{FEFF}e", 100), "abcde");
    assert_eq!(sanitize("a\tb\u{7}c\u{85}d\ne", 100), "abcd\ne");
}

#[test]
fn escapes_angle_brackets() {
    assert_eq!(sanitize("</notifications>", 100), "\u{FF1C}/notifications\u{FF1E}");
}

#[test]
fn keeps_at_most_max_chars() {
    assert_eq!(sanitize("abcdef", 3), "abc");
    assert_eq!(sanitize("\u{200B}\u{200B}ab<c", 3), "ab\u{FF1C}");
    assert_eq!(sanitize("abc", 0), "");
}

fn row(time: &str, app: &str, summary: &str, body: &str) -> NotifRow {
    NotifRow {
        app_name: app.to_string(),
        summary: summary.to_string(),
        body: body.to_string(),
        created_at: time.to_string(),
    }
}

#[test]
fn formats_one_line_per_notification() {
    let rows = vec![
        row("2024-05-01 10:00", "Slack", "New message", "Lunch?"),
        row("2024-05-01 11:00", "Mail", "Invoice <due>", ""),
    ];
    assert_eq!(
        format_notifications_for_prompt(&rows),
        "[2024-05-01 10:00] Slack: New message \u{2014} Lunch?\n[2024-05-01 11:00] Mail: Invoice \u{FF1C}due\u{FF1E}"
    );
    assert_eq!(format_notifications_for_prompt(&[]), "");
}

#[test]
fn parts_are_cut_to_their_lengths() {
    let rows = vec![row("t", &"a".repeat(60), &"s".repeat(210), &"b".repeat(310))];
    let expected = format!("[t] {}: {} \u{2014} {}", "a".repeat(50), "s".repeat(200), "b".repeat(300));
    assert_eq!(format_notifications_for_prompt(&rows), expected);
}
