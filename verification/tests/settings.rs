use moodle_tui::settings::{setting_key, truncate_with_ellipsis};

#[test]
fn truncates_with_ellipsis() {
    assert_eq!(truncate_with_ellipsis("abcdef", 4), "abc…");
    assert_eq!(truncate_with_ellipsis("abcdef", 1), "…");
    assert_eq!(truncate_with_ellipsis("abc", 4), "abc");
}

#[test]
fn truncation_counts_wide_characters_and_zero_width() {
    assert_eq!(truncate_with_ellipsis("abcdef", 0), "");
    assert_eq!(truncate_with_ellipsis("中文字符", 5), "中文…");
    assert_eq!(truncate_with_ellipsis("中文字符", 4), "中…");
}

#[test]
fn setting_keys_join_plugin_and_name() {
    assert_eq!(setting_key("quiz-ai-extension", "gemini_model"), "quiz-ai-extension:gemini_model");
    assert_eq!(setting_key("", ""), ":");
}
