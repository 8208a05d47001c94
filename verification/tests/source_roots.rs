use fauni_search::glob::{glob_pattern_matches, wildcard_segment_matches};

#[test]
fn glob_pattern_matches_double_star_and_wildcards() {
    assert!(glob_pattern_matches(
        "reports/**/*.pdf",
        "reports/2025/q2/report.pdf"
    ));
    assert!(glob_pattern_matches("*.png", "chart.png"));
    assert!(!glob_pattern_matches("*.png", "chart.jpg"));
}

#[test]
fn double_star_matches_zero_segments_and_empty_pieces_are_ignored() {
    assert!(glob_pattern_matches("reports/**/*.pdf", "reports/a.pdf"));
    assert!(glob_pattern_matches("/reports//*.pdf/", "reports/a.pdf"));
    assert!(!glob_pattern_matches("reports/*.pdf", "reports/x/a.pdf"));
    assert!(glob_pattern_matches("**", ""));
    assert!(glob_pattern_matches("", ""));
    assert!(!glob_pattern_matches("", "a"));
}

#[test]
fn wildcard_question_mark_and_star() {
    assert!(wildcard_segment_matches("a?c", "abc"));
    assert!(!wildcard_segment_matches("a?c", "ac"));
    assert!(wildcard_segment_matches("a*", "a"));
    assert!(wildcard_segment_matches("*b*", "abc"));
    assert!(!wildcard_segment_matches("*b*", "acd"));
}
