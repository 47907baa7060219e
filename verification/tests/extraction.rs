use vms::{extract_line_name, extract_vmx_name};

fn lines(v: &[&str]) -> Vec<String> {
    v.iter().map(|s| s.to_string()).collect()
}

#[test]
fn extract_returns_display_name() {
    let content = lines(&[
        ".encoding = \"UTF-8\"",
        "displayname = \"Web Server\"",
        "memsize = \"2048\"",
    ]);
    assert_eq!(extract_vmx_name(&content), "Web Server");
}

#[test]
fn extract_without_display_name_is_unknown() {
    let content = lines(&[".encoding = \"UTF-8\"", "memsize = \"2048\""]);
    assert_eq!(extract_vmx_name(&content), "Unknown");
}

#[test]
fn extract_empty_file_is_unknown() {
    let content: Vec<String> = Vec::new();
    assert_eq!(extract_vmx_name(&content), "Unknown");
}

#[test]
fn extract_first_occurrence_wins() {
    let content = lines(&[
        "displayname = \"First\"",
        "displayname = \"Second\"",
        "displayname = \"Third\"",
    ]);
    assert_eq!(extract_vmx_name(&content), "First");
}

#[test]
fn line_with_exact_form_matches() {
    assert_eq!(
        extract_line_name("displayname = \"My VM\""),
        Some("My VM".to_string())
    );
}

#[test]
fn line_pattern_found_anywhere() {
    assert_eq!(
        extract_line_name("xxdisplayname = \"My VM\"yy"),
        Some("My VM".to_string())
    );
}

#[test]
fn line_value_runs_to_last_quote() {
    assert_eq!(
        extract_line_name("displayname = \"a\"b\""),
        Some("a\"b".to_string())
    );
}

#[test]
fn line_without_closing_quote_does_not_match() {
    assert_eq!(extract_line_name("displayname = \"unterminated"), None);
}

#[test]
fn line_with_other_setting_does_not_match() {
    assert_eq!(extract_line_name("guestos = \"debian\""), None);
    assert_eq!(extract_line_name(""), None);
}

#[test]
fn extract_empty_value() {
    assert_eq!(extract_line_name("displayname = \"\""), Some(String::new()));
}
