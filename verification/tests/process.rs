use fk_kuro_launcher::process::{shell_execute_parameters, show_error_message_box, spawn_error_log_line};

#[test]
fn shell_parameters_quote_and_escape() {
    assert_eq!(shell_execute_parameters(&[]), None);
    let args: Vec<String> = vec![
        "-plain".into(),
        "with space".into(),
        "tab\there".into(),
        "say \"hi\"".into(),
    ];
    assert_eq!(
        shell_execute_parameters(&args).as_deref(),
        Some("-plain \"with space\" \"tab\there\" \"say \\\"hi\\\"\"")
    );
    let single: Vec<String> = vec!["x".into()];
    assert_eq!(shell_execute_parameters(&single).as_deref(), Some("x"));
    let quote_only: Vec<String> = vec!["a\"b".into()];
    assert_eq!(shell_execute_parameters(&quote_only).as_deref(), Some("\"a\\\"b\""));
}

#[test]
fn spawn_error_messages() {
    assert_eq!(
        spawn_error_log_line("game.exe", "not found"),
        "[ERROR] Failed to spawn game process game.exe: not found"
    );
    let (text, caption) = show_error_message_box("g.exe", "boom");
    let expected_text: Vec<u16> = "Failed to spawn game process:\ng.exe\n\nError: boom"
        .encode_utf16()
        .chain(std::iter::once(0))
        .collect();
    let expected_caption: Vec<u16> = "fk_kuro_launcher Error\0".encode_utf16().collect();
    assert_eq!(text, expected_text);
    assert_eq!(caption, expected_caption);
}
