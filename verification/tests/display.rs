use lynx::display::format_discovery;
use lynx::navigation::parse_location;

#[test]
fn discovery_text_layout() {
    let text = format_discovery(
        "method",
        "AuthService.Login",
        "High",
        "92",
        &vec!["Lexical match".to_string(), "Definition match boost".to_string()],
        "method:internal/auth:AuthService.Login",
        "internal/auth/service.go",
        12,
        30,
    );
    assert_eq!(
        text,
        "METHOD\n  AuthService.Login\n\n  Confidence: High (92%)\n\n  Why:\n  - Lexical match\n  - Definition match boost\n\n  Symbol:\n  method:internal/auth:AuthService.Login\n\n  File:\n  internal/auth/service.go:12-30\n"
    );
}

#[test]
fn discovery_text_without_reasons_on_one_line() {
    let text = format_discovery("func", "main", "Low", "3", &vec![], "func:cmd:main", "cmd/main.go", 7, 7);
    assert_eq!(
        text,
        "FUNC\n  main\n\n  Confidence: Low (3%)\n\n  Symbol:\n  func:cmd:main\n\n  File:\n  cmd/main.go:7\n"
    );
}

#[test]
fn written_locations_read_back() {
    for line in [0usize, 7, 10, 12345, usize::MAX] {
        let loc = format!("src/a:b.rs:{}", line);
        assert_eq!(parse_location(&loc), Ok(("src/a:b.rs".to_string(), line)));
    }
}
