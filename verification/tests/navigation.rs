use lynx::navigation::{parse_location, split_symbol_id, split_symbol_id_with, LocationError};

#[test]
fn parses_file_and_line() {
    assert_eq!(
        parse_location("internal/auth/service.go:42"),
        Ok(("internal/auth/service.go".to_string(), 42))
    );
}

#[test]
fn file_may_hold_colons() {
    assert_eq!(parse_location("C:/repo/a.go:7"), Ok(("C:/repo/a.go".to_string(), 7)));
    assert_eq!(parse_location("a:b:10"), Ok(("a:b".to_string(), 10)));
}

#[test]
fn location_without_colon_has_no_file() {
    assert_eq!(parse_location("service.go"), Err(LocationError::MissingFilePath));
    assert_eq!(parse_location(""), Err(LocationError::MissingFilePath));
}

#[test]
fn invalid_line_numbers() {
    assert_eq!(parse_location("a.go:"), Err(LocationError::InvalidLine));
    assert_eq!(parse_location("a.go:x1"), Err(LocationError::InvalidLine));
    assert_eq!(parse_location("a.go:-1"), Err(LocationError::InvalidLine));
    assert_eq!(parse_location("a.go:+"), Err(LocationError::InvalidLine));
    assert_eq!(parse_location("a.go: 3"), Err(LocationError::InvalidLine));
    assert_eq!(
        parse_location("a.go:99999999999999999999999999"),
        Err(LocationError::InvalidLine)
    );
}

#[test]
fn line_numbers_as_usize_parses_them() {
    assert_eq!(parse_location("a.go:+7"), Ok(("a.go".to_string(), 7)));
    assert_eq!(parse_location(":0"), Ok(("".to_string(), 0)));
    assert_eq!(parse_location("a.go:007"), Ok(("a.go".to_string(), 7)));
    let max = format!("a.go:{}", usize::MAX);
    assert_eq!(parse_location(&max), Ok(("a.go".to_string(), usize::MAX)));
}

#[test]
fn round_trip_of_locations() {
    for (file, line) in [("x/y.py", 1usize), ("a:b.go", 12345), ("", 9)] {
        let loc = format!("{}:{}", file, line);
        assert_eq!(parse_location(&loc), Ok((file.to_string(), line)));
    }
}

#[test]
fn symbol_ids_show_kind_and_name() {
    assert_eq!(
        split_symbol_id("func:internal/auth:Login", "internal/auth/service.go"),
        ("func".to_string(), "Login".to_string())
    );
    assert_eq!(
        split_symbol_id("method:internal/auth:AuthService.Login", "x.go"),
        ("method".to_string(), "AuthService.Login".to_string())
    );
    assert_eq!(
        split_symbol_id("struct:a:b:C", "x.go"),
        ("struct".to_string(), "C".to_string())
    );
    assert_eq!(split_symbol_id("kind:Name", "x.go"), ("kind".to_string(), "Name".to_string()));
}

#[test]
fn file_ids_show_the_file_name() {
    assert_eq!(
        split_symbol_id("file:internal/auth/service.go", "internal/auth/service.go"),
        ("file".to_string(), "service.go".to_string())
    );
}

#[test]
fn plain_ids_show_the_file() {
    assert_eq!(
        split_symbol_id("weird", "src/lib/thing.rs"),
        ("symbol".to_string(), "thing.rs".to_string())
    );
    assert_eq!(split_symbol_id("weird", ""), ("symbol".to_string(), "weird".to_string()));
}

#[test]
fn split_with_given_components() {
    assert_eq!(
        split_symbol_id_with("file:a/b.go", None, None),
        ("file".to_string(), "a/b.go".to_string())
    );
    assert_eq!(
        split_symbol_id_with("file:a/b.go", Some("b.go".to_string()), None),
        ("file".to_string(), "b.go".to_string())
    );
    assert_eq!(
        split_symbol_id_with("x", None, Some("p.go".to_string())),
        ("symbol".to_string(), "p.go".to_string())
    );
}
