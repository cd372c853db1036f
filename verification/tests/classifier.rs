use lynx::classifier::{classify_query, is_identifier_like, QueryIntent};

fn chars(s: &str) -> Vec<char> {
    s.chars().collect()
}

#[test]
fn empty_query_is_semantic() {
    assert_eq!(classify_query(""), QueryIntent::Semantic);
    assert_eq!(classify_query("   \t "), QueryIntent::Semantic);
}

#[test]
fn single_tokens_are_symbols() {
    assert_eq!(classify_query("AuthService"), QueryIntent::Symbol);
    assert_eq!(classify_query("Login"), QueryIntent::Symbol);
    assert_eq!(classify_query("ValidateJWT"), QueryIntent::Symbol);
    assert_eq!(classify_query("func:internal/auth:Login"), QueryIntent::Symbol);
    assert_eq!(classify_query("  login  "), QueryIntent::Symbol);
    assert_eq!(classify_query("flow"), QueryIntent::Symbol);
}

#[test]
fn flow_queries() {
    assert_eq!(classify_query("authentication flow"), QueryIntent::Flow);
    assert_eq!(classify_query("code PATH for login"), QueryIntent::Flow);
    assert_eq!(classify_query("startup sequence"), QueryIntent::Flow);
}

#[test]
fn architecture_queries() {
    assert_eq!(classify_query("module layout"), QueryIntent::Architecture);
    assert_eq!(classify_query("crate relationship"), QueryIntent::Architecture);
    assert_eq!(classify_query("storage dependency graph"), QueryIntent::Architecture);
    assert_eq!(classify_query("request lifecycle"), QueryIntent::Architecture);
}

#[test]
fn flow_wins_over_architecture() {
    assert_eq!(classify_query("module flow"), QueryIntent::Flow);
    assert_eq!(classify_query("request lifecycle flow"), QueryIntent::Flow);
}

#[test]
fn definition_queries() {
    assert_eq!(classify_query("where is login defined"), QueryIntent::Definition);
    assert_eq!(classify_query("signature of parse"), QueryIntent::Definition);
    assert_eq!(classify_query("who implements storage"), QueryIntent::Definition);
    assert_eq!(classify_query("parse_jwt token"), QueryIntent::Definition);
    assert_eq!(classify_query("the AuthService class"), QueryIntent::Definition);
    assert_eq!(classify_query("use auth.Login here"), QueryIntent::Definition);
}

#[test]
fn semantic_queries() {
    assert_eq!(classify_query("how do we cache vectors"), QueryIntent::Semantic);
    assert_eq!(classify_query("where are passwords hashed"), QueryIntent::Semantic);
}

#[test]
fn identifier_like_tokens() {
    assert!(is_identifier_like(&chars("std::io")));
    assert!(is_identifier_like(&chars("auth.Login")));
    assert!(is_identifier_like(&chars("parse_jwt")));
    assert!(is_identifier_like(&chars("Login")));
    assert!(!is_identifier_like(&chars("login")));
    assert!(!is_identifier_like(&chars("a:b")));
}
