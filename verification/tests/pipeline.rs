use lynx::classifier::QueryIntent;
use lynx::pipeline::{covers_location, expand_architectural_query, is_other_location, plan_search, should_skip};
use lynx::protocol::CodeChunk;

fn chunk(path: &str, start: usize, end: usize) -> CodeChunk {
    CodeChunk {
        id: "c".to_string(),
        file_path: path.to_string(),
        start_line: start,
        end_line: end,
        raw_content: String::new(),
        symbols_defined: vec![],
    }
}

#[test]
fn auth_queries_are_expanded() {
    assert_eq!(
        expand_architectural_query("Auth flow"),
        "Auth flow login jwt token middleware authorize verify access session identity permission oauth"
    );
}

#[test]
fn first_topic_wins() {
    assert_eq!(
        expand_architectural_query("db cache"),
        "db cache repository gorm sql transaction query storage client connection migration schema"
    );
    assert_eq!(
        expand_architectural_query("api settings"),
        "api settings controller handler route request response gateway payload"
    );
    assert_eq!(
        expand_architectural_query("cache layer"),
        "cache layer redis memcached ttl evict storage buffer local"
    );
    assert_eq!(
        expand_architectural_query("Settings lifecycle"),
        "Settings lifecycle environment variable yaml json property flag registry"
    );
}

#[test]
fn other_queries_are_kept() {
    assert_eq!(expand_architectural_query("request lifecycle"), "request lifecycle");
}

#[test]
fn search_plans() {
    let p = plan_search("AuthService");
    assert_eq!(p.intent, QueryIntent::Symbol);
    assert!(p.exact_first);
    assert_eq!(p.retrieval_query, "AuthService");

    let p = plan_search("authentication flow");
    assert_eq!(p.intent, QueryIntent::Flow);
    assert!(!p.exact_first);
    assert!(p.retrieval_query.starts_with("authentication flow login jwt"));

    let p = plan_search("how do we cache vectors");
    assert_eq!(p.intent, QueryIntent::Semantic);
    assert_eq!(p.retrieval_query, "how do we cache vectors");
}

#[test]
fn skipped_directories() {
    assert!(should_skip("/repo/.git/config"));
    assert!(should_skip("/repo/web/node_modules/x.js"));
    assert!(should_skip("/repo/vendor/a.go"));
    assert!(should_skip("/repo/target/debug/x.rs"));
    assert!(should_skip("/repo/build/out.js"));
    assert!(should_skip("/repo/dist/app.js"));
    assert!(!should_skip("/repo/src/main.go"));
    assert!(!should_skip("vendor/a.go"));
}

#[test]
fn location_cover() {
    let c = chunk("a.go", 10, 20);
    assert!(covers_location(&c, "a.go", 10));
    assert!(covers_location(&c, "a.go", 20));
    assert!(!covers_location(&c, "a.go", 21));
    assert!(!covers_location(&c, "b.go", 15));
    assert!(!is_other_location(&c, "a.go", 15));
    assert!(is_other_location(&c, "a.go", 9));
    assert!(is_other_location(&c, "b.go", 15));
}
