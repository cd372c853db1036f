use lynx::classifier::QueryIntent;
use lynx::protocol::CodeChunk;
use lynx::ranking::{
    display_symbol_id, is_definition_of_query, noise_tier, symbol_name, Adjustment, NoiseTier,
    RankPlan, Ranker,
};

fn chunk(id: &str, path: &str, symbols: &[&str]) -> CodeChunk {
    CodeChunk {
        id: id.to_string(),
        file_path: path.to_string(),
        start_line: 1,
        end_line: 2,
        raw_content: String::new(),
        symbols_defined: symbols.iter().map(|s| s.to_string()).collect(),
    }
}

fn find<'a>(plans: &'a [RankPlan], id: &str) -> &'a RankPlan {
    plans.iter().find(|p| p.chunk.id == id).unwrap()
}

#[test]
fn symbol_names_follow_the_last_colon() {
    let name: String = symbol_name(&"method:internal/auth:Service.Login".chars().collect::<Vec<_>>())
        .into_iter()
        .collect();
    assert_eq!(name, "Service.Login");
    let name: String = symbol_name(&"plain".chars().collect::<Vec<_>>()).into_iter().collect();
    assert_eq!(name, "plain");
}

#[test]
fn fusion_keeps_one_entry_per_chunk() {
    let lexical = vec![
        chunk("a", "src/a.go", &["func:src:A"]),
        chunk("b", "src/b.go", &["func:src:B"]),
        chunk("a", "src/a.go", &["func:src:A"]),
    ];
    let semantic = vec![chunk("c", "src/c.go", &[]), chunk("a", "src/a.go", &["func:src:A"])];
    let plans = Ranker::plan("zzz", QueryIntent::Definition, lexical, semantic, false);
    let ids: Vec<&str> = plans.iter().map(|p| p.chunk.id.as_str()).collect();
    assert_eq!(ids, vec!["a", "b", "c"]);
    assert_eq!(find(&plans, "a").lexical_ranks, vec![0, 2]);
    assert_eq!(find(&plans, "a").semantic_ranks, vec![1]);
    assert_eq!(find(&plans, "b").lexical_ranks, vec![1]);
    assert!(find(&plans, "b").semantic_ranks.is_empty());
    assert_eq!(find(&plans, "c").semantic_ranks, vec![0]);
    assert_eq!(find(&plans, "a").reasons(), vec!["Lexical match", "Semantic match"]);
    assert_eq!(find(&plans, "c").reasons(), vec!["Semantic match"]);
}

#[test]
fn noise_is_filtered_unless_tests_are_asked_for() {
    let lexical = vec![
        chunk("v", "vendor/lib.go", &[]),
        chunk("t", "internal/auth_test.go", &[]),
        chunk("m", "Mocks/service.go", &[]),
        chunk("s", "internal/auth.go", &[]),
    ];
    let plans = Ranker::plan("x", QueryIntent::Definition, lexical.clone(), vec![], false);
    let ids: Vec<&str> = plans.iter().map(|p| p.chunk.id.as_str()).collect();
    assert_eq!(ids, vec!["s"]);
    let plans = Ranker::plan("x", QueryIntent::Definition, lexical, vec![], true);
    assert_eq!(plans.len(), 4);
    assert_eq!(find(&plans, "v").adjustments[0], Adjustment::Noise(NoiseTier::Vendor));
    assert_eq!(find(&plans, "t").adjustments[0], Adjustment::Noise(NoiseTier::TestFile));
    assert_eq!(find(&plans, "m").adjustments[0], Adjustment::Noise(NoiseTier::MockOrTestDir));
    assert_eq!(
        find(&plans, "v").reasons(),
        vec!["Lexical match", "Vendor/node_modules penalty"]
    );
}

#[test]
fn noise_tiers() {
    assert_eq!(noise_tier(&"a/node_modules/x.js".to_string()), Some(NoiseTier::Vendor));
    assert_eq!(noise_tier(&"api/v1/user.pb.go".to_string()), Some(NoiseTier::Generated));
    assert_eq!(noise_tier(&"pkg/x_test.py".to_string()), Some(NoiseTier::TestFile));
    assert_eq!(noise_tier(&"pkg/testdata/a.go".to_string()), Some(NoiseTier::TestFile));
    assert_eq!(noise_tier(&"pkg/tests/a.go".to_string()), Some(NoiseTier::MockOrTestDir));
    assert_eq!(noise_tier(&"Examples/demo.go".to_string()), Some(NoiseTier::FixtureOrBuild));
    assert_eq!(noise_tier(&"dist/app.js".to_string()), Some(NoiseTier::FixtureOrBuild));
    assert_eq!(noise_tier(&"internal/auth/service.go".to_string()), None);
}

#[test]
fn definition_of_query() {
    let c = chunk("a", "x.go", &["method:internal/auth:AuthService.Login"]);
    assert!(is_definition_of_query(&c, "authservice.login"));
    assert!(is_definition_of_query(&c, "LOGIN flow"));
    assert!(is_definition_of_query(&c, "the authservice"));
    assert!(!is_definition_of_query(&c, "logout"));
    assert!(!is_definition_of_query(&chunk("b", "x.go", &[]), "login"));
}

#[test]
fn symbol_query_boosts() {
    let lexical = vec![
        chunk("a", "internal/auth/service.go", &["method:internal/auth:AuthService.Login"]),
        chunk("b", "internal/auth/service.go", &["func:internal/auth:helper"]),
        chunk("c", "internal/db/store.go", &["func:internal/db:Store"]),
    ];
    let plans = Ranker::plan("Login", QueryIntent::Symbol, lexical, vec![], false);
    assert_eq!(
        find(&plans, "a").adjustments,
        vec![Adjustment::Definition, Adjustment::Identifier, Adjustment::FileCoherence(2)]
    );
    assert_eq!(find(&plans, "b").adjustments, vec![Adjustment::FileCoherence(2)]);
    assert!(find(&plans, "c").adjustments.is_empty());
    assert_eq!(
        find(&plans, "a").reasons(),
        vec!["Lexical match", "Definition boost", "Identifier match boost", "File coherence boost"]
    );
}

#[test]
fn broad_intent_heuristics() {
    let lexical = vec![
        chunk(
            "a",
            "internal/auth/handler.go",
            &["type:internal/auth:AuthHandler", "func:internal/auth:ApiRouter"],
        ),
        chunk("b", "cmd/main.go", &["func:cmd:main"]),
    ];
    let plans = Ranker::plan("auth handler", QueryIntent::Semantic, lexical, vec![], false);
    assert_eq!(
        find(&plans, "a").adjustments,
        vec![
            Adjustment::Identifier,
            Adjustment::Concept,
            Adjustment::Intent,
            Adjustment::Intent,
        ]
    );
    assert_eq!(find(&plans, "b").adjustments, vec![Adjustment::GenericSymbol]);
    assert_eq!(
        find(&plans, "b").reasons(),
        vec!["Lexical match", "Generic symbol penalty"]
    );
}

#[test]
fn narrow_intents_skip_broad_heuristics() {
    let lexical = vec![chunk("b", "cmd/main.go", &["func:cmd:main"])];
    let plans = Ranker::plan("start", QueryIntent::Definition, lexical, vec![], false);
    assert!(find(&plans, "b").adjustments.is_empty());
}

#[test]
fn display_ids() {
    assert_eq!(display_symbol_id(&chunk("a", "x.go", &["func:p:F", "func:p:G"])), "func:p:F");
    assert_eq!(display_symbol_id(&chunk("a", "src/x.go", &[])), "file:src/x.go");
    let plans = Ranker::plan("q", QueryIntent::Symbol, vec![chunk("a", "src/x.go", &[])], vec![], false);
    assert_eq!(plans[0].symbol_id(), "file:src/x.go");
}

#[test]
fn generic_method_names_are_penalized() {
    let lexical = vec![
        chunk("c", "src/parser.rs", &["method:src:Parser.new"]),
        chunk("d", "src/parser.rs", &["method:src:Parser.newline"]),
    ];
    let plans = Ranker::plan("zzz qqq", QueryIntent::Semantic, lexical, vec![], false);
    assert!(find(&plans, "c").adjustments.contains(&Adjustment::GenericSymbol));
    assert!(!find(&plans, "d").adjustments.contains(&Adjustment::GenericSymbol));
}
