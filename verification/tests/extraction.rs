use lynx::parser::{language_for_extension, Parser, SourceLanguage};
use lynx::symbol_extraction::{go, javascript, python};
use lynx::syntax::{parse_syntax, Grammar, SyntaxNode};

const AUTH_GO: &str = r#"package auth

import "context"

type AuthService struct {
	secret string
}

type Validator interface {
	Validate(token string) bool
}

type (
	UserID int
	Session struct{}
)

func NewAuthService(secret string) *AuthService {
	return &AuthService{secret: secret}
}

func (s AuthService) Name() string {
	return "auth"
}

func (s *AuthService) Login(ctx context.Context, user string) error {
	return nil
}

func (s *AuthService) Close() {
}
"#;

fn ids(symbols: &[lynx::protocol::SymbolRecord]) -> Vec<String> {
    symbols.iter().map(|s| s.symbol_id.clone()).collect()
}

#[test]
fn test_parse_go() {
    let parser = Parser::new();
    let (chunks, symbols) = parser.parse_file("testdata/auth.go", AUTH_GO).unwrap();
    for chunk in &chunks {
        println!("  Chunk: {} {}-{} symbols: {:?}", chunk.id, chunk.start_line, chunk.end_line, chunk.symbols_defined);
    }
    assert!(!symbols.is_empty());
}

#[test]
fn go_symbols() {
    let (chunks, symbols) = go::extract("testdata/auth.go", AUTH_GO).unwrap();
    assert_eq!(
        ids(&symbols),
        vec![
            "struct:testdata:AuthService",
            "interface:testdata:Validator",
            "type:testdata:UserID",
            "type:testdata:Session",
            "func:testdata:NewAuthService",
            "method:testdata:AuthService.Name",
            "method:testdata:AuthService.Login",
            "method:testdata:AuthService.Close",
        ]
    );
    assert_eq!(chunks.len(), symbols.len());
    for (c, s) in chunks.iter().zip(symbols.iter()) {
        assert_eq!(c.symbols_defined, vec![s.symbol_id.clone()]);
        assert_eq!(c.file_path, "testdata/auth.go");
        assert_eq!(c.start_line, s.start_line);
        assert_eq!(c.id, blake3::hash(c.raw_content.as_bytes()).to_string());
        assert_eq!(c.id.len(), 64);
    }
    for c in &chunks {
        assert!(AUTH_GO.contains(&c.raw_content));
    }
    let f = symbols.iter().find(|s| s.symbol_name == "NewAuthService").unwrap();
    assert_eq!((f.start_line, f.end_line), (18, 20));
    assert!(chunks[4].raw_content.starts_with("func NewAuthService"));
}

#[test]
fn go_scope_of_top_level_file() {
    let (_, symbols) = go::extract("main.go", "package main\nfunc main() {}\n").unwrap();
    assert_eq!(ids(&symbols), vec!["func:crate:main"]);
    let (_, symbols) = go::extract("a\\b\\main.go", "package main\nfunc main() {}\n").unwrap();
    assert_eq!(symbols[0].file_path, "a/b/main.go");
}

const APP_PY: &str = r#"class Service:
    def login(self):
        def inner():
            pass
        return inner

def helper():
    pass
"#;

#[test]
fn python_symbols() {
    let (chunks, symbols) = python::extract("app/service.py", APP_PY).unwrap();
    assert_eq!(
        ids(&symbols),
        vec![
            "class:app:Service",
            "method:app:Service.login",
            "method:app:Service.inner",
            "func:app:helper",
        ]
    );
    assert_eq!(symbols[1].symbol_name, "Service.login");
    assert_eq!(chunks[0].start_line, 1);
    assert_eq!(chunks[3].start_line, 7);
}

const APP_JS: &str = r#"function start() {}
class Widget {
  render() { return 1; }
}
"#;

#[test]
fn javascript_symbols() {
    let (_, symbols) = javascript::extract("web/app.js", APP_JS).unwrap();
    assert_eq!(
        ids(&symbols),
        vec!["func:web:start", "class:web:Widget", "method:web:render"]
    );
}

#[test]
fn dispatch_by_extension() {
    assert_eq!(language_for_extension("go"), Some(SourceLanguage::Go));
    assert_eq!(language_for_extension("tsx"), Some(SourceLanguage::TypeScript));
    assert_eq!(language_for_extension("jsx"), Some(SourceLanguage::JavaScript));
    assert_eq!(language_for_extension("py"), Some(SourceLanguage::Python));
    assert_eq!(language_for_extension("rs"), Some(SourceLanguage::Rust));
    assert_eq!(language_for_extension("md"), None);
    let parser = Parser::default();
    let (chunks, symbols) = parser.parse_file("README.md", "# title").unwrap();
    assert!(chunks.is_empty() && symbols.is_empty());
    let (_, symbols) = parser.parse_file("web/app.js", APP_JS).unwrap();
    assert_eq!(symbols.len(), 3);
}

fn leaf(kind: &str, field: Option<&str>, text: &str) -> SyntaxNode {
    SyntaxNode {
        kind: kind.to_string(),
        field: field.map(|f| f.to_string()),
        named: true,
        start_line: 3,
        end_line: 3,
        text: Some(text.to_string()),
        children: vec![],
    }
}

#[test]
fn extraction_from_a_given_tree() {
    let decl = SyntaxNode {
        kind: "function_declaration".to_string(),
        field: None,
        named: true,
        start_line: 3,
        end_line: 5,
        text: Some("func Run() {}".to_string()),
        children: vec![leaf("identifier", Some("name"), "Run")],
    };
    let root = SyntaxNode {
        kind: "source_file".to_string(),
        field: None,
        named: true,
        start_line: 1,
        end_line: 9,
        text: Some(String::new()),
        children: vec![decl],
    };
    let (chunks, symbols) = go::symbols_from_tree(&root, "pkg", "pkg/run.go").unwrap();
    assert_eq!(ids(&symbols), vec!["func:pkg:Run"]);
    assert_eq!((chunks[0].start_line, chunks[0].end_line), (3, 5));
}

#[test]
fn unreadable_text_is_an_error() {
    let decl = SyntaxNode {
        kind: "function_declaration".to_string(),
        field: None,
        named: true,
        start_line: 1,
        end_line: 1,
        text: None,
        children: vec![leaf("identifier", Some("name"), "Run")],
    };
    assert_eq!(
        go::symbols_from_tree(&decl, "pkg", "f.go").unwrap_err(),
        lynx::symbol_extraction::ExtractError::UnreadableText
    );
}

#[test]
fn parsed_trees_carry_lines_and_fields() {
    let root = parse_syntax(Grammar::Go, "package p\n\nfunc F() {}\n").unwrap();
    assert_eq!(root.kind, "source_file");
    let f = root.children.iter().find(|c| c.kind == "function_declaration").unwrap();
    assert_eq!(f.start_line, 3);
    let name = f.children.iter().find(|c| c.field.as_deref() == Some("name")).unwrap();
    assert_eq!(name.text.as_deref(), Some("F"));
}

#[test]
fn every_grammar_parses_even_broken_text() {
    for grammar in [Grammar::Go, Grammar::Python, Grammar::JavaScript] {
        let root = parse_syntax(grammar, "func ( {{ class").unwrap();
        assert!(root.field.is_none());
        assert_eq!(root.start_line, 1);
        let empty = parse_syntax(grammar, "").unwrap();
        assert!(empty.children.is_empty());
    }
    assert_eq!(parse_syntax(Grammar::Python, "x = 1\n").unwrap().kind, "module");
    assert_eq!(parse_syntax(Grammar::JavaScript, "let x = 1;\n").unwrap().kind, "program");
}

#[test]
fn identifiers_are_stable_across_files() {
    let src = "package p\nfunc Same() {}\n";
    let (c1, s1) = go::extract("a/x.go", src).unwrap();
    let (c2, s2) = go::extract("b/y.go", &format!("\n\n{}", src)).unwrap();
    assert_eq!(c1[0].id, c2[0].id);
    assert_ne!(s1[0].symbol_id, s2[0].symbol_id);
    assert_eq!(s1[0].symbol_id, "func:a:Same");
    assert_eq!(s2[0].start_line, 4);
}

#[test]
fn javascript_scope_is_the_directory() {
    let (chunks, symbols) = javascript::extract("api/http/router.js", "function login() {}\n").unwrap();
    assert_eq!(ids(&symbols), vec!["func:api/http:login"]);
    assert_eq!(symbols[0].symbol_name, "login");
    assert_eq!(chunks[0].symbols_defined, vec![symbols[0].symbol_id.clone()]);
}

#[test]
fn go_interface_declaration() {
    let (chunks, symbols) =
        go::extract("internal/auth/service.go", "package auth\n\ntype AuthService interface{}\n").unwrap();
    assert_eq!(ids(&symbols), vec!["interface:internal/auth:AuthService"]);
    assert_eq!(symbols[0].symbol_name, "AuthService");
    assert_eq!(symbols[0].file_path, "internal/auth/service.go");
    assert_eq!((symbols[0].start_line, symbols[0].end_line), (3, 3));
    assert_eq!(chunks.len(), 1);
    assert_eq!(chunks[0].raw_content, "type AuthService interface{}");
}

#[test]
fn go_pointer_receiver_method() {
    let (_, symbols) = go::extract(
        "internal/auth/service.go",
        "package auth\n\nfunc (s *Service) Login() error { return nil }\n",
    )
    .unwrap();
    assert_eq!(ids(&symbols), vec!["method:internal/auth:Service.Login"]);
    assert_eq!(symbols[0].symbol_name, "Service.Login");
    assert_eq!((symbols[0].start_line, symbols[0].end_line), (3, 3));
}

#[test]
fn python_module_symbols() {
    let (chunks, symbols) =
        python::extract("pkg/mod.py", "class A:\n    def f(self):\n        pass\n\ndef g():\n    pass\n").unwrap();
    assert_eq!(chunks.len(), 3);
    let got: Vec<(String, usize, usize)> =
        symbols.iter().map(|s| (s.symbol_id.clone(), s.start_line, s.end_line)).collect();
    assert_eq!(
        got,
        vec![
            ("class:pkg:A".to_string(), 1, 3),
            ("method:pkg:A.f".to_string(), 2, 3),
            ("func:pkg:g".to_string(), 5, 6),
        ]
    );
}

#[test]
fn parse_file_goes_by_the_final_extension() {
    let parser = Parser::new();
    let (_, symbols) = parser.parse_file("a.b/x.tar.py", "def g():\n    pass\n").unwrap();
    assert_eq!(ids(&symbols), vec!["func:a.b:g"]);
    let (chunks, symbols) = parser.parse_file("dir.go/README", "func F() {}\n").unwrap();
    assert!(chunks.is_empty() && symbols.is_empty());
}

#[test]
fn absolute_paths_scope_by_their_directory() {
    let (chunks, symbols) = go::extract("/repo/pkg/a.go", "package pkg\nfunc Run() {}\n").unwrap();
    assert_eq!(ids(&symbols), vec!["func:/repo/pkg:Run"]);
    assert!(chunks[0].start_line <= chunks[0].end_line);
    let (_, symbols) = Parser::new().parse_file("/srv/app/x.py", "def g():\n    pass\n").unwrap();
    assert_eq!(ids(&symbols), vec!["func:/srv/app:g"]);
}
