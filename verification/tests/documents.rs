use lynx::documents::{chunk_from_document, symbol_from_document, symbols_from_text, symbols_text};
use lynx::schema::{ChunkSchema, SymbolSchema};

#[test]
fn stored_symbols_read_back() {
    let ids = vec!["func:a:B".to_string(), "method:a:C.d".to_string()];
    let text = symbols_text(&ids);
    assert_eq!(text, "func:a:B method:a:C.d");
    assert_eq!(symbols_from_text(&text), ids);
    assert_eq!(symbols_text(&vec![]), "");
    assert!(symbols_from_text("  ").is_empty());
}

#[test]
fn documents_to_records() {
    let c = chunk_from_document("h", "a.go", 3, 9, "body", "func:a:B  type:a:C");
    assert_eq!(c.symbols_defined, vec!["func:a:B", "type:a:C"]);
    assert_eq!((c.start_line, c.end_line), (3, 9));
    let s = symbol_from_document("func:a:B", "B", "a.go", 1, 2);
    assert_eq!(s.symbol_name, "B");
    assert_eq!(s.end_line, 2);
}

#[test]
fn schema_layouts() {
    let c = ChunkSchema::new();
    assert_eq!(c.schema.get_field("id").unwrap(), c.id);
    assert_eq!(c.schema.get_field("symbols").unwrap(), c.symbols);
    assert_eq!(c.symbols.field_id(), 5);
    assert_eq!(c.schema.fields().count(), 6);
    let s = SymbolSchema::new();
    assert_eq!(s.schema.get_field("symbol_name_exact").unwrap(), s.symbol_name_exact);
    assert_eq!(s.end_line.field_id(), 5);
}
