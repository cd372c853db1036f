//! Symbols of JavaScript sources: functions, classes and methods.
use vstd::prelude::*;
use crate::protocol::{CodeChunk, SymbolRecord};
use crate::syntax::{converts, grammar_name, parse_syntax, texts_within, Grammar, SyntaxNode};
use crate::text::{contains_seq, text_of};
use super::{
    build_records, capture_item, field_child, field_child_index, field_text, field_text_exec,
    found_views, from_syntax_error, kind_is, normalize_path, normalized_path, outcome_ok,
    scope_for, scope_of_file,
    pair_view, push_capture, ExtractError, Found, FoundView,
    items_within, lemma_capture_within, lemma_concat_within, law_chunks_lie_in_source,
};

verus! {

/// A definition of the kind `k` whose name is of the kind `name_kind`.
pub open spec fn js_match(n: SyntaxNode, k: Seq<char>, name_kind: Seq<char>) -> bool {
    n.kind@ == k && match field_child(n, "name"@) {
        Some(c) => c.kind@ == name_kind,
        None => false,
    }
}

/// The symbol of a match of the kind `capture`: its name, or `unknown` when
/// the name cannot be read.
pub open spec fn js_info(n: SyntaxNode, capture: Seq<char>) -> Option<(Seq<char>, Seq<char>)> {
    Some(
        (
            capture,
            match field_text(n, "name"@) {
                Some(t) => t,
                None => "unknown"@,
            },
        ),
    )
}

/// The matches of the symbol query on the node `n` itself.
pub open spec fn own_items(n: SyntaxNode) -> Seq<Option<FoundView>> {
    if js_match(n, "function_declaration"@, "identifier"@) {
        capture_item(n, js_info(n, "func"@))
    } else if js_match(n, "class_declaration"@, "identifier"@) {
        capture_item(n, js_info(n, "class"@))
    } else if js_match(n, "method_definition"@, "property_identifier"@) {
        capture_item(n, js_info(n, "method"@))
    } else {
        seq![]
    }
}

/// The matches of the symbol query in the tree below `n`, in source order.
pub open spec fn js_items(n: SyntaxNode) -> Seq<Option<FoundView>>
    decreases n, n.children@.len() + 1,
{
    own_items(n) + js_items_below(n, n.children@.len() as int)
}

/// The matches in the subtrees of the first `i` children of `n`.
pub open spec fn js_items_below(n: SyntaxNode, i: int) -> Seq<Option<FoundView>>
    decreases n, i,
{
    if i <= 0 || i > n.children@.len() {
        seq![]
    } else {
        js_items_below(n, i - 1) + js_items(n.children@[i - 1])
    }
}

/// Whether `n` is a definition of the kind `k` whose name is of the kind `name_kind`.
fn is_js_match(n: &SyntaxNode, k: &str, name_kind: &str) -> (res: bool)
    ensures
        res == js_match(*n, k@, name_kind@),
{
    if !kind_is(n, k) {
        return false;
    }
    match field_child_index(n, "name") {
        Some(i) => kind_is(&n.children[i], name_kind),
        None => false,
    }
}

/// The symbol of a match of the kind `capture`.
fn symbol_info(n: &SyntaxNode, capture: &str) -> (res: Option<(String, String)>)
    ensures
        pair_view(res) == js_info(*n, capture@),
{
    let name = match field_text_exec(n, "name") {
        Some(t) => t,
        None => text_of("unknown"),
    };
    Some((text_of(capture), name))
}

/// Appends the matches of the symbol query in the tree below `n`, in source order.
fn collect(n: &SyntaxNode, out: &mut Vec<Option<Found>>)
    ensures
        found_views(final(out)@) == found_views(old(out)@) + js_items(*n),
    decreases n,
{
    let ghost cs = n.children@;
    let ghost before = out@;
    if is_js_match(n, "function_declaration", "identifier") {
        push_capture(n, symbol_info(n, "func"), out);
    } else if is_js_match(n, "class_declaration", "identifier") {
        push_capture(n, symbol_info(n, "class"), out);
    } else if is_js_match(n, "method_definition", "property_identifier") {
        push_capture(n, symbol_info(n, "method"), out);
    }
    assert(found_views(out@) =~= found_views(before) + own_items(*n));
    let ghost mid = out@;
    let mut i: usize = 0;
    while i < n.children.len()
        invariant
            cs == n.children@,
            i <= cs.len(),
            found_views(out@) == found_views(mid) + js_items_below(*n, i as int),
        decreases cs.len() - i,
    {
        collect(&n.children[i], out);
        assert(found_views(out@) =~= found_views(mid) + js_items_below(*n, i + 1));
        i += 1;
    }
    assert(found_views(out@) =~= found_views(before) + js_items(*n));
}

/// The chunks and symbol records of the JavaScript definitions in a syntax
/// tree, with the scope `scope` and the file path `file`.
pub fn symbols_from_tree(root: &SyntaxNode, scope: &str, file: &str) -> (res: Result<(Vec<CodeChunk>, Vec<SymbolRecord>), ExtractError>)
    ensures
        outcome_ok(js_items(*root), scope@, file@, res),
{
    let mut items: Vec<Option<Found>> = Vec::new();
    collect(root, &mut items);
    assert(found_views(items@) =~= js_items(*root));
    build_records(&items, scope, file)
}

/// What holds of an extraction from the file at `path`: the parser always
/// builds a tree, and the result is the extraction from the plain form of
/// the parse of `content` (of `byte_len` bytes) by the JavaScript grammar, under the scope of the file's
/// directory.
pub open spec fn extracted(path: Seq<char>, content: Seq<char>, byte_len: nat, res: Result<(Vec<CodeChunk>, Vec<SymbolRecord>), ExtractError>) -> bool {
    exists|root: SyntaxNode, scope: Seq<char>|
        texts_within(root, content) && converts(root, (grammar_name(Grammar::JavaScript), content, Seq::<usize>::empty()), byte_len)
            && scope_for(path, scope) && outcome_ok(js_items(root), scope, normalized_path(path), res)
}

/// Extracts the functions, classes and methods of a JavaScript file: each
/// one a symbol `kind:scope:name`, where the scope is the file's directory,
/// and a chunk of its text.
pub fn extract(path: &str, content: &str) -> (res: Result<(Vec<CodeChunk>, Vec<SymbolRecord>), ExtractError>)
    ensures
        extracted(path@, content@, content.len() as nat, res),
{
    let root = match parse_syntax(Grammar::JavaScript, content) {
        Ok(r) => r,
        Err(e) => {
            return Err(from_syntax_error(e));
        },
    };
    let scope = scope_of_file(path);
    let file = normalize_path(path);
    symbols_from_tree(&root, scope.as_str(), file.as_str())
}

proof fn lemma_items_within(n: SyntaxNode, content: Seq<char>)
    requires
        texts_within(n, content),
    ensures
        items_within(js_items(n), content),
    decreases n, n.children@.len() + 1,
{
    lemma_capture_within(n, js_info(n, "func"@), content);
    lemma_capture_within(n, js_info(n, "class"@), content);
    lemma_capture_within(n, js_info(n, "method"@), content);
    lemma_items_below_within(n, n.children@.len() as int, content);
    lemma_concat_within(own_items(n), js_items_below(n, n.children@.len() as int), content);
}

proof fn lemma_items_below_within(n: SyntaxNode, i: int, content: Seq<char>)
    requires
        texts_within(n, content),
    ensures
        items_within(js_items_below(n, i), content),
    decreases n, i,
{
    if i > 0 && i <= n.children@.len() {
        lemma_items_below_within(n, i - 1, content);
        assert(texts_within(n.children@[i - 1], content));
        lemma_items_within(n.children@[i - 1], content);
        lemma_concat_within(js_items_below(n, i - 1), js_items(n.children@[i - 1]), content);
    }
}

/// Every chunk extracted from a JavaScript file is a region of the file's text,
/// whose lines run forward from line 1.
pub proof fn law_chunks_are_source_regions(
    path: Seq<char>,
    content: Seq<char>,
    byte_len: nat,
    res: Result<(Vec<CodeChunk>, Vec<SymbolRecord>), ExtractError>,
)
    requires
        extracted(path, content, byte_len, res),
    ensures
        res matches Ok((chunks, symbols)) ==> forall|i: int|
            0 <= i < chunks@.len() ==> contains_seq(content, (#[trigger] chunks@[i])@.raw_content) && 1
                <= chunks@[i]@.start_line <= chunks@[i]@.end_line,
{
    if res is Ok {
        let (root, scope) = choose|root: SyntaxNode, scope: Seq<char>|
            texts_within(root, content) && converts(root, (grammar_name(Grammar::JavaScript), content, Seq::<usize>::empty()), byte_len)
                && scope_for(path, scope) && outcome_ok(js_items(root), scope, normalized_path(path), res);
        lemma_items_within(root, content);
        let (chunks, symbols) = res.unwrap();
        law_chunks_lie_in_source(js_items(root), scope, normalized_path(path), content, chunks@, symbols@);
    }
}

} // verus!
