//! Symbols of Python sources: classes, functions and methods.
use vstd::prelude::*;
use crate::protocol::{CodeChunk, SymbolRecord};
use crate::syntax::{converts, grammar_name, parse_syntax, texts_within, Grammar, SyntaxNode};
use crate::text::{contains_seq, text_of};
use super::{
    build_records, capture_item, node_text, field_child, field_child_index, field_text, field_text_exec,
    found_views, from_syntax_error, kind_is, module_scope, normalize_path, normalized_path,
    opt_view, outcome_ok, pair_view, push_capture, scope_of_file, scope_for, ExtractError, Found, FoundView,
    items_within, lemma_capture_within, lemma_concat_within, law_chunks_lie_in_source,
};

verus! {

/// What a match of the symbol query names.
#[derive(Debug, Clone, Copy, PartialEq, Eq, Structural)]
pub enum PyCapture {
    /// A class definition.
    Class,
    /// A function definition.
    Func,
}

/// A definition of the kind `k` that the symbol query matches: its name is an identifier.
pub open spec fn named_match(n: SyntaxNode, k: Seq<char>) -> bool {
    n.kind@ == k && match field_child(n, "name"@) {
        Some(c) => c.kind@ == "identifier"@,
        None => false,
    }
}

/// The class that encloses the children of `n`, given the class `enclosing`
/// that encloses `n`: `n` itself when it is a class whose name is readable.
pub open spec fn class_container(n: SyntaxNode, enclosing: Option<Seq<char>>) -> Option<Seq<char>> {
    if n.kind@ == "class_definition"@ && field_text(n, "name"@) is Some {
        field_text(n, "name"@)
    } else {
        enclosing
    }
}

/// `extract_py_symbol_info`: the kind and name of the symbol of a match: a
/// class, a function, or a method `Class.name` when a class encloses it.
pub open spec fn py_symbol_info(n: SyntaxNode, capture: PyCapture, enclosing: Option<Seq<char>>) -> Option<(Seq<char>, Seq<char>)> {
    match field_text(n, "name"@) {
        None => None,
        Some(name) => match capture {
            PyCapture::Class => Some(("class"@, name)),
            PyCapture::Func => match enclosing {
                Some(c) => Some(("method"@, c + "."@ + name)),
                None => Some(("func"@, name)),
            },
        },
    }
}

/// The matches of the symbol query on the node `n` itself.
pub open spec fn own_items(n: SyntaxNode, enclosing: Option<Seq<char>>) -> Seq<Option<FoundView>> {
    if named_match(n, "class_definition"@) {
        capture_item(n, py_symbol_info(n, PyCapture::Class, enclosing))
    } else if named_match(n, "function_definition"@) {
        capture_item(n, py_symbol_info(n, PyCapture::Func, enclosing))
    } else {
        seq![]
    }
}

/// The matches of the symbol query in the tree below `n`, in source order,
/// when the class `enclosing` encloses `n`.
pub open spec fn py_items(n: SyntaxNode, enclosing: Option<Seq<char>>) -> Seq<Option<FoundView>>
    decreases n, n.children@.len() + 1,
{
    own_items(n, enclosing) + py_items_below(n, n.children@.len() as int, class_container(n, enclosing))
}

/// The matches in the subtrees of the first `i` children of `n`, which the
/// class `inner` encloses.
pub open spec fn py_items_below(n: SyntaxNode, i: int, inner: Option<Seq<char>>) -> Seq<Option<FoundView>>
    decreases n, i,
{
    if i <= 0 || i > n.children@.len() {
        seq![]
    } else {
        py_items_below(n, i - 1, inner) + py_items(n.children@[i - 1], inner)
    }
}

/// `find_py_class_container`: the class that encloses the children of `n`,
/// given the class that encloses `n`.
pub fn find_py_class_container(n: &SyntaxNode, enclosing: Option<String>) -> (res: Option<String>)
    ensures
        opt_view(res) == class_container(*n, opt_view(enclosing)),
{
    if kind_is(n, "class_definition") {
        match field_text_exec(n, "name") {
            Some(t) => {
                return Some(t);
            },
            None => {},
        }
    }
    enclosing
}

/// `extract_py_symbol_info`: the kind and name of the symbol of a match.
pub fn extract_py_symbol_info(n: &SyntaxNode, capture: PyCapture, enclosing: &Option<String>) -> (res: Option<(String, String)>)
    ensures
        pair_view(res) == py_symbol_info(*n, capture, opt_view(*enclosing)),
{
    match field_text_exec(n, "name") {
        None => None,
        Some(name) => match capture {
            PyCapture::Class => Some((text_of("class"), name)),
            PyCapture::Func => match enclosing {
                Some(c) => {
                    let mut s = c.clone();
                    s.append(".");
                    s.append(name.as_str());
                    Some((text_of("method"), s))
                },
                None => Some((text_of("func"), name)),
            },
        },
    }
}

/// Whether the symbol query matches `n` as a definition of the kind `k`.
fn is_named_match(n: &SyntaxNode, k: &str) -> (res: bool)
    ensures
        res == named_match(*n, k@),
{
    if !kind_is(n, k) {
        return false;
    }
    match field_child_index(n, "name") {
        Some(i) => kind_is(&n.children[i], "identifier"),
        None => false,
    }
}

/// A copy of an optional string.
fn copy_opt(o: &Option<String>) -> (res: Option<String>)
    ensures
        opt_view(res) == opt_view(*o),
{
    match o {
        Some(s) => Some(s.clone()),
        None => None,
    }
}

/// Appends the matches of the symbol query in the tree below `n`, in source order.
fn collect(n: &SyntaxNode, enclosing: &Option<String>, out: &mut Vec<Option<Found>>)
    ensures
        found_views(final(out)@) == found_views(old(out)@) + py_items(*n, opt_view(*enclosing)),
    decreases n,
{
    let ghost cs = n.children@;
    let ghost before = out@;
    if is_named_match(n, "class_definition") {
        let info = extract_py_symbol_info(n, PyCapture::Class, enclosing);
        push_capture(n, info, out);
    } else if is_named_match(n, "function_definition") {
        let info = extract_py_symbol_info(n, PyCapture::Func, enclosing);
        push_capture(n, info, out);
    }
    assert(found_views(out@) =~= found_views(before) + own_items(*n, opt_view(*enclosing)));
    let inner = find_py_class_container(n, copy_opt(enclosing));
    let ghost mid = out@;
    let mut i: usize = 0;
    while i < n.children.len()
        invariant
            cs == n.children@,
            i <= cs.len(),
            found_views(out@) == found_views(mid) + py_items_below(*n, i as int, opt_view(inner)),
        decreases cs.len() - i,
    {
        collect(&n.children[i], &inner, out);
        assert(found_views(out@) =~= found_views(mid) + py_items_below(*n, i + 1, opt_view(inner)));
        i += 1;
    }
    assert(found_views(out@) =~= found_views(before) + py_items(*n, opt_view(*enclosing)));
}

/// The chunks and symbol records of the Python definitions in a syntax
/// tree, with the scope `scope` and the file path `file`.
pub fn symbols_from_tree(root: &SyntaxNode, scope: &str, file: &str) -> (res: Result<(Vec<CodeChunk>, Vec<SymbolRecord>), ExtractError>)
    ensures
        outcome_ok(py_items(*root, None), scope@, file@, res),
{
    let mut items: Vec<Option<Found>> = Vec::new();
    collect(root, &None, &mut items);
    assert(found_views(items@) =~= py_items(*root, None));
    build_records(&items, scope, file)
}

/// What holds of an extraction from the file at `path`: the parser always
/// builds a tree, and the result is the extraction from the plain form of
/// the parse of `content` (of `byte_len` bytes) by the Python grammar, under the scope of the file's
/// directory.
pub open spec fn extracted(path: Seq<char>, content: Seq<char>, byte_len: nat, res: Result<(Vec<CodeChunk>, Vec<SymbolRecord>), ExtractError>) -> bool {
    exists|root: SyntaxNode, scope: Seq<char>|
        texts_within(root, content) && converts(root, (grammar_name(Grammar::Python), content, Seq::<usize>::empty()), byte_len)
            && scope_for(path, scope) && outcome_ok(py_items(root, None), scope, normalized_path(path), res)
}

/// Extracts the classes, functions and methods of a Python file: each one
/// a symbol `kind:scope:name`, where the scope is the file's directory, and
/// a chunk of its text.
pub fn extract(path: &str, content: &str) -> (res: Result<(Vec<CodeChunk>, Vec<SymbolRecord>), ExtractError>)
    ensures
        extracted(path@, content@, content.len() as nat, res),
{
    let root = match parse_syntax(Grammar::Python, content) {
        Ok(r) => r,
        Err(e) => {
            return Err(from_syntax_error(e));
        },
    };
    let scope = scope_of_file(path);
    let file = normalize_path(path);
    symbols_from_tree(&root, scope.as_str(), file.as_str())
}

proof fn lemma_items_within(n: SyntaxNode, enclosing: Option<Seq<char>>, content: Seq<char>)
    requires
        texts_within(n, content),
    ensures
        items_within(py_items(n, enclosing), content),
    decreases n, n.children@.len() + 1,
{
    lemma_capture_within(n, py_symbol_info(n, PyCapture::Class, enclosing), content);
    lemma_capture_within(n, py_symbol_info(n, PyCapture::Func, enclosing), content);
    let inner = class_container(n, enclosing);
    lemma_items_below_within(n, n.children@.len() as int, inner, content);
    lemma_concat_within(own_items(n, enclosing), py_items_below(n, n.children@.len() as int, inner), content);
}

proof fn lemma_items_below_within(n: SyntaxNode, i: int, inner: Option<Seq<char>>, content: Seq<char>)
    requires
        texts_within(n, content),
    ensures
        items_within(py_items_below(n, i, inner), content),
    decreases n, i,
{
    if i > 0 && i <= n.children@.len() {
        lemma_items_below_within(n, i - 1, inner, content);
        assert(texts_within(n.children@[i - 1], content));
        lemma_items_within(n.children@[i - 1], inner, content);
        lemma_concat_within(py_items_below(n, i - 1, inner), py_items(n.children@[i - 1], inner), content);
    }
}

/// Every chunk extracted from a Python file is a region of the file's text,
/// whose lines run forward from line 1.
pub proof fn law_chunks_are_source_regions(
    path: Seq<char>,
    content: Seq<char>,
    byte_len: nat,
    res: Result<(Vec<CodeChunk>, Vec<SymbolRecord>), ExtractError>,
)
    requires
        extracted(path, content, byte_len, res),
    ensures
        res matches Ok((chunks, symbols)) ==> forall|i: int|
            0 <= i < chunks@.len() ==> contains_seq(content, (#[trigger] chunks@[i])@.raw_content) && 1
                <= chunks@[i]@.start_line <= chunks@[i]@.end_line,
{
    if res is Ok {
        let (root, scope) = choose|root: SyntaxNode, scope: Seq<char>|
            texts_within(root, content) && converts(root, (grammar_name(Grammar::Python), content, Seq::<usize>::empty()), byte_len)
                && scope_for(path, scope) && outcome_ok(py_items(root, None), scope, normalized_path(path), res);
        lemma_items_within(root, None, content);
        let (chunks, symbols) = res.unwrap();
        law_chunks_lie_in_source(py_items(root, None), scope, normalized_path(path), content, chunks@, symbols@);
    }
}

/// The class that encloses the children of a class with a readable name is
/// that class itself, whatever classes enclose it in turn: the nearest
/// class wins.
pub proof fn law_nearest_class_encloses(n: SyntaxNode, enclosing: Option<Seq<char>>, c: Seq<char>)
    requires
        n.kind@ == "class_definition"@,
        field_text(n, "name"@) == Some(c),
    ensures
        class_container(n, enclosing) == Some(c),
{
}

/// A function defined directly in a class `C` with a readable name is
/// reported as the method `C.name`, whatever classes enclose `C`.
pub proof fn law_method_named_after_nearest_class(
    n: SyntaxNode,
    enclosing: Option<Seq<char>>,
    c: Seq<char>,
    j: int,
    m: Seq<char>,
    raw: Seq<char>,
)
    requires
        n.kind@ == "class_definition"@,
        field_text(n, "name"@) == Some(c),
        0 <= j < n.children@.len(),
        named_match(n.children@[j], "function_definition"@),
        field_text(n.children@[j], "name"@) == Some(m),
        node_text(n.children@[j]) == Some(raw),
    ensures
        py_items(n, enclosing).contains(
            Some(
                FoundView {
                    kind: "method"@,
                    name: c + "."@ + m,
                    start_line: n.children@[j].start_line,
                    end_line: n.children@[j].end_line,
                    raw,
                },
            ),
        ),
{
    let f = n.children@[j];
    let x = Some(
        FoundView { kind: "method"@, name: c + "."@ + m, start_line: f.start_line, end_line: f.end_line, raw },
    );
    assert("function_definition"@ != "class_definition"@) by {
        reveal_strlit("function_definition");
        reveal_strlit("class_definition");
        assert("function_definition"@.len() != "class_definition"@.len());
    }
    assert(!named_match(f, "class_definition"@));
    assert(own_items(f, Some(c)) == seq![x]);
    let fi = py_items(f, Some(c));
    assert(fi[0] == x);
    assert(fi.contains(x));
    lemma_below_contains(n, n.children@.len() as int, Some(c), j, x);
    let all = py_items(n, enclosing);
    let below = py_items_below(n, n.children@.len() as int, class_container(n, enclosing));
    assert(all == own_items(n, enclosing) + below);
    let k = choose|k: int| 0 <= k < below.len() && below[k] == x;
    assert(all[own_items(n, enclosing).len() + k] == x);
}

/// What the subtree of a child yields is among what the children yield.
proof fn lemma_below_contains(n: SyntaxNode, i: int, inner: Option<Seq<char>>, j: int, x: Option<FoundView>)
    requires
        0 <= j < i <= n.children@.len(),
        py_items(n.children@[j], inner).contains(x),
    ensures
        py_items_below(n, i, inner).contains(x),
    decreases i,
{
    let a = py_items_below(n, i - 1, inner);
    let b = py_items(n.children@[i - 1], inner);
    assert(py_items_below(n, i, inner) == a + b);
    if j == i - 1 {
        let k = choose|k: int| 0 <= k < b.len() && b[k] == x;
        assert((a + b)[a.len() + k] == x);
    } else {
        lemma_below_contains(n, i - 1, inner, j, x);
        let k = choose|k: int| 0 <= k < a.len() && a[k] == x;
        assert((a + b)[k] == x);
    }
}

} // verus!
