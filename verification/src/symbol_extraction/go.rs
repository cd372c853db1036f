//! Symbols of Go sources: functions, methods and type declarations.
use vstd::prelude::*;
use crate::protocol::{CodeChunk, SymbolRecord};
use crate::syntax::{converts, grammar_name, parse_syntax, texts_within, Grammar, SyntaxNode};
use crate::text::{contains_seq, text_of};
use super::{
    build_records, copy_text, field_child, field_child_index, field_text,
    field_text_exec, found_views, from_syntax_error, has_field, has_field_exec, kind_is,
    module_scope, node_text, normalize_path, normalized_path, opt_view, outcome_ok,
    scope_of_file, scope_for, ExtractError, Found, FoundView, capture_item, pair_view, push_capture,
    items_within, lemma_capture_within, lemma_concat_within, law_chunks_lie_in_source,
};

verus! {

/// `extract_type_identifier`: the first type identifier of a type, found
/// through its children in order; for a pointer type `*T` that is the
/// identifier of its pointee `T`.
pub open spec fn type_identifier(n: SyntaxNode) -> Option<Seq<char>>
    decreases n, n.children@.len() + 1,
{
    if n.kind@ == "type_identifier"@ {
        node_text(n)
    } else {
        first_type_identifier(n, 0)
    }
}

/// The first type identifier found among the children of `n` from `i` on.
pub open spec fn first_type_identifier(n: SyntaxNode, i: int) -> Option<Seq<char>>
    decreases n, n.children@.len() - i,
{
    if i < 0 || i >= n.children@.len() {
        None
    } else {
        match type_identifier(n.children@[i]) {
            Some(t) => Some(t),
            None => first_type_identifier(n, i + 1),
        }
    }
}

/// The receiver found from the children of a parameter list from `i` on:
/// `Some` of the type identifier of the first named parameter declaration
/// that has a type, `None` when there is no such declaration.
pub open spec fn receiver_from(p: SyntaxNode, i: int) -> Option<Option<Seq<char>>>
    decreases p.children@.len() - i,
{
    if i < 0 || i >= p.children@.len() {
        None
    } else {
        let c = p.children@[i];
        if c.named && c.kind@ == "parameter_declaration"@ && field_child(c, "type"@) is Some {
            Some(type_identifier(field_child(c, "type"@).unwrap()))
        } else {
            receiver_from(p, i + 1)
        }
    }
}

/// `find_receiver_type`: the type identifier of the first typed parameter of a list.
pub open spec fn receiver_type(p: SyntaxNode) -> Option<Seq<char>> {
    match receiver_from(p, 0) {
        Some(r) => r,
        None => None,
    }
}

/// The receiver type and method name read from the first `i` children of a
/// method declaration: the receiver from the first named parameter list
/// while none is known, the name from the last named field identifier.
pub open spec fn method_scan(n: SyntaxNode, i: int) -> (Option<Seq<char>>, Option<Seq<char>>)
    decreases i,
{
    if i <= 0 || i > n.children@.len() {
        (None, None)
    } else {
        let (r, m) = method_scan(n, i - 1);
        let c = n.children@[i - 1];
        if !c.named {
            (r, m)
        } else if c.kind@ == "parameter_list"@ && r is None {
            (receiver_type(c), m)
        } else if c.kind@ == "field_identifier"@ {
            (r, node_text(c))
        } else {
            (r, m)
        }
    }
}

/// A function declaration that the symbol query matches: its name is an identifier.
pub open spec fn func_match(n: SyntaxNode) -> bool {
    n.kind@ == "function_declaration"@ && match field_child(n, "name"@) {
        Some(c) => c.kind@ == "identifier"@,
        None => false,
    }
}

/// A type specification that the symbol query matches: its name is a type identifier.
pub open spec fn type_spec_match(s: SyntaxNode) -> bool {
    s.named && s.kind@ == "type_spec"@ && match field_child(s, "name"@) {
        Some(c) => c.kind@ == "type_identifier"@,
        None => false,
    }
}

/// `determine_type_kind`: `interface`, `struct` or `type`.
pub open spec fn type_kind_of(t: SyntaxNode) -> Seq<char> {
    if t.kind@ == "interface_type"@ {
        "interface"@
    } else if t.kind@ == "struct_type"@ {
        "struct"@
    } else {
        "type"@
    }
}

/// The kind of a type declaration, read from its first named type
/// specification from child `i` on.
pub open spec fn decl_kind_from(n: SyntaxNode, i: int) -> Seq<char>
    decreases n.children@.len() - i,
{
    if i < 0 || i >= n.children@.len() {
        "type"@
    } else {
        let c = n.children@[i];
        if c.named && c.kind@ == "type_spec"@ {
            match field_child(c, "type"@) {
                Some(t) => type_kind_of(t),
                None => "type"@,
            }
        } else {
            decl_kind_from(n, i + 1)
        }
    }
}

/// The name of the first named type specification, from child `i` on, that
/// has a name: `Some` of its text, `None` when there is none.
pub open spec fn decl_name_from(n: SyntaxNode, i: int) -> Option<Option<Seq<char>>>
    decreases n.children@.len() - i,
{
    if i < 0 || i >= n.children@.len() {
        None
    } else {
        let c = n.children@[i];
        if c.named && c.kind@ == "type_spec"@ && field_child(c, "name"@) is Some {
            Some(field_text(c, "name"@))
        } else {
            decl_name_from(n, i + 1)
        }
    }
}

/// What a match of the symbol query names.
#[derive(Debug, Clone, Copy, PartialEq, Eq, Structural)]
pub enum GoCapture {
    /// A function declaration.
    Func,
    /// A method declaration.
    Method,
    /// The type specification at the given child position of a type declaration.
    Type(usize),
}

/// `extract_go_symbol_info`: the kind and name of the symbol of a match, or
/// `None` when its name cannot be read.
pub open spec fn go_symbol_info(n: SyntaxNode, capture: GoCapture) -> Option<(Seq<char>, Seq<char>)> {
    match capture {
        GoCapture::Func => match field_text(n, "name"@) {
            Some(name) => Some(("func"@, name)),
            None => None,
        },
        GoCapture::Method => {
            let (r, m) = method_scan(n, n.children@.len() as int);
            let name = match m {
                Some(x) => Some(x),
                None => field_text(n, "name"@),
            };
            match name {
                Some(nm) => Some(
                    (
                        "method"@,
                        match r {
                            Some(rt) => rt + "."@ + nm,
                            None => nm,
                        },
                    ),
                ),
                None => None,
            }
        },
        GoCapture::Type(j) => {
            let captured = if j < n.children@.len() {
                field_text(n.children@[j as int], "name"@)
            } else {
                None
            };
            let name = match captured {
                Some(x) => Some(x),
                None => match decl_name_from(n, 0) {
                    Some(t) => t,
                    None => None,
                },
            };
            match name {
                Some(nm) => Some((decl_kind_from(n, 0), nm)),
                None => None,
            }
        },
    }
}

/// The matches of the type declaration `n` among its first `j` children:
/// one per type specification with a type identifier name.
pub open spec fn type_items(n: SyntaxNode, j: int) -> Seq<Option<FoundView>>
    decreases j,
{
    if j <= 0 || j > n.children@.len() {
        seq![]
    } else {
        type_items(n, j - 1) + if type_spec_match(n.children@[j - 1]) {
            capture_item(n, go_symbol_info(n, GoCapture::Type((j - 1) as usize)))
        } else {
            seq![]
        }
    }
}

/// The matches of the symbol query on the node `n` itself.
pub open spec fn own_items(n: SyntaxNode) -> Seq<Option<FoundView>> {
    if func_match(n) {
        capture_item(n, go_symbol_info(n, GoCapture::Func))
    } else if n.kind@ == "method_declaration"@ {
        capture_item(n, go_symbol_info(n, GoCapture::Method))
    } else if n.kind@ == "type_declaration"@ {
        type_items(n, n.children@.len() as int)
    } else {
        seq![]
    }
}

/// The matches of the symbol query in the tree below `n`, in source order.
pub open spec fn go_items(n: SyntaxNode) -> Seq<Option<FoundView>>
    decreases n, n.children@.len() + 1,
{
    own_items(n) + go_items_below(n, n.children@.len() as int)
}

/// The matches in the subtrees of the first `i` children of `n`.
pub open spec fn go_items_below(n: SyntaxNode, i: int) -> Seq<Option<FoundView>>
    decreases n, i,
{
    if i <= 0 || i > n.children@.len() {
        seq![]
    } else {
        go_items_below(n, i - 1) + go_items(n.children@[i - 1])
    }
}

/// `extract_type_identifier`: the first type identifier of a type.
pub fn extract_type_identifier(n: &SyntaxNode) -> (res: Option<String>)
    ensures
        opt_view(res) == type_identifier(*n),
    decreases n,
{
    if kind_is(n, "type_identifier") {
        return copy_text(n);
    }
    let ghost cs = n.children@;
    let mut i: usize = 0;
    while i < n.children.len()
        invariant
            cs == n.children@,
            i <= cs.len(),
            n.kind@ != "type_identifier"@,
            type_identifier(*n) == first_type_identifier(*n, i as int),
        decreases cs.len() - i,
    {
        let r = extract_type_identifier(&n.children[i]);
        if r.is_some() {
            return r;
        }
        i += 1;
    }
    None
}

/// `determine_type_kind`: `interface`, `struct` or `type`.
pub fn determine_type_kind(t: &SyntaxNode) -> (res: String)
    ensures
        res@ == type_kind_of(*t),
{
    if kind_is(t, "interface_type") {
        text_of("interface")
    } else if kind_is(t, "struct_type") {
        text_of("struct")
    } else {
        text_of("type")
    }
}

/// `find_receiver_type`: the type identifier of the first typed parameter of a list.
pub fn find_receiver_type(p: &SyntaxNode) -> (res: Option<String>)
    ensures
        opt_view(res) == receiver_type(*p),
{
    let ghost cs = p.children@;
    let mut i: usize = 0;
    while i < p.children.len()
        invariant
            cs == p.children@,
            i <= cs.len(),
            receiver_from(*p, 0) == receiver_from(*p, i as int),
        decreases cs.len() - i,
    {
        let c = &p.children[i];
        if c.named && kind_is(c, "parameter_declaration") {
            match field_child_index(c, "type") {
                Some(k) => {
                    return extract_type_identifier(&c.children[k]);
                },
                None => {},
            }
        }
        i += 1;
    }
    None
}

/// The kind of a type declaration, read from its first named type specification.
fn declaration_kind(n: &SyntaxNode) -> (res: String)
    ensures
        res@ == decl_kind_from(*n, 0),
{
    let ghost cs = n.children@;
    let mut i: usize = 0;
    while i < n.children.len()
        invariant
            cs == n.children@,
            i <= cs.len(),
            decl_kind_from(*n, 0) == decl_kind_from(*n, i as int),
        decreases cs.len() - i,
    {
        let c = &n.children[i];
        if c.named && kind_is(c, "type_spec") {
            return match field_child_index(c, "type") {
                Some(k) => determine_type_kind(&c.children[k]),
                None => text_of("type"),
            };
        }
        i += 1;
    }
    text_of("type")
}

/// The name of the first named type specification of a declaration that has a name.
fn declaration_name(n: &SyntaxNode) -> (res: Option<String>)
    ensures
        opt_view(res) == match decl_name_from(*n, 0) {
            Some(t) => t,
            None => None,
        },
{
    let ghost cs = n.children@;
    let mut i: usize = 0;
    while i < n.children.len()
        invariant
            cs == n.children@,
            i <= cs.len(),
            decl_name_from(*n, 0) == decl_name_from(*n, i as int),
        decreases cs.len() - i,
    {
        let c = &n.children[i];
        if c.named && kind_is(c, "type_spec") {
            match field_child_index(c, "name") {
                Some(_) => {
                    return field_text_exec(c, "name");
                },
                None => {},
            }
        }
        i += 1;
    }
    None
}

/// `extract_go_symbol_info`: the kind and name of the symbol of a match.
pub fn extract_go_symbol_info(n: &SyntaxNode, capture: GoCapture) -> (res: Option<(String, String)>)
    ensures
        pair_view(res) == go_symbol_info(*n, capture),
{
    match capture {
        GoCapture::Func => {
            match field_text_exec(n, "name") {
                Some(name) => Some((text_of("func"), name)),
                None => None,
            }
        },
        GoCapture::Method => {
            let ghost cs = n.children@;
            let mut receiver: Option<String> = None;
            let mut method_name: Option<String> = None;
            let mut i: usize = 0;
            while i < n.children.len()
                invariant
                    cs == n.children@,
                    i <= cs.len(),
                    (opt_view(receiver), opt_view(method_name)) == method_scan(*n, i as int),
                decreases cs.len() - i,
            {
                let c = &n.children[i];
                if c.named {
                    if kind_is(c, "parameter_list") && receiver.is_none() {
                        receiver = find_receiver_type(c);
                    } else if kind_is(c, "field_identifier") {
                        method_name = copy_text(c);
                    }
                }
                i += 1;
            }
            let name = match method_name {
                Some(x) => Some(x),
                None => field_text_exec(n, "name"),
            };
            match name {
                Some(nm) => {
                    let symbol_name = match receiver {
                        Some(rt) => {
                            let mut s = rt;
                            s.append(".");
                            s.append(nm.as_str());
                            s
                        },
                        None => nm,
                    };
                    Some((text_of("method"), symbol_name))
                },
                None => None,
            }
        },
        GoCapture::Type(j) => {
            let captured = if j < n.children.len() {
                field_text_exec(&n.children[j], "name")
            } else {
                None
            };
            let name = match captured {
                Some(x) => Some(x),
                None => declaration_name(n),
            };
            match name {
                Some(nm) => Some((declaration_kind(n), nm)),
                None => None,
            }
        },
    }
}

/// Whether the symbol query matches the function declaration `n`.
fn is_func_match(n: &SyntaxNode) -> (res: bool)
    ensures
        res == func_match(*n),
{
    if !kind_is(n, "function_declaration") {
        return false;
    }
    match field_child_index(n, "name") {
        Some(k) => kind_is(&n.children[k], "identifier"),
        None => false,
    }
}

/// Whether the symbol query matches the type specification `s`.
fn is_type_spec_match(s: &SyntaxNode) -> (res: bool)
    ensures
        res == type_spec_match(*s),
{
    if !(s.named && kind_is(s, "type_spec")) {
        return false;
    }
    match field_child_index(s, "name") {
        Some(k) => kind_is(&s.children[k], "type_identifier"),
        None => false,
    }
}

/// Appends the matches of the symbol query in the tree below `n`, in source order.
fn collect(n: &SyntaxNode, out: &mut Vec<Option<Found>>)
    ensures
        found_views(final(out)@) == found_views(old(out)@) + go_items(*n),
    decreases n,
{
    let ghost cs = n.children@;
    let ghost before = out@;
    if is_func_match(n) {
        let info = extract_go_symbol_info(n, GoCapture::Func);
        push_capture(n, info, out);
    } else if kind_is(n, "method_declaration") {
        let info = extract_go_symbol_info(n, GoCapture::Method);
        push_capture(n, info, out);
    } else if kind_is(n, "type_declaration") {
        let mut j: usize = 0;
        while j < n.children.len()
            invariant
                cs == n.children@,
                j <= cs.len(),
                n.kind@ == "type_declaration"@,
                found_views(out@) == found_views(before) + type_items(*n, j as int),
            decreases cs.len() - j,
        {
            if is_type_spec_match(&n.children[j]) {
                let info = extract_go_symbol_info(n, GoCapture::Type(j));
                push_capture(n, info, out);
            }
            assert(type_items(*n, j + 1) =~= type_items(*n, j as int) + if type_spec_match(cs[j as int]) {
                capture_item(*n, go_symbol_info(*n, GoCapture::Type(j)))
            } else {
                seq![]
            });
            j += 1;
        }
    }
    assert(found_views(out@) =~= found_views(before) + own_items(*n));
    let ghost mid = out@;
    let mut i: usize = 0;
    while i < n.children.len()
        invariant
            cs == n.children@,
            i <= cs.len(),
            found_views(out@) == found_views(mid) + go_items_below(*n, i as int),
            found_views(mid) == found_views(before) + own_items(*n),
        decreases cs.len() - i,
    {
        collect(&n.children[i], out);
        assert(go_items_below(*n, i + 1) == go_items_below(*n, i as int) + go_items(cs[i as int]));
        assert(found_views(out@) =~= found_views(mid) + go_items_below(*n, i + 1));
        i += 1;
    }
    assert(found_views(out@) =~= found_views(before) + go_items(*n));
}

/// The chunks and symbol records of the Go definitions in a syntax tree,
/// with the scope `scope` and the file path `file`.
pub fn symbols_from_tree(root: &SyntaxNode, scope: &str, file: &str) -> (res: Result<(Vec<CodeChunk>, Vec<SymbolRecord>), ExtractError>)
    ensures
        outcome_ok(go_items(*root), scope@, file@, res),
{
    let mut items: Vec<Option<Found>> = Vec::new();
    collect(root, &mut items);
    assert(found_views(items@) =~= go_items(*root));
    build_records(&items, scope, file)
}

/// What holds of an extraction from the file at `path`: the parser always
/// builds a tree, and the result is the extraction from the plain form of
/// the parse of `content` (of `byte_len` bytes) by the Go grammar, under the scope of the file's
/// directory.
pub open spec fn extracted(path: Seq<char>, content: Seq<char>, byte_len: nat, res: Result<(Vec<CodeChunk>, Vec<SymbolRecord>), ExtractError>) -> bool {
    exists|root: SyntaxNode, scope: Seq<char>|
        texts_within(root, content) && converts(root, (grammar_name(Grammar::Go), content, Seq::<usize>::empty()), byte_len)
            && scope_for(path, scope) && outcome_ok(go_items(root), scope, normalized_path(path), res)
}

/// Extracts the functions, methods and types of a Go file: each one a
/// symbol `kind:scope:name`, where the scope is the file's directory, and a
/// chunk of its text.
pub fn extract(path: &str, content: &str) -> (res: Result<(Vec<CodeChunk>, Vec<SymbolRecord>), ExtractError>)
    ensures
        extracted(path@, content@, content.len() as nat, res),
{
    let root = match parse_syntax(Grammar::Go, content) {
        Ok(r) => r,
        Err(e) => {
            return Err(from_syntax_error(e));
        },
    };
    let scope = scope_of_file(path);
    let file = normalize_path(path);
    symbols_from_tree(&root, scope.as_str(), file.as_str())
}

proof fn lemma_type_items_within(n: SyntaxNode, j: int, content: Seq<char>)
    requires
        n.text matches Some(t) ==> contains_seq(content, t@),
        1 <= n.start_line <= n.end_line,
    ensures
        items_within(type_items(n, j), content),
    decreases j,
{
    if j > 0 && j <= n.children@.len() {
        lemma_type_items_within(n, j - 1, content);
        lemma_capture_within(n, go_symbol_info(n, GoCapture::Type((j - 1) as usize)), content);
        lemma_concat_within(
            type_items(n, j - 1),
            if type_spec_match(n.children@[j - 1]) {
                capture_item(n, go_symbol_info(n, GoCapture::Type((j - 1) as usize)))
            } else {
                seq![]
            },
            content,
        );
    }
}

proof fn lemma_items_within(n: SyntaxNode, content: Seq<char>)
    requires
        texts_within(n, content),
    ensures
        items_within(go_items(n), content),
    decreases n, n.children@.len() + 1,
{
    lemma_capture_within(n, go_symbol_info(n, GoCapture::Func), content);
    lemma_capture_within(n, go_symbol_info(n, GoCapture::Method), content);
    lemma_type_items_within(n, n.children@.len() as int, content);
    lemma_items_below_within(n, n.children@.len() as int, content);
    lemma_concat_within(own_items(n), go_items_below(n, n.children@.len() as int), content);
}

proof fn lemma_items_below_within(n: SyntaxNode, i: int, content: Seq<char>)
    requires
        texts_within(n, content),
    ensures
        items_within(go_items_below(n, i), content),
    decreases n, i,
{
    if i > 0 && i <= n.children@.len() {
        lemma_items_below_within(n, i - 1, content);
        assert(texts_within(n.children@[i - 1], content));
        lemma_items_within(n.children@[i - 1], content);
        lemma_concat_within(go_items_below(n, i - 1), go_items(n.children@[i - 1]), content);
    }
}

/// Every chunk extracted from a Go file is a region of the file's text,
/// whose lines run forward from line 1.
pub proof fn law_chunks_are_source_regions(
    path: Seq<char>,
    content: Seq<char>,
    byte_len: nat,
    res: Result<(Vec<CodeChunk>, Vec<SymbolRecord>), ExtractError>,
)
    requires
        extracted(path, content, byte_len, res),
    ensures
        res matches Ok((chunks, symbols)) ==> forall|i: int|
            0 <= i < chunks@.len() ==> contains_seq(content, (#[trigger] chunks@[i])@.raw_content) && 1
                <= chunks@[i]@.start_line <= chunks@[i]@.end_line,
{
    if res is Ok {
        let (root, scope) = choose|root: SyntaxNode, scope: Seq<char>|
            texts_within(root, content) && converts(root, (grammar_name(Grammar::Go), content, Seq::<usize>::empty()), byte_len)
                && scope_for(path, scope) && outcome_ok(go_items(root), scope, normalized_path(path), res);
        lemma_items_within(root, content);
        let (chunks, symbols) = res.unwrap();
        law_chunks_lie_in_source(go_items(root), scope, normalized_path(path), content, chunks@, symbols@);
    }
}

} // verus!
