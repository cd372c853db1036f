//! Concrete syntax trees as plain values, and their construction from the
//! trees that tree-sitter parses.
use vstd::prelude::*;
use tree_sitter::Parser as TsParser;
use crate::text::contains_seq;

verus! {

#[verifier::external_type_specification]
#[verifier::external_body]
pub struct ExTsParser(TsParser);

#[verifier::external_type_specification]
#[verifier::external_body]
pub struct ExTsLanguage(tree_sitter::Language);

#[verifier::external_type_specification]
#[verifier::external_body]
pub struct ExTsTree(tree_sitter::Tree);

#[verifier::external_type_specification]
#[verifier::external_body]
pub struct ExTsNode<'tree>(tree_sitter::Node<'tree>);

/// A node of a concrete syntax tree, as plain values.
#[derive(Debug)]
pub struct SyntaxNode {
    /// The grammar kind of the node, such as `function_declaration`.
    pub kind: String,
    /// The field under which the node stands in its parent, if any.
    pub field: Option<String>,
    /// Whether the node is named in the grammar.
    pub named: bool,
    /// The 1-based line on which the node starts.
    pub start_line: usize,
    /// The 1-based line on which the node ends.
    pub end_line: usize,
    /// The source text that the node spans, when it is valid UTF-8.
    pub text: Option<String>,
    /// The children of the node, in source order.
    pub children: Vec<SyntaxNode>,
}

/// Every node of the tree below `n` fits the text `content`: its readable
/// text is a run of `content`, and its lines run forward from line 1.
pub open spec fn texts_within(n: SyntaxNode, content: Seq<char>) -> bool
    decreases n,
{
    &&& (n.text matches Some(t) ==> contains_seq(content, t@))
    &&& 1 <= n.start_line <= n.end_line
    &&& forall|i: int| 0 <= i < n.children@.len() ==> texts_within(#[trigger] n.children@[i], content)
}

/// The grammars that the symbol extractors read.
#[derive(Debug, Clone, Copy, PartialEq, Eq, Structural)]
pub enum Grammar {
    Go,
    Python,
    JavaScript,
}

/// Why a source file could not be turned into a syntax tree.
#[derive(Debug, Clone, Copy, PartialEq, Eq, Structural)]
pub enum SyntaxError {
    /// The parser refused the grammar (a version mismatch).
    GrammarRefused,
    /// The parser produced no tree.
    ParseFailed,
}

/// The name of a grammar as its `grammar.json` gives it.
pub open spec fn grammar_name(grammar: Grammar) -> Seq<char> {
    match grammar {
        Grammar::Go => "go"@,
        Grammar::Python => "python"@,
        Grammar::JavaScript => "javascript"@,
    }
}

/// Where a node of a parse sits, as plain values: the name of the grammar,
/// the text parsed, and the child indices that lead from the root to it.
pub type Place = (Seq<char>, Seq<char>, Seq<usize>);

/// The place of the `i`-th child of the node at `place`.
pub open spec fn child_place(place: Place, i: usize) -> Place {
    (place.0, place.1, place.2.push(i))
}

/// The ABI version of a grammar, `tree_sitter::Language::version`.
pub uninterp spec fn language_version(language: tree_sitter::Language) -> nat;

/// The name of the grammar that a language's parser was generated from
/// (the `name` of its `grammar.json`).
pub uninterp spec fn language_grammar(language: tree_sitter::Language) -> Seq<char>;

/// The name of the grammar assigned to a parser, if any
/// (`tree_sitter::Parser::language`).
pub uninterp spec fn parser_grammar(parser: TsParser) -> Option<Seq<char>>;

/// Nothing but a language was ever set on the parser: it has no timeout,
/// no cancellation flag, no included ranges, and no halted parse pending.
pub uninterp spec fn parser_is_plain(parser: TsParser) -> bool;

/// The grammar name and the text of a tree, as it was parsed.
pub uninterp spec fn tree_origin(tree: tree_sitter::Tree) -> (Seq<char>, Seq<char>);

/// The place of a node in the parse it belongs to.
pub uninterp spec fn node_place(node: tree_sitter::Node) -> Place;

/// The grammar kind of the node at a place of a parse (`Node::kind`).
pub uninterp spec fn parsed_kind(place: Place) -> Seq<char>;

/// Whether the node at a place is named (`Node::is_named`).
pub uninterp spec fn parsed_named(place: Place) -> bool;

/// The 0-based row where the node at a place starts (`Node::start_position`).
pub uninterp spec fn parsed_start_row(place: Place) -> usize;

/// The 0-based row where the node at a place ends (`Node::end_position`).
pub uninterp spec fn parsed_end_row(place: Place) -> usize;

/// The byte offset where the node at a place starts (`Node::start_byte`).
pub uninterp spec fn parsed_start_byte(place: Place) -> usize;

/// The byte offset where the node at a place ends (`Node::end_byte`).
pub uninterp spec fn parsed_end_byte(place: Place) -> usize;

/// The number of children of the node at a place (`Node::child_count`).
pub uninterp spec fn parsed_child_count(place: Place) -> usize;

/// The number of nodes at and below the node at a place
/// (`Node::descendant_count`).
pub uninterp spec fn parsed_descendant_count(place: Place) -> usize;

/// The number of nodes at and below the first `n` children of the node at
/// a place.
pub open spec fn children_descendants(place: Place, n: nat) -> nat
    decreases n,
{
    if n == 0 {
        0
    } else {
        children_descendants(place, (n - 1) as nat) + (parsed_descendant_count(child_place(place, (n - 1) as usize)) as nat)
    }
}

/// The field of the `i`-th child of the node at a place
/// (`Node::field_name_for_child`).
pub uninterp spec fn parsed_field_name(place: Place, i: usize) -> Option<Seq<char>>;

/// The bytes `start..end` of a text read as UTF-8, where they are valid
/// (`Node::utf8_text`).
pub uninterp spec fn text_slice(content: Seq<char>, start: usize, end: usize) -> Option<Seq<char>>;

/// An optional string as an optional character sequence.
pub open spec fn opt_chars(o: Option<String>) -> Option<Seq<char>> {
    match o {
        Some(s) => Some(s@),
        None => None,
    }
}

/// `tree_sitter::Parser::new`: a parser with no grammar, no timeout, no
/// cancellation flag and no included ranges.
#[verifier::external_body]
fn ts_new_parser() -> (res: TsParser)
    ensures
        parser_grammar(res) is None,
        parser_is_plain(res),
{
    TsParser::new()
}

/// `tree_sitter::Parser::set_language`: whether the parser accepted the
/// grammar.  It accepts exactly the ABI versions from
/// `MIN_COMPATIBLE_LANGUAGE_VERSION` (13) to `LANGUAGE_VERSION` (14), and then
/// holds the grammar; it sets nothing else on the parser.  (Grammars loaded
/// through WebAssembly, which this build of tree-sitter does not support,
/// are not considered.)
#[verifier::external_body]
fn ts_set_language(parser: &mut TsParser, language: &tree_sitter::Language) -> (res: bool)
    ensures
        res == (13 <= language_version(*language) && language_version(*language) <= 14),
        res ==> parser_grammar(*final(parser)) == Some(language_grammar(*language)),
        parser_is_plain(*old(parser)) ==> parser_is_plain(*final(parser)),
{
    parser.set_language(language).is_ok()
}

/// `tree_sitter::Parser::parse` on a whole text, with no earlier tree.  As its
/// documentation says, it gives a tree unless no grammar is assigned, a
/// timeout expired or a cancellation flag was raised; that tree is the
/// parse of the text by the parser's grammar.
#[verifier::external_body]
fn ts_parse(parser: &mut TsParser, content: &str) -> (res: Option<tree_sitter::Tree>)
    ensures
        parser_is_plain(*old(parser)) && parser_grammar(*old(parser)) is Some ==> (res matches Some(t)
            && tree_origin(t) == (parser_grammar(*old(parser))->Some_0, content@)),
{
    parser.parse(content, None)
}

/// The Go grammar, `tree_sitter_go::LANGUAGE` as a `tree_sitter::Language`;
/// its parser was generated for ABI version 14.
#[verifier::external_body]
fn go_language() -> (res: tree_sitter::Language)
    ensures
        language_version(res) == 14,
        language_grammar(res) == "go"@,
{
    tree_sitter_go::LANGUAGE.into()
}

/// The Python grammar, `tree_sitter_python::LANGUAGE` as a
/// `tree_sitter::Language`; its parser was generated for ABI version 14.
#[verifier::external_body]
fn python_language() -> (res: tree_sitter::Language)
    ensures
        language_version(res) == 14,
        language_grammar(res) == "python"@,
{
    tree_sitter_python::LANGUAGE.into()
}

/// The JavaScript grammar, `tree_sitter_javascript::LANGUAGE` as a
/// `tree_sitter::Language`; its parser was generated for ABI version 14.
#[verifier::external_body]
fn javascript_language() -> (res: tree_sitter::Language)
    ensures
        language_version(res) == 14,
        language_grammar(res) == "javascript"@,
{
    tree_sitter_javascript::LANGUAGE.into()
}

/// `tree_sitter::Tree::root_node`: the node at the root of the parse.
#[verifier::external_body]
fn ts_root_node<'t>(tree: &'t tree_sitter::Tree) -> (res: tree_sitter::Node<'t>)
    ensures
        node_place(res) == (tree_origin(*tree).0, tree_origin(*tree).1, Seq::<usize>::empty()),
{
    tree.root_node()
}

/// `tree_sitter::Node::kind`.
#[verifier::external_body]
fn ts_kind(node: &tree_sitter::Node) -> (res: String)
    ensures
        res@ == parsed_kind(node_place(*node)),
{
    node.kind().to_string()
}

/// `tree_sitter::Node::is_named`.
#[verifier::external_body]
fn ts_is_named(node: &tree_sitter::Node) -> (res: bool)
    ensures
        res == parsed_named(node_place(*node)),
{
    node.is_named()
}

/// The row of `tree_sitter::Node::start_position`; rows are 32-bit in tree-sitter.
#[verifier::external_body]
fn ts_start_row(node: &tree_sitter::Node) -> (res: usize)
    ensures
        res == parsed_start_row(node_place(*node)),
        res <= u32::MAX,
{
    node.start_position().row
}

/// The row of `tree_sitter::Node::end_position`; rows are 32-bit in
/// tree-sitter, and a node never ends on a row before the one it starts on.
#[verifier::external_body]
fn ts_end_row(node: &tree_sitter::Node) -> (res: usize)
    ensures
        res == parsed_end_row(node_place(*node)),
        res <= u32::MAX,
        parsed_start_row(node_place(*node)) <= res,
{
    node.end_position().row
}

/// `tree_sitter::Node::child_count`, a 32-bit count in tree-sitter.
#[verifier::external_body]
fn ts_child_count(node: &tree_sitter::Node) -> (res: usize)
    ensures
        res == parsed_child_count(node_place(*node)),
        res <= u32::MAX,
{
    node.child_count()
}

/// `tree_sitter::Node::child`, for a child index that fits in 32 bits: the
/// node's `i`-th child, which sits one step below it; there is one for
/// each index below the node's child count.
#[verifier::external_body]
fn ts_child<'t>(node: &tree_sitter::Node<'t>, i: usize) -> (res: Option<tree_sitter::Node<'t>>)
    requires
        i <= u32::MAX,
    ensures
        res is Some == (i < parsed_child_count(node_place(*node))),
        res matches Some(c) ==> node_place(c) == child_place(node_place(*node), i),
{
    node.child(i)
}

/// `tree_sitter::Node::field_name_for_child`, for a child index that fits in 32 bits.
#[verifier::external_body]
fn ts_field_name_for_child(node: &tree_sitter::Node, i: usize) -> (res: Option<String>)
    requires
        i <= u32::MAX,
    ensures
        opt_chars(res) == parsed_field_name(node_place(*node), i),
{
    node.field_name_for_child(i as u32).map(|f| f.to_string())
}

/// `tree_sitter::Node::start_byte`.
#[verifier::external_body]
fn ts_start_byte(node: &tree_sitter::Node) -> (res: usize)
    ensures
        res == parsed_start_byte(node_place(*node)),
{
    node.start_byte()
}

/// `tree_sitter::Node::end_byte`.
#[verifier::external_body]
fn ts_end_byte(node: &tree_sitter::Node) -> (res: usize)
    ensures
        res == parsed_end_byte(node_place(*node)),
{
    node.end_byte()
}

/// `tree_sitter::Node::utf8_text`: the node's byte range of the text, when
/// it is valid UTF-8, which makes it a run of the text's characters.  The
/// range must lie within the text (the call slices the text by it).
#[verifier::external_body]
fn ts_utf8_text(node: &tree_sitter::Node, content: &str) -> (res: Option<String>)
    requires
        parsed_start_byte(node_place(*node)) <= parsed_end_byte(node_place(*node)),
        parsed_end_byte(node_place(*node)) <= content.len(),
    ensures
        opt_chars(res) == text_slice(
            content@,
            parsed_start_byte(node_place(*node)),
            parsed_end_byte(node_place(*node)),
        ),
        res matches Some(t) ==> contains_seq(content@, t@),
{
    node.utf8_text(content.as_bytes()).ok().map(|t| t.to_string())
}

/// `tree_sitter::Node::descendant_count`: the number of descendants of the
/// node, one for the node itself and those of each of its children.
#[verifier::external_body]
fn ts_descendant_count(node: &tree_sitter::Node) -> (res: usize)
    ensures
        res == parsed_descendant_count(node_place(*node)),
        res == 1 + children_descendants(node_place(*node), parsed_child_count(node_place(*node)) as nat),
{
    node.descendant_count()
}

/// A 0-based row as a 1-based line (the last row stays as it is).
pub open spec fn row_line(row: usize) -> usize {
    if row < usize::MAX {
        (row + 1) as usize
    } else {
        row
    }
}

/// The text of the node at `place` of a parse of a text of `byte_len`
/// bytes: none where its byte range does not lie within the text.
pub open spec fn place_text(place: Place, byte_len: nat) -> Option<Seq<char>> {
    if parsed_start_byte(place) <= parsed_end_byte(place) && parsed_end_byte(place) <= byte_len {
        text_slice(place.1, parsed_start_byte(place), parsed_end_byte(place))
    } else {
        None
    }
}

/// `n` is the plain form of the node at `place` of a parse of a text of
/// `byte_len` bytes: the same kind, namedness, lines and text, and as
/// children the plain forms of the node's children in order, each under
/// the field that the node gives it.  (The field of `n` itself is not constrained: that
/// belongs to `n`'s parent.)
pub open spec fn converts(n: SyntaxNode, place: Place, byte_len: nat) -> bool
    decreases n,
{
    &&& n.kind@ == parsed_kind(place)
    &&& n.named == parsed_named(place)
    &&& n.start_line == row_line(parsed_start_row(place))
    &&& n.end_line == row_line(parsed_end_row(place))
    &&& opt_chars(n.text) == place_text(place, byte_len)
    &&& n.children@.len() == parsed_child_count(place)
    &&& forall|k: int|
        0 <= k < n.children@.len() ==> converts(
            #[trigger] n.children@[k],
            child_place(place, k as usize),
            byte_len,
        ) && opt_chars(n.children@[k].field) == parsed_field_name(place, k as usize)
}

fn line_of_row(row: usize) -> (res: usize)
    ensures
        res == row_line(row),
{
    if row < usize::MAX {
        row + 1
    } else {
        row
    }
}

/// The first `i` children of a node account for no more of its
/// descendants than the first `n`, for `i <= n`.
proof fn lemma_children_descendants_grow(place: Place, i: nat, n: nat)
    requires
        i <= n,
    ensures
        children_descendants(place, i) <= children_descendants(place, n),
    decreases n - i,
{
    if i < n {
        lemma_children_descendants_grow(place, i, (n - 1) as nat);
    }
}

/// The plain tree below `node`.  `budget` counts the nodes still to be
/// visited below the node: it must cover all of them, and each node
/// visited uses up one unit of it.
fn convert_node(node: &tree_sitter::Node, content: &str, budget: &mut usize) -> (res: SyntaxNode)
    requires
        node_place(*node).1 == content@,
        *old(budget) + 1 >= parsed_descendant_count(node_place(*node)),
    ensures
        *final(budget) + parsed_descendant_count(node_place(*node)) == *old(budget) + 1,
        res.field is None,
        converts(res, node_place(*node), content.len() as nat),
        texts_within(res, content@),
    decreases *old(budget),
{
    let ghost place = node_place(*node);
    let _total = ts_descendant_count(node);
    let kind = ts_kind(node);
    let named = ts_is_named(node);
    let start_line = line_of_row(ts_start_row(node));
    let end_line = line_of_row(ts_end_row(node));
    let start_byte = ts_start_byte(node);
    let end_byte = ts_end_byte(node);
    let text = if start_byte <= end_byte && end_byte <= content.len() {
        ts_utf8_text(node, content)
    } else {
        None
    };
    assert(opt_chars(text) == place_text(place, content.len() as nat));
    let count = ts_child_count(node);
    let ghost entry = *budget;
    let mut children: Vec<SyntaxNode> = Vec::new();
    let mut i: usize = 0;
    while i < count
        invariant
            place == node_place(*node),
            place.1 == content@,
            entry == *old(budget),
            entry + 1 >= parsed_descendant_count(place),
            parsed_descendant_count(place) == 1 + children_descendants(place, count as nat),
            count == parsed_child_count(place),
            count <= u32::MAX,
            i <= count,
            *budget + children_descendants(place, i as nat) == entry,
            children@.len() == i,
            forall|k: int| 0 <= k < children@.len() ==> texts_within(#[trigger] children@[k], content@),
            forall|k: int|
                0 <= k < children@.len() ==> converts(
                    #[trigger] children@[k],
                    child_place(place, k as usize),
                    content.len() as nat,
                ) && opt_chars(children@[k].field) == parsed_field_name(place, k as usize),
        decreases count - i,
    {
        let found = ts_child(node, i);
        let child = found.unwrap();
        let _child_total = ts_descendant_count(&child);
        proof {
            lemma_children_descendants_grow(place, (i + 1) as nat, count as nat);
            assert(children_descendants(place, (i + 1) as nat) == children_descendants(place, i as nat)
                + parsed_descendant_count(child_place(place, i)));
        }
        *budget = *budget - 1;
        let field = ts_field_name_for_child(node, i);
        let mut sub = convert_node(&child, content, budget);
        sub.field = field;
        assert(converts(sub, child_place(place, i), content.len() as nat));
        assert(texts_within(sub, content@));
        children.push(sub);
        i += 1;
    }
    assert(i == count);
    SyntaxNode { kind, field: None, named, start_line, end_line, text, children }
}

/// The grammar as tree-sitter's language value: the language generated
/// from that grammar, for the ABI version that this tree-sitter reads.
fn language_of(grammar: Grammar) -> (res: tree_sitter::Language)
    ensures
        language_version(res) == 14,
        language_grammar(res) == grammar_name(grammar),
{
    match grammar {
        Grammar::Go => go_language(),
        Grammar::Python => python_language(),
        Grammar::JavaScript => javascript_language(),
    }
}

/// Parses `content` with the grammar and returns its concrete syntax tree as
/// plain values.  Every grammar is accepted and every text gives a tree:
/// the plain form of the whole parse of `content` by that grammar, its root
/// standing under no field, its texts runs of `content`.
pub fn parse_syntax(grammar: Grammar, content: &str) -> (res: Result<SyntaxNode, SyntaxError>)
    ensures
        res is Ok,
        res matches Ok(root) ==> root.field is None && texts_within(root, content@) && converts(
            root,
            (grammar_name(grammar), content@, Seq::<usize>::empty()),
            content.len() as nat,
        ),
{
    let mut parser = ts_new_parser();
    let language = language_of(grammar);
    if !ts_set_language(&mut parser, &language) {
        return Err(SyntaxError::GrammarRefused);
    }
    let tree = match ts_parse(&mut parser, content) {
        Some(t) => t,
        None => {
            return Err(SyntaxError::ParseFailed);
        },
    };
    let root = ts_root_node(&tree);
    let mut budget = ts_descendant_count(&root);
    let res = convert_node(&root, content, &mut budget);
    Ok(res)
}

} // verus!
