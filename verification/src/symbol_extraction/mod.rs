//! Symbol extraction from concrete syntax trees, shared by the languages.
pub mod go;
pub mod javascript;
pub mod python;

use vstd::prelude::*;
use crate::protocol::{string_views, ChunkView, CodeChunk, SymbolRecord, SymbolView};
use crate::syntax::{opt_chars, SyntaxError, SyntaxNode};
use crate::text::contains_seq;
use crate::text::{chars_of, replace_char, replace_char_exec, string_from_chars, text_of};
use crate::text::{parent_text, plain_path};

verus! {

/// Why symbols could not be extracted from a file.
#[derive(Debug, Clone, Copy, PartialEq, Eq, Structural)]
pub enum ExtractError {
    /// The parser refused the grammar.
    GrammarRefused,
    /// The parser produced no tree.
    ParseFailed,
    /// A matched definition spans text that is not valid UTF-8.
    UnreadableText,
}

/// The extraction error for a parse error.
pub open spec fn extract_error_of(e: SyntaxError) -> ExtractError {
    match e {
        SyntaxError::GrammarRefused => ExtractError::GrammarRefused,
        SyntaxError::ParseFailed => ExtractError::ParseFailed,
    }
}

/// The extraction error for a parse error.
pub fn from_syntax_error(e: SyntaxError) -> (res: ExtractError)
    ensures
        res == extract_error_of(e),
{
    match e {
        SyntaxError::GrammarRefused => ExtractError::GrammarRefused,
        SyntaxError::ParseFailed => ExtractError::ParseFailed,
    }
}

/// A definition found in a syntax tree.
#[derive(Debug)]
pub struct Found {
    pub kind: String,
    pub name: String,
    pub start_line: usize,
    pub end_line: usize,
    pub raw: String,
}

/// A found definition as plain values.
pub struct FoundView {
    pub kind: Seq<char>,
    pub name: Seq<char>,
    pub start_line: usize,
    pub end_line: usize,
    pub raw: Seq<char>,
}

impl View for Found {
    type V = FoundView;

    open spec fn view(&self) -> FoundView {
        FoundView {
            kind: self.kind@,
            name: self.name@,
            start_line: self.start_line,
            end_line: self.end_line,
            raw: self.raw@,
        }
    }
}

/// The views of found items; `None` marks a match whose text is unreadable.
pub open spec fn found_views(v: Seq<Option<Found>>) -> Seq<Option<FoundView>> {
    v.map_values(|f: Option<Found>| match f {
        Some(x) => Some(x@),
        None => None,
    })
}

/// The view of an optional string.
pub open spec fn opt_view(o: Option<String>) -> Option<Seq<char>> {
    match o {
        Some(s) => Some(s@),
        None => None,
    }
}

/// Whether the node is of the grammar kind `k`.
pub fn kind_is(n: &SyntaxNode, k: &str) -> (res: bool)
    ensures
        res == (n.kind@ == k@),
{
    n.kind == text_of(k)
}

/// Whether the node stands under the field `f`.
pub fn has_field_exec(n: &SyntaxNode, f: &str) -> (res: bool)
    ensures
        res == has_field(*n, f@),
{
    match &n.field {
        Some(x) => *x == text_of(f),
        None => false,
    }
}

/// The text of a node, when readable.
pub open spec fn node_text(n: SyntaxNode) -> Option<Seq<char>> {
    match n.text {
        Some(t) => Some(t@),
        None => None,
    }
}

/// Whether a node stands under the field `f` in its parent.
pub open spec fn has_field(n: SyntaxNode, f: Seq<char>) -> bool {
    match n.field {
        Some(x) => x@ == f,
        None => false,
    }
}

/// The first of `cs[i..]` that stands under the field `f`.
pub open spec fn first_field_from(cs: Seq<SyntaxNode>, f: Seq<char>, i: int) -> Option<SyntaxNode>
    decreases cs.len() - i,
{
    if i < 0 || i >= cs.len() {
        None
    } else if has_field(cs[i], f) {
        Some(cs[i])
    } else {
        first_field_from(cs, f, i + 1)
    }
}

/// `Node::child_by_field_name`: the first child under the field `f`.
pub open spec fn field_child(n: SyntaxNode, f: Seq<char>) -> Option<SyntaxNode> {
    first_field_from(n.children@, f, 0)
}

/// The text of the first child under the field `f`, when there is one and it is readable.
pub open spec fn field_text(n: SyntaxNode, f: Seq<char>) -> Option<Seq<char>> {
    match field_child(n, f) {
        Some(c) => node_text(c),
        None => None,
    }
}

/// The position of the first child of `n` under the field `f`.
pub fn field_child_index(n: &SyntaxNode, f: &str) -> (res: Option<usize>)
    ensures
        match res {
            Some(i) => i < n.children@.len() && field_child(*n, f@) == Some(n.children@[i as int]),
            None => field_child(*n, f@) is None,
        },
{
    let ghost cs = n.children@;
    let fs = text_of(f);
    let mut i: usize = 0;
    while i < n.children.len()
        invariant
            cs == n.children@,
            fs@ == f@,
            i <= cs.len(),
            field_child(*n, f@) == first_field_from(cs, f@, i as int),
        decreases cs.len() - i,
    {
        let matched = match &n.children[i].field {
            Some(x) => *x == fs,
            None => false,
        };
        if matched {
            return Some(i);
        }
        i += 1;
    }
    None
}

/// The text of the first child of `n` under the field `f`.
pub fn field_text_exec(n: &SyntaxNode, f: &str) -> (res: Option<String>)
    ensures
        opt_view(res) == field_text(*n, f@),
{
    match field_child_index(n, f) {
        Some(i) => copy_text(&n.children[i]),
        None => None,
    }
}

/// A copy of the text of a node.
pub fn copy_text(n: &SyntaxNode) -> (res: Option<String>)
    ensures
        opt_view(res) == node_text(*n),
{
    match &n.text {
        Some(t) => Some(t.clone()),
        None => None,
    }
}

/// A symbol identifier: kind, scope and name joined by `:`.
pub open spec fn symbol_id_of(kind: Seq<char>, scope: Seq<char>, name: Seq<char>) -> Seq<char> {
    kind + ":"@ + scope + ":"@ + name
}

/// The hexadecimal BLAKE3 digest of the UTF-8 encoding of a text.
pub uninterp spec fn blake3_hex(text: Seq<char>) -> Seq<char>;

/// `blake3::hash` of the UTF-8 bytes of `text`, rendered by its `Display`
/// impl: 64 lowercase hexadecimal digits.
#[verifier::external_body]
fn blake3_digest(text: &str) -> (res: String)
    ensures
        res@ == blake3_hex(text@),
        res@.len() == 64,
{
    blake3::hash(text.as_bytes()).to_string()
}

/// Whether every match had readable text.
pub open spec fn items_readable(items: Seq<Option<FoundView>>) -> bool {
    forall|i: int| 0 <= i < items.len() ==> #[trigger] items[i] is Some
}

/// The symbol record of a found definition.
pub open spec fn record_of(f: FoundView, scope: Seq<char>, file: Seq<char>) -> SymbolView {
    SymbolView {
        symbol_id: symbol_id_of(f.kind, scope, f.name),
        symbol_name: f.name,
        file_path: file,
        start_line: f.start_line,
        end_line: f.end_line,
    }
}

/// The chunk of a found definition.
pub open spec fn chunk_of(f: FoundView, scope: Seq<char>, file: Seq<char>) -> ChunkView {
    ChunkView {
        id: blake3_hex(f.raw),
        file_path: file,
        start_line: f.start_line,
        end_line: f.end_line,
        raw_content: f.raw,
        symbols_defined: seq![symbol_id_of(f.kind, scope, f.name)],
    }
}

/// The chunks and symbol records of the found items, one each per item and
/// in item order, when all of them were readable.
pub open spec fn records_ok(
    items: Seq<Option<FoundView>>,
    scope: Seq<char>,
    file: Seq<char>,
    chunks: Seq<CodeChunk>,
    symbols: Seq<SymbolRecord>,
) -> bool {
    &&& items_readable(items)
    &&& chunks.len() == items.len()
    &&& symbols.len() == items.len()
    &&& forall|i: int| 0 <= i < items.len() ==> #[trigger] chunks[i]@ == chunk_of(items[i].unwrap(), scope, file)
    &&& forall|i: int| 0 <= i < items.len() ==> #[trigger] symbols[i]@ == record_of(items[i].unwrap(), scope, file)
}

/// The outcome of an extraction from its found items: the records when all
/// matches were readable, else the unreadable-text error.
pub open spec fn outcome_ok(
    items: Seq<Option<FoundView>>,
    scope: Seq<char>,
    file: Seq<char>,
    res: Result<(Vec<CodeChunk>, Vec<SymbolRecord>), ExtractError>,
) -> bool {
    match res {
        Ok((chunks, symbols)) => records_ok(items, scope, file, chunks@, symbols@),
        Err(e) => !items_readable(items) && e == ExtractError::UnreadableText,
    }
}

/// The text `kind:scope:name`.
fn join_symbol_id(kind: &String, scope: &str, name: &String) -> (res: String)
    ensures
        res@ == symbol_id_of(kind@, scope@, name@),
{
    let mut s = kind.clone();
    s.append(":");
    s.append(scope);
    s.append(":");
    s.append(name.as_str());
    s
}

/// The chunks and symbol records of the found items.
pub fn build_records(items: &Vec<Option<Found>>, scope: &str, file: &str) -> (res: Result<(Vec<CodeChunk>, Vec<SymbolRecord>), ExtractError>)
    ensures
        outcome_ok(found_views(items@), scope@, file@, res),
{
    let ghost iv = found_views(items@);
    let mut chunks: Vec<CodeChunk> = Vec::new();
    let mut symbols: Vec<SymbolRecord> = Vec::new();
    let mut i: usize = 0;
    while i < items.len()
        invariant
            iv == found_views(items@),
            i <= items@.len(),
            chunks@.len() == i,
            symbols@.len() == i,
            forall|k: int| 0 <= k < i ==> #[trigger] iv[k] is Some,
            forall|k: int| 0 <= k < i ==> #[trigger] chunks@[k]@ == chunk_of(iv[k].unwrap(), scope@, file@),
            forall|k: int| 0 <= k < i ==> #[trigger] symbols@[k]@ == record_of(iv[k].unwrap(), scope@, file@),
        decreases items@.len() - i,
    {
        match &items[i] {
            None => {
                assert(iv[i as int] is None);
                return Err(ExtractError::UnreadableText);
            },
            Some(f) => {
                let symbol_id = join_symbol_id(&f.kind, scope, &f.name);
                let mut defined: Vec<String> = Vec::new();
                defined.push(symbol_id.clone());
                assert(string_views(defined@) =~= seq![symbol_id@]);
                symbols.push(
                    SymbolRecord {
                        symbol_id,
                        symbol_name: f.name.clone(),
                        file_path: text_of(file),
                        start_line: f.start_line,
                        end_line: f.end_line,
                    },
                );
                chunks.push(
                    CodeChunk {
                        id: blake3_digest(f.raw.as_str()),
                        file_path: text_of(file),
                        start_line: f.start_line,
                        end_line: f.end_line,
                        raw_content: f.raw.clone(),
                        symbols_defined: defined,
                    },
                );
            },
        }
        i += 1;
    }
    Ok((chunks, symbols))
}

/// The path of a file with `\` separators written as `/`.
pub open spec fn normalized_path(path: Seq<char>) -> Seq<char> {
    replace_char(path, '\\', '/')
}

/// The scope of the symbols of a file, from its parent directory: the
/// directory with `/` separators, or `crate` for a file at the top.
pub open spec fn module_scope(parent: Option<Seq<char>>) -> Seq<char> {
    let m = match parent {
        Some(p) => replace_char(p, '\\', '/'),
        None => seq![],
    };
    if m.len() == 0 || m == "."@ {
        "crate"@
    } else {
        m
    }
}

/// `Path::parent`, as text.  Of every outcome: the parent is no longer than
/// the path.  Of a plain path (relative or absolute), as `Path`'s
/// documentation describes it: the path without its final component (see
/// [`parent_text`]).  Of other paths (ones with `.` components, repeated or
/// trailing separators, or platform prefixes) the result is not stated.
#[verifier::external_body]
fn path_parent(path: &str) -> (res: Option<String>)
    ensures
        res matches Some(p) ==> p@.len() <= path@.len(),
        plain_path(path@) ==> opt_chars(res) == Some(parent_text(path@)),
{
    std::path::Path::new(path).parent().map(|p| p.to_string_lossy().into_owned())
}

/// The path of a file with `\` separators written as `/`.
pub fn normalize_path(path: &str) -> (res: String)
    ensures
        res@ == normalized_path(path@),
{
    let pc = chars_of(path);
    let r = replace_char_exec(pc.as_slice(), '\\', '/');
    string_from_chars(r.as_slice())
}

/// The scope of the symbols of a file, given its parent directory.
pub fn module_scope_of(parent: Option<String>) -> (res: String)
    ensures
        res@ == module_scope(
            match parent {
                Some(p) => Some(p@),
                None => None,
            },
        ),
{
    let m = match parent {
        Some(p) => normalize_path(p.as_str()),
        None => String::new(),
    };
    let dot = text_of(".");
    if m.as_str().is_empty() || m == dot {
        proof {
            if m@.len() != 0 {
                assert(m@ == "."@);
            }
        }
        text_of("crate")
    } else {
        m
    }
}

/// `scope` is the scope of the symbols of the file at `path`: the
/// [`module_scope`] of some parent of the path, no longer than it; for a
/// plain path, of the path without its final component.
pub open spec fn scope_for(path: Seq<char>, scope: Seq<char>) -> bool {
    exists|parent: Option<Seq<char>>|
        (parent matches Some(p) ==> p.len() <= path.len()) && (plain_path(path) ==> parent
            == Some(parent_text(path))) && scope == module_scope(parent)
}

/// The scope of the symbols of the file at `path`, from its parent
/// directory as `Path::parent` finds it: for a plain path, the path
/// without its final component, or `crate` for a file at the top.
pub fn scope_of_file(path: &str) -> (res: String)
    ensures
        scope_for(path@, res@),
        plain_path(path@) ==> res@ == module_scope(Some(parent_text(path@))),
{
    let parent = path_parent(path);
    let ghost pv = match &parent {
        Some(p) => Some(p@),
        None => None,
    };
    let res = module_scope_of(parent);
    assert((pv matches Some(p) ==> p.len() <= path@.len()) && (plain_path(path@) ==> pv
        == Some(parent_text(path@))) && res@ == module_scope(pv));
    assert(scope_for(path@, res@));
    res
}

/// The items of one match on the node `n`: an unreadable marker when its
/// text cannot be read, else its symbol when its name can be read.
pub open spec fn capture_item(n: SyntaxNode, info: Option<(Seq<char>, Seq<char>)>) -> Seq<Option<FoundView>> {
    match node_text(n) {
        None => seq![None],
        Some(raw) => match info {
            None => seq![],
            Some((k, nm)) => seq![
                Some(FoundView { kind: k, name: nm, start_line: n.start_line, end_line: n.end_line, raw }),
            ],
        },
    }
}

/// The view of an optional pair of strings.
pub open spec fn pair_view(o: Option<(String, String)>) -> Option<(Seq<char>, Seq<char>)> {
    match o {
        Some((a, b)) => Some((a@, b@)),
        None => None,
    }
}

/// Appends the items of one match on `n`.
pub fn push_capture(n: &SyntaxNode, info: Option<(String, String)>, out: &mut Vec<Option<Found>>)
    ensures
        found_views(final(out)@) == found_views(old(out)@) + capture_item(*n, pair_view(info)),
{
    let ghost before = out@;
    match copy_text(n) {
        None => {
            out.push(None);
        },
        Some(raw) => match info {
            None => {},
            Some((kind, name)) => {
                out.push(Some(Found { kind, name, start_line: n.start_line, end_line: n.end_line, raw }));
            },
        },
    }
    assert(found_views(out@) =~= found_views(before) + capture_item(*n, pair_view(info)));
}

/// Each extracted chunk defines exactly the symbol extracted with it, in
/// the same file over the same lines, and its identifier is the digest of
/// its text.
pub proof fn law_chunk_defines_its_symbol(
    items: Seq<Option<FoundView>>,
    scope: Seq<char>,
    file: Seq<char>,
    chunks: Seq<CodeChunk>,
    symbols: Seq<SymbolRecord>,
)
    requires
        records_ok(items, scope, file, chunks, symbols),
    ensures
        chunks.len() == symbols.len(),
        forall|i: int|
            0 <= i < chunks.len() ==> {
                &&& (#[trigger] chunks[i])@.symbols_defined == seq![symbols[i]@.symbol_id]
                &&& chunks[i]@.file_path == symbols[i]@.file_path
                &&& chunks[i]@.start_line == symbols[i]@.start_line
                &&& chunks[i]@.end_line == symbols[i]@.end_line
                &&& chunks[i]@.id == blake3_hex(chunks[i]@.raw_content)
            },
{
    assert forall|i: int| 0 <= i < chunks.len() implies {
        &&& (#[trigger] chunks[i])@.symbols_defined == seq![symbols[i]@.symbol_id]
        &&& chunks[i]@.file_path == symbols[i]@.file_path
        &&& chunks[i]@.start_line == symbols[i]@.start_line
        &&& chunks[i]@.end_line == symbols[i]@.end_line
        &&& chunks[i]@.id == blake3_hex(chunks[i]@.raw_content)
    } by {
        assert(chunks[i]@ == chunk_of(items[i].unwrap(), scope, file));
        assert(symbols[i]@ == record_of(items[i].unwrap(), scope, file));
    }
}

/// Every readable found item's text is a run of `content`.
pub open spec fn items_within(items: Seq<Option<FoundView>>, content: Seq<char>) -> bool {
    forall|k: int|
        0 <= k < items.len() ==> (#[trigger] items[k] matches Some(f) ==> contains_seq(content, f.raw) && 1
            <= f.start_line <= f.end_line)
}

/// The items of a match on a node that fits `content` (its text a run of
/// it, its lines running forward from line 1) fit it too.
pub proof fn lemma_capture_within(n: SyntaxNode, info: Option<(Seq<char>, Seq<char>)>, content: Seq<char>)
    requires
        n.text matches Some(t) ==> contains_seq(content, t@),
        1 <= n.start_line <= n.end_line,
    ensures
        items_within(capture_item(n, info), content),
{
}

/// Items that fit `content` still do when put together.
pub proof fn lemma_concat_within(a: Seq<Option<FoundView>>, b: Seq<Option<FoundView>>, content: Seq<char>)
    requires
        items_within(a, content),
        items_within(b, content),
    ensures
        items_within(a + b, content),
{
    assert forall|k: int| 0 <= k < (a + b).len() implies (#[trigger] (a + b)[k] matches Some(f) ==> contains_seq(content, f.raw)) by {
        if k < a.len() {
            assert((a + b)[k] == a[k]);
        } else {
            assert((a + b)[k] == b[k - a.len()]);
        }
    }
}

/// The chunks extracted from items that fit the source text are runs of it,
/// and their lines run forward from line 1.
pub proof fn law_chunks_lie_in_source(
    items: Seq<Option<FoundView>>,
    scope: Seq<char>,
    file: Seq<char>,
    content: Seq<char>,
    chunks: Seq<CodeChunk>,
    symbols: Seq<SymbolRecord>,
)
    requires
        items_within(items, content),
        records_ok(items, scope, file, chunks, symbols),
    ensures
        forall|i: int|
            0 <= i < chunks.len() ==> contains_seq(content, (#[trigger] chunks[i])@.raw_content) && 1
                <= chunks[i]@.start_line <= chunks[i]@.end_line,
{
    assert forall|i: int|
        0 <= i < chunks.len() implies contains_seq(content, (#[trigger] chunks[i])@.raw_content) && 1
            <= chunks[i]@.start_line <= chunks[i]@.end_line by {
        assert(chunks[i]@ == chunk_of(items[i].unwrap(), scope, file));
        assert(items[i] matches Some(f) ==> contains_seq(content, f.raw) && 1 <= f.start_line <= f.end_line);
    }
}

/// Identifiers are stable: a chunk's identifier depends on its text alone,
/// and a symbol's identifier on its kind, scope and name alone, not on the
/// file or the lines where they stand.
pub proof fn law_identifiers_are_stable(
    f1: FoundView,
    f2: FoundView,
    scope: Seq<char>,
    file1: Seq<char>,
    file2: Seq<char>,
)
    ensures
        f1.raw == f2.raw ==> chunk_of(f1, scope, file1).id == chunk_of(f2, scope, file2).id,
        f1.kind == f2.kind && f1.name == f2.name ==> record_of(f1, scope, file1).symbol_id == record_of(
            f2,
            scope,
            file2,
        ).symbol_id,
{
}

} // verus!
