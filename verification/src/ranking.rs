//! Reciprocal rank fusion of lexical and semantic candidates and the
//! heuristic adjustments applied to each fused candidate.
//!
//! The ranker decides, for every candidate, which retrieval ranks feed its
//! fused score and which score adjustments apply, in which order, with which
//! reason.  The arithmetic on those decisions is done by the caller.
use vstd::prelude::*;
use crate::classifier::QueryIntent;
use crate::protocol::{ChunkView, CodeChunk};
use crate::text::{
    after_last, after_last_chars, chars_of, chars_eq, contains_chars, contains_seq, contains_str, ends_with_seq, ends_with_str,
    lowercase, lowercase_chars, sep_scan, seq_has, split_chars, split_on, split_whitespace_chars,
    text_of, tokens_have, ws_tokens,
};

verus! {

/// The name part of a symbol identifier: what follows its last `:`.
pub open spec fn symbol_name_of(id: Seq<char>) -> Seq<char> {
    split_on(id, ':').last()
}

/// The lowercased name part of a symbol identifier.
pub open spec fn lower_name(id: Seq<char>) -> Seq<char> {
    lowercase(symbol_name_of(id))
}

/// The name part of a symbol identifier: what follows its last `:`.
pub fn symbol_name(id: &[char]) -> (res: Vec<char>)
    ensures
        res@ == symbol_name_of(id@),
{
    let mut parts = split_chars(id, ':');
    proof {
        let (p, c) = sep_scan(id@, ':');
        assert(split_on(id@, ':').len() == p.len() + 1);
    }
    let last = parts.pop();
    match last {
        Some(v) => v,
        None => Vec::new(),
    }
}

/// The lowercased name part of a symbol identifier.
pub fn lower_symbol_name(id: &String) -> (res: Vec<char>)
    ensures
        res@ == lower_name(id@),
{
    let chars = chars_of(id.as_str());
    let name = symbol_name(chars.as_slice());
    lowercase_chars(name.as_slice())
}

/// A path that the search leaves out unless tests are asked for: its
/// lowercase form names vendored, generated, mock, test, fixture or example
/// code.
pub open spec fn excluded_path(path: Seq<char>) -> bool {
    let l = lowercase(path);
    contains_seq(l, "vendor"@) || contains_seq(l, "node_modules"@) || contains_seq(l, "mock"@)
        || contains_seq(l, "test"@) || contains_seq(l, "generated"@) || contains_seq(l, ".pb.go"@)
        || contains_seq(l, "fixtures"@) || contains_seq(l, "examples"@)
}

/// Whether a path is left out of the results unless tests are asked for.
pub fn is_excluded_path(path: &String) -> (res: bool)
    ensures
        res == excluded_path(path@),
{
    let chars = chars_of(path.as_str());
    let low = lowercase_chars(chars.as_slice());
    let l = low.as_slice();
    contains_str(l, "vendor") || contains_str(l, "node_modules") || contains_str(l, "mock")
        || contains_str(l, "test") || contains_str(l, "generated") || contains_str(l, ".pb.go")
        || contains_str(l, "fixtures") || contains_str(l, "examples")
}

/// The kinds of infrastructure code whose candidates are penalised.
#[derive(Debug, Clone, Copy, PartialEq, Eq, Structural)]
pub enum NoiseTier {
    /// Vendored dependencies and `node_modules`.
    Vendor,
    /// Generated code, protobuf output included.
    Generated,
    /// Test files and test data.
    TestFile,
    /// Mock or test directories.
    MockOrTestDir,
    /// Fixtures, examples and build output.
    FixtureOrBuild,
}

/// The noise tier of a path, judged on its lowercase form, the first of the
/// tiers that applies.
pub open spec fn noise_tier_of(path: Seq<char>) -> Option<NoiseTier> {
    let l = lowercase(path);
    if contains_seq(l, "vendor"@) || contains_seq(l, "node_modules"@) {
        Some(NoiseTier::Vendor)
    } else if contains_seq(l, "generated"@) || contains_seq(l, ".pb.go"@) {
        Some(NoiseTier::Generated)
    } else if ends_with_seq(l, "_test.go"@) || ends_with_seq(l, ".test.ts"@) || ends_with_seq(
        l,
        "_test.rs"@,
    ) || ends_with_seq(l, "_test.py"@) || contains_seq(l, "testdata"@) {
        Some(NoiseTier::TestFile)
    } else if contains_seq(l, "mock"@) || contains_seq(l, "test"@) {
        Some(NoiseTier::MockOrTestDir)
    } else if contains_seq(l, "fixtures"@) || contains_seq(l, "examples"@) || contains_seq(
        l,
        "target"@,
    ) || contains_seq(l, "build"@) || contains_seq(l, "dist"@) {
        Some(NoiseTier::FixtureOrBuild)
    } else {
        None
    }
}

/// The noise tier of a path, if any.
pub fn noise_tier(path: &String) -> (res: Option<NoiseTier>)
    ensures
        res == noise_tier_of(path@),
{
    let chars = chars_of(path.as_str());
    let low = lowercase_chars(chars.as_slice());
    let l = low.as_slice();
    if contains_str(l, "vendor") || contains_str(l, "node_modules") {
        Some(NoiseTier::Vendor)
    } else if contains_str(l, "generated") || contains_str(l, ".pb.go") {
        Some(NoiseTier::Generated)
    } else if ends_with_str(l, "_test.go") || ends_with_str(l, ".test.ts") || ends_with_str(
        l,
        "_test.rs",
    ) || ends_with_str(l, "_test.py") || contains_str(l, "testdata") {
        Some(NoiseTier::TestFile)
    } else if contains_str(l, "mock") || contains_str(l, "test") {
        Some(NoiseTier::MockOrTestDir)
    } else if contains_str(l, "fixtures") || contains_str(l, "examples") || contains_str(
        l,
        "target",
    ) || contains_str(l, "build") || contains_str(l, "dist") {
        Some(NoiseTier::FixtureOrBuild)
    } else {
        None
    }
}

/// Some symbol of the chunk is what the query names: its lowercased name
/// equals the lowercased query, or one of its `.`-separated parts is a token
/// of the lowercased query.
pub open spec fn defines_query(symbols: Seq<Seq<char>>, query: Seq<char>) -> bool {
    let ql = lowercase(query);
    exists|i: int|
        0 <= i < symbols.len() && ({
            let n = lower_name(#[trigger] symbols[i]);
            n == ql || exists|j: int|
                0 <= j < split_on(n, '.').len() && seq_has(ws_tokens(ql), split_on(n, '.')[j])
        })
}

/// The whitespace-separated tokens of the query, each lowercased.
pub open spec fn lowered_tokens(query: Seq<char>) -> Seq<Seq<char>> {
    ws_tokens(query).map_values(|t: Seq<char>| lowercase(t))
}

/// Some lowercased symbol name of the chunk contains some lowercased query token.
pub open spec fn names_query_token(symbols: Seq<Seq<char>>, query: Seq<char>) -> bool {
    exists|i: int, j: int|
        0 <= i < symbols.len() && 0 <= j < lowered_tokens(query).len() && contains_seq(
            lower_name(#[trigger] symbols[i]),
            #[trigger] lowered_tokens(query)[j],
        )
}

/// A lowercased symbol name that suggests a service entry point, a handler or
/// a public interface.
pub open spec fn names_service(n: Seq<char>) -> bool {
    contains_seq(n, "service"@) || contains_seq(n, "handler"@) || contains_seq(n, "controller"@)
        || contains_seq(n, "router"@) || contains_seq(n, "interface"@) || contains_seq(n, "api"@)
}

/// The number of symbols whose lowercased name suggests a service.
pub open spec fn service_count(symbols: Seq<Seq<char>>) -> nat
    decreases symbols.len(),
{
    if symbols.len() == 0 {
        0
    } else {
        service_count(symbols.drop_last()) + if names_service(lower_name(symbols.last())) {
            1nat
        } else {
            0nat
        }
    }
}

/// A lowercased symbol name that is boilerplate.
pub open spec fn is_generic_name(n: Seq<char>) -> bool {
    n == "main"@ || n == "new"@ || n == "init"@ || n == "test"@ || n == "helper"@ || n == "util"@
        || n == "config"@
}

/// The part of a lowercased symbol name that says what it is: the text
/// after its last `.` (the method of `Parser.new`), or the whole name.
pub open spec fn member_name(n: Seq<char>) -> Seq<char> {
    after_last(n, '.')
}

/// Some symbol of the chunk has a boilerplate name, as a whole or as the
/// member part of a method name (such as `Parser.new`).
pub open spec fn has_generic_symbol(symbols: Seq<Seq<char>>) -> bool {
    exists|i: int|
        0 <= i < symbols.len() && (is_generic_name(lower_name(#[trigger] symbols[i])) || is_generic_name(
            member_name(lower_name(symbols[i])),
        ))
}

/// Whether some symbol of the chunk is what the query names.
pub fn is_definition_of_query(chunk: &CodeChunk, query: &str) -> (res: bool)
    ensures
        res == defines_query(chunk@.symbols_defined, query@),
{
    let qc = chars_of(query);
    let query_lower = lowercase_chars(qc.as_slice());
    let query_tokens = split_whitespace_chars(query_lower.as_slice());
    let ghost syms = chunk@.symbols_defined;
    let ghost ql = lowercase(query@);
    let mut i: usize = 0;
    while i < chunk.symbols_defined.len()
        invariant
            syms == chunk@.symbols_defined,
            syms.len() == chunk.symbols_defined@.len(),
            ql == lowercase(query@),
            query_lower@ == ql,
            query_tokens@.len() == ws_tokens(ql).len(),
            forall|k: int| 0 <= k < query_tokens@.len() ==> #[trigger] query_tokens@[k]@ == ws_tokens(ql)[k],
            i <= syms.len(),
            forall|k: int|
                0 <= k < i ==> !({
                    let n = lower_name(#[trigger] syms[k]);
                    n == ql || exists|j: int|
                        0 <= j < split_on(n, '.').len() && seq_has(ws_tokens(ql), split_on(n, '.')[j])
                }),
        decreases syms.len() - i,
    {
        let name = lower_symbol_name(&chunk.symbols_defined[i]);
        assert(syms[i as int] == chunk.symbols_defined@[i as int]@);
        if chars_eq(name.as_slice(), query_lower.as_slice()) {
            return true;
        }
        let parts = split_chars(name.as_slice(), '.');
        let mut j: usize = 0;
        while j < parts.len()
            invariant
                ql == lowercase(query@),
                syms == chunk@.symbols_defined,
                i < syms.len(),
                name@ == lower_name(syms[i as int]),
                query_tokens@.len() == ws_tokens(ql).len(),
                forall|k: int| 0 <= k < query_tokens@.len() ==> #[trigger] query_tokens@[k]@ == ws_tokens(ql)[k],
                parts@.len() == split_on(name@, '.').len(),
                forall|k: int| 0 <= k < parts@.len() ==> #[trigger] parts@[k]@ == split_on(name@, '.')[k],
                j <= parts@.len(),
                forall|k: int| 0 <= k < j ==> !seq_has(ws_tokens(ql), #[trigger] split_on(name@, '.')[k]),
            decreases parts@.len() - j,
        {
            if tokens_have(&query_tokens, parts[j].as_slice()) {
                let ghost k = choose|k: int| 0 <= k < query_tokens@.len() && query_tokens@[k]@ == parts@[j as int]@;
                assert(ws_tokens(ql)[k] == split_on(name@, '.')[j as int]);
                assert(seq_has(ws_tokens(ql), split_on(name@, '.')[j as int]));
                assert(exists|jj: int|
                    0 <= jj < split_on(name@, '.').len() && seq_has(ws_tokens(ql), split_on(name@, '.')[jj]));
                assert(lower_name(syms[i as int]) == name@);
                return true;
            }
            assert(!seq_has(ws_tokens(ql), split_on(name@, '.')[j as int])) by {
                if seq_has(ws_tokens(ql), split_on(name@, '.')[j as int]) {
                    let k = choose|k: int| 0 <= k < ws_tokens(ql).len() && ws_tokens(ql)[k] == split_on(name@, '.')[j as int];
                    assert(query_tokens@[k]@ == ws_tokens(ql)[k]);
                }
            }
            j += 1;
        }
        i += 1;
    }
    false
}

/// The lowercased whitespace-separated tokens of a query.
pub fn lowered_query_tokens(query: &str) -> (res: Vec<Vec<char>>)
    ensures
        res@.len() == lowered_tokens(query@).len(),
        forall|k: int| 0 <= k < res@.len() ==> #[trigger] res@[k]@ == lowered_tokens(query@)[k],
{
    let qc = chars_of(query);
    let toks = split_whitespace_chars(qc.as_slice());
    let mut res: Vec<Vec<char>> = Vec::new();
    let mut i: usize = 0;
    while i < toks.len()
        invariant
            toks@.len() == ws_tokens(query@).len(),
            forall|k: int| 0 <= k < toks@.len() ==> #[trigger] toks@[k]@ == ws_tokens(query@)[k],
            i <= toks@.len(),
            res@.len() == i,
            forall|k: int| 0 <= k < i ==> #[trigger] res@[k]@ == lowered_tokens(query@)[k],
        decreases toks@.len() - i,
    {
        res.push(lowercase_chars(toks[i].as_slice()));
        i += 1;
    }
    res
}

/// Whether some lowercased symbol name of the chunk contains some of the
/// lowercased query tokens `tokens`.
fn names_any_token(chunk: &CodeChunk, tokens: &Vec<Vec<char>>, Ghost(query): Ghost<Seq<char>>) -> (res: bool)
    requires
        tokens@.len() == lowered_tokens(query).len(),
        forall|k: int| 0 <= k < tokens@.len() ==> #[trigger] tokens@[k]@ == lowered_tokens(query)[k],
    ensures
        res == names_query_token(chunk@.symbols_defined, query),
{
    let ghost syms = chunk@.symbols_defined;
    let mut i: usize = 0;
    while i < chunk.symbols_defined.len()
        invariant
            syms == chunk@.symbols_defined,
            syms.len() == chunk.symbols_defined@.len(),
            tokens@.len() == lowered_tokens(query).len(),
            forall|k: int| 0 <= k < tokens@.len() ==> #[trigger] tokens@[k]@ == lowered_tokens(query)[k],
            i <= syms.len(),
            forall|a: int, b: int|
                0 <= a < i && 0 <= b < tokens@.len() ==> !contains_seq(
                    lower_name(#[trigger] syms[a]),
                    #[trigger] lowered_tokens(query)[b],
                ),
        decreases syms.len() - i,
    {
        let name = lower_symbol_name(&chunk.symbols_defined[i]);
        assert(syms[i as int] == chunk.symbols_defined@[i as int]@);
        let mut j: usize = 0;
        while j < tokens.len()
            invariant
                syms == chunk@.symbols_defined,
                i < syms.len(),
                name@ == lower_name(syms[i as int]),
                tokens@.len() == lowered_tokens(query).len(),
                forall|k: int| 0 <= k < tokens@.len() ==> #[trigger] tokens@[k]@ == lowered_tokens(query)[k],
                j <= tokens@.len(),
                forall|b: int| 0 <= b < j ==> !contains_seq(name@, #[trigger] lowered_tokens(query)[b]),
            decreases tokens@.len() - j,
        {
            if contains_chars(name.as_slice(), tokens[j].as_slice()) {
                assert(tokens@[j as int]@ == lowered_tokens(query)[j as int]);
                assert(contains_seq(lower_name(syms[i as int]), lowered_tokens(query)[j as int]));
                return true;
            }
            j += 1;
        }
        i += 1;
    }
    false
}

/// The number of symbols of a chunk whose lowercased name suggests a service.
pub fn count_service_symbols(chunk: &CodeChunk) -> (res: usize)
    ensures
        res == service_count(chunk@.symbols_defined),
{
    let ghost syms = chunk@.symbols_defined;
    let mut count: usize = 0;
    let mut i: usize = 0;
    while i < chunk.symbols_defined.len()
        invariant
            syms == chunk@.symbols_defined,
            syms.len() == chunk.symbols_defined@.len(),
            i <= syms.len(),
            count == service_count(syms.take(i as int)),
            count <= i,
        decreases syms.len() - i,
    {
        let name = lower_symbol_name(&chunk.symbols_defined[i]);
        let n = name.as_slice();
        assert(syms.take(i + 1).drop_last() =~= syms.take(i as int));
        assert(syms[i as int] == chunk.symbols_defined@[i as int]@);
        if contains_str(n, "service") || contains_str(n, "handler") || contains_str(n, "controller")
            || contains_str(n, "router") || contains_str(n, "interface") || contains_str(n, "api") {
            count += 1;
        }
        i += 1;
    }
    assert(syms.take(syms.len() as int) =~= syms);
    count
}

/// Whether some symbol of the chunk has a boilerplate name.
pub fn has_generic_symbol_exec(chunk: &CodeChunk) -> (res: bool)
    ensures
        res == has_generic_symbol(chunk@.symbols_defined),
{
    let ghost syms = chunk@.symbols_defined;
    let mut i: usize = 0;
    while i < chunk.symbols_defined.len()
        invariant
            syms == chunk@.symbols_defined,
            syms.len() == chunk.symbols_defined@.len(),
            i <= syms.len(),
            forall|k: int|
                0 <= k < i ==> !is_generic_name(lower_name(#[trigger] syms[k])) && !is_generic_name(
                    member_name(lower_name(syms[k])),
                ),
        decreases syms.len() - i,
    {
        let name = lower_symbol_name(&chunk.symbols_defined[i]);
        assert(syms[i as int] == chunk.symbols_defined@[i as int]@);
        if is_generic_exec(name.as_slice()) {
            return true;
        }
        let member = after_last_chars(name.as_slice(), '.');
        if is_generic_exec(member.as_slice()) {
            return true;
        }
        i += 1;
    }
    false
}

/// Whether a lowercased name is boilerplate.
fn is_generic_exec(n: &[char]) -> (res: bool)
    ensures
        res == is_generic_name(n@),
{
    let main_c = chars_of("main");
    let new_c = chars_of("new");
    let init_c = chars_of("init");
    let test_c = chars_of("test");
    let helper_c = chars_of("helper");
    let util_c = chars_of("util");
    let config_c = chars_of("config");
    chars_eq(n, main_c.as_slice()) || chars_eq(n, new_c.as_slice()) || chars_eq(n, init_c.as_slice())
        || chars_eq(n, test_c.as_slice()) || chars_eq(n, helper_c.as_slice()) || chars_eq(
        n,
        util_c.as_slice(),
    ) || chars_eq(n, config_c.as_slice())
}

/// A score adjustment and the reason it is reported under.
#[derive(Debug, Clone, Copy, PartialEq, Eq, Structural)]
pub enum Adjustment {
    /// The candidate lies in infrastructure code of the given tier.
    Noise(NoiseTier),
    /// A symbol of the candidate is what the query names.
    Definition,
    /// A symbol name of the candidate contains a query token.
    Identifier,
    /// A symbol name of the candidate contains a query token, for broad intents.
    Concept,
    /// A symbol of the candidate looks like a service entry point.
    Intent,
    /// A symbol of the candidate has a boilerplate name.
    GenericSymbol,
    /// The given number of candidates, more than one, share the candidate's file.
    FileCoherence(usize),
}

/// The reason under which an adjustment is reported.
pub open spec fn adjustment_reason(a: Adjustment) -> Seq<char> {
    match a {
        Adjustment::Noise(NoiseTier::Vendor) => "Vendor/node_modules penalty"@,
        Adjustment::Noise(NoiseTier::Generated) => "Generated code penalty"@,
        Adjustment::Noise(NoiseTier::TestFile) => "Test/testdata penalty"@,
        Adjustment::Noise(NoiseTier::MockOrTestDir) => "Mock/Test directory penalty"@,
        Adjustment::Noise(NoiseTier::FixtureOrBuild) => "Fixtures/Examples/Build penalty"@,
        Adjustment::Definition => "Definition boost"@,
        Adjustment::Identifier => "Identifier match boost"@,
        Adjustment::Concept => "Concept match boost"@,
        Adjustment::Intent => "Intent-based service/handler boost"@,
        Adjustment::GenericSymbol => "Generic symbol penalty"@,
        Adjustment::FileCoherence(_) => "File coherence boost"@,
    }
}

impl Adjustment {
    /// The reason under which this adjustment is reported.
    pub fn reason(&self) -> (res: String)
        ensures
            res@ == adjustment_reason(*self),
    {
        match self {
            Adjustment::Noise(NoiseTier::Vendor) => text_of("Vendor/node_modules penalty"),
            Adjustment::Noise(NoiseTier::Generated) => text_of("Generated code penalty"),
            Adjustment::Noise(NoiseTier::TestFile) => text_of("Test/testdata penalty"),
            Adjustment::Noise(NoiseTier::MockOrTestDir) => text_of("Mock/Test directory penalty"),
            Adjustment::Noise(NoiseTier::FixtureOrBuild) => text_of("Fixtures/Examples/Build penalty"),
            Adjustment::Definition => text_of("Definition boost"),
            Adjustment::Identifier => text_of("Identifier match boost"),
            Adjustment::Concept => text_of("Concept match boost"),
            Adjustment::Intent => text_of("Intent-based service/handler boost"),
            Adjustment::GenericSymbol => text_of("Generic symbol penalty"),
            Adjustment::FileCoherence(_) => text_of("File coherence boost"),
        }
    }
}

/// The views of a sequence of chunks.
pub open spec fn chunk_views(v: Seq<CodeChunk>) -> Seq<ChunkView> {
    v.map_values(|c: CodeChunk| c@)
}

/// Whether some chunk of `cs` has the identifier `id`.
pub open spec fn has_id(cs: Seq<ChunkView>, id: Seq<char>) -> bool {
    exists|i: int| 0 <= i < cs.len() && (#[trigger] cs[i]).id == id
}

/// One chunk per distinct identifier, the first chunk given under it, in
/// the order in which the identifiers first occur.
pub open spec fn fuse(all: Seq<ChunkView>) -> Seq<ChunkView>
    decreases all.len(),
{
    if all.len() == 0 {
        seq![]
    } else {
        let f = fuse(all.drop_last());
        if has_id(f, all.last().id) {
            f
        } else {
            f.push(all.last())
        }
    }
}

/// The positions, in increasing order, at which chunks with identifier `id`
/// stand in `list`.
pub open spec fn ranks_in(list: Seq<ChunkView>, id: Seq<char>) -> Seq<usize>
    decreases list.len(),
{
    if list.len() == 0 {
        seq![]
    } else {
        let r = ranks_in(list.drop_last(), id);
        if list.last().id == id {
            r.push((list.len() - 1) as usize)
        } else {
            r
        }
    }
}

/// The chunks of `cs` that the search keeps: all of them when tests are
/// asked for, else those whose path is not excluded.
pub open spec fn keep(cs: Seq<ChunkView>, include_tests: bool) -> Seq<ChunkView>
    decreases cs.len(),
{
    if cs.len() == 0 {
        seq![]
    } else {
        let k = keep(cs.drop_last(), include_tests);
        if include_tests || !excluded_path(cs.last().file_path) {
            k.push(cs.last())
        } else {
            k
        }
    }
}

/// The fused candidates of a search that the ranker scores.
pub open spec fn candidates(lexical: Seq<ChunkView>, semantic: Seq<ChunkView>, include_tests: bool) -> Seq<ChunkView> {
    keep(fuse(lexical + semantic), include_tests)
}

/// Whether some chunk of `cs` has the same identifier as `id`.
fn has_chunk_id(cs: &Vec<CodeChunk>, id: &String) -> (res: bool)
    ensures
        res == has_id(chunk_views(cs@), id@),
{
    let mut i: usize = 0;
    while i < cs.len()
        invariant
            i <= cs@.len(),
            forall|k: int| 0 <= k < i ==> cs@[k].id@ != id@,
        decreases cs@.len() - i,
    {
        if cs[i].id == *id {
            assert(chunk_views(cs@)[i as int].id == id@);
            return true;
        }
        i += 1;
    }
    assert(!has_id(chunk_views(cs@), id@)) by {
        if has_id(chunk_views(cs@), id@) {
            let k = choose|k: int| 0 <= k < cs@.len() && (#[trigger] chunk_views(cs@)[k]).id == id@;
            assert(chunk_views(cs@)[k] == cs@[k]@);
        }
    }
    false
}

/// One chunk per distinct identifier of `all`, in first-occurrence order.
pub fn fuse_chunks(all: &Vec<CodeChunk>) -> (res: Vec<CodeChunk>)
    ensures
        chunk_views(res@) == fuse(chunk_views(all@)),
{
    let mut res: Vec<CodeChunk> = Vec::new();
    let mut i: usize = 0;
    while i < all.len()
        invariant
            i <= all@.len(),
            chunk_views(res@) == fuse(chunk_views(all@).take(i as int)),
        decreases all@.len() - i,
    {
        let ghost pre = chunk_views(all@).take(i as int);
        let ghost next = chunk_views(all@).take(i + 1);
        assert(next.drop_last() =~= pre);
        assert(next.last() == all@[i as int]@);
        if !has_chunk_id(&res, &all[i].id) {
            let ghost old_res = res@;
            res.push(all[i].duplicate());
            assert(chunk_views(res@) =~= chunk_views(old_res).push(all@[i as int]@));
        }
        i += 1;
    }
    assert(chunk_views(all@).take(all@.len() as int) =~= chunk_views(all@));
    res
}

/// The positions at which chunks with identifier `id` stand in `list`.
pub fn ranks_of(list: &Vec<CodeChunk>, id: &String) -> (res: Vec<usize>)
    ensures
        res@ == ranks_in(chunk_views(list@), id@),
{
    let mut res: Vec<usize> = Vec::new();
    let mut i: usize = 0;
    while i < list.len()
        invariant
            i <= list@.len(),
            res@ == ranks_in(chunk_views(list@).take(i as int), id@),
        decreases list@.len() - i,
    {
        let ghost next = chunk_views(list@).take(i + 1);
        assert(next.drop_last() =~= chunk_views(list@).take(i as int));
        assert(next.last() == list@[i as int]@);
        if list[i].id == *id {
            res.push(i);
        }
        i += 1;
    }
    assert(chunk_views(list@).take(list@.len() as int) =~= chunk_views(list@));
    res
}

/// The chunks that the search keeps.
pub fn keep_chunks(cs: Vec<CodeChunk>, include_tests: bool) -> (res: Vec<CodeChunk>)
    ensures
        chunk_views(res@) == keep(chunk_views(cs@), include_tests),
{
    let mut res: Vec<CodeChunk> = Vec::new();
    let mut i: usize = 0;
    while i < cs.len()
        invariant
            i <= cs@.len(),
            chunk_views(res@) == keep(chunk_views(cs@).take(i as int), include_tests),
        decreases cs@.len() - i,
    {
        let ghost next = chunk_views(cs@).take(i + 1);
        assert(next.drop_last() =~= chunk_views(cs@).take(i as int));
        assert(next.last() == cs@[i as int]@);
        if include_tests || !is_excluded_path(&cs[i].file_path) {
            let ghost old_res = res@;
            res.push(cs[i].duplicate());
            assert(chunk_views(res@) =~= chunk_views(old_res).push(cs@[i as int]@));
        }
        i += 1;
    }
    assert(chunk_views(cs@).take(cs@.len() as int) =~= chunk_views(cs@));
    res
}

/// The ranker.
pub struct Ranker;

/// One fused candidate: its chunk, the positions at which it stood in the
/// lexical and the semantic result lists, and its score adjustments in the
/// order in which they apply.
#[derive(Debug)]
pub struct RankPlan {
    pub chunk: CodeChunk,
    pub lexical_ranks: Vec<usize>,
    pub semantic_ranks: Vec<usize>,
    pub adjustments: Vec<Adjustment>,
}

/// The contents of a plan as plain values.
pub struct PlanView {
    pub chunk: ChunkView,
    pub lexical_ranks: Seq<usize>,
    pub semantic_ranks: Seq<usize>,
    pub adjustments: Seq<Adjustment>,
}

impl View for RankPlan {
    type V = PlanView;

    open spec fn view(&self) -> PlanView {
        PlanView {
            chunk: self.chunk@,
            lexical_ranks: self.lexical_ranks@,
            semantic_ranks: self.semantic_ranks@,
            adjustments: self.adjustments@,
        }
    }
}

/// The views of a sequence of plans.
pub open spec fn plan_views(v: Seq<RankPlan>) -> Seq<PlanView> {
    v.map_values(|p: RankPlan| p@)
}

/// `p` with `extra` appended to its adjustments.
pub open spec fn with_adjustments(p: PlanView, extra: Seq<Adjustment>) -> PlanView {
    PlanView { adjustments: p.adjustments + extra, ..p }
}

/// The single adjustment `a` when `b` holds, else none.
pub open spec fn when(b: bool, a: Adjustment) -> Seq<Adjustment> {
    if b {
        seq![a]
    } else {
        seq![]
    }
}

/// The noise penalty of a chunk, if its path falls in a noise tier.
pub open spec fn noise_part(c: ChunkView) -> Seq<Adjustment> {
    match noise_tier_of(c.file_path) {
        Some(t) => seq![Adjustment::Noise(t)],
        None => seq![],
    }
}

/// The definition boost of a chunk for a query.
pub open spec fn definition_part(query: Seq<char>, c: ChunkView) -> Seq<Adjustment> {
    when(defines_query(c.symbols_defined, query), Adjustment::Definition)
}

/// The identifier boost of a chunk for a query.
pub open spec fn identifier_part(query: Seq<char>, c: ChunkView) -> Seq<Adjustment> {
    when(names_query_token(c.symbols_defined, query), Adjustment::Identifier)
}

/// The concept boost of a chunk for a query.
pub open spec fn concept_part(query: Seq<char>, c: ChunkView) -> Seq<Adjustment> {
    when(names_query_token(c.symbols_defined, query), Adjustment::Concept)
}

/// The boilerplate penalty of a chunk.
pub open spec fn generic_part(c: ChunkView) -> Seq<Adjustment> {
    when(has_generic_symbol(c.symbols_defined), Adjustment::GenericSymbol)
}

/// The intents for which the concept, service and boilerplate heuristics apply.
pub open spec fn broad_intent(intent: QueryIntent) -> bool {
    intent == QueryIntent::Semantic || intent == QueryIntent::Flow || intent == QueryIntent::Architecture
}

/// One service boost per symbol whose name suggests a service.
pub open spec fn service_part(c: ChunkView) -> Seq<Adjustment> {
    Seq::new(service_count(c.symbols_defined), |_i: int| Adjustment::Intent)
}

/// The adjustments that depend on a broad intent.
pub open spec fn intent_part(c: ChunkView, query: Seq<char>, intent: QueryIntent) -> Seq<Adjustment> {
    if broad_intent(intent) {
        concept_part(query, c) + service_part(c) + generic_part(c)
    } else {
        seq![]
    }
}

/// The number of chunks of `cs` in the file `path`.
pub open spec fn path_count(cs: Seq<ChunkView>, path: Seq<char>) -> nat
    decreases cs.len(),
{
    if cs.len() == 0 {
        0
    } else {
        path_count(cs.drop_last(), path) + if cs.last().file_path == path {
            1nat
        } else {
            0nat
        }
    }
}

/// The file coherence boost of a chunk among the candidates `cs`.
pub open spec fn coherence_part(c: ChunkView, cs: Seq<ChunkView>) -> Seq<Adjustment> {
    if path_count(cs, c.file_path) > 1 {
        seq![Adjustment::FileCoherence(path_count(cs, c.file_path) as usize)]
    } else {
        seq![]
    }
}

/// All adjustments of a candidate `c` among the candidates `cs`, in order.
pub open spec fn planned_adjustments(
    c: ChunkView,
    cs: Seq<ChunkView>,
    query: Seq<char>,
    intent: QueryIntent,
) -> Seq<Adjustment> {
    noise_part(c) + definition_part(query, c) + identifier_part(query, c) + intent_part(c, query, intent)
        + coherence_part(c, cs)
}

/// The plan of a search: one entry per candidate, in candidate order.
pub open spec fn planned(
    query: Seq<char>,
    intent: QueryIntent,
    lexical: Seq<ChunkView>,
    semantic: Seq<ChunkView>,
    include_tests: bool,
) -> Seq<PlanView> {
    let cs = candidates(lexical, semantic, include_tests);
    Seq::new(
        cs.len(),
        |k: int|
            PlanView {
                chunk: cs[k],
                lexical_ranks: ranks_in(lexical, cs[k].id),
                semantic_ranks: ranks_in(semantic, cs[k].id),
                adjustments: planned_adjustments(cs[k], cs, query, intent),
            },
    )
}

/// Appends to each plan's adjustments its noise penalty.
fn apply_noise_suppression(plans: &mut Vec<RankPlan>)
    ensures
        final(plans)@.len() == old(plans)@.len(),
        forall|k: int|
            0 <= k < old(plans)@.len() ==> #[trigger] final(plans)@[k]@ == with_adjustments(
                old(plans)@[k]@,
                noise_part(old(plans)@[k]@.chunk),
            ),
{
    let ghost start = plans@;
    let mut i: usize = 0;
    while i < plans.len()
        invariant
            plans@.len() == start.len(),
            i <= start.len(),
            forall|k: int| 0 <= k < i ==> #[trigger] plans@[k]@ == with_adjustments(start[k]@, noise_part(start[k]@.chunk)),
            forall|k: int| i <= k < start.len() ==> #[trigger] plans@[k] == start[k],
        decreases start.len() - i,
    {
        let tier = noise_tier(&plans[i].chunk.file_path);
        match tier {
            Some(t) => {
                plans[i].adjustments.push(Adjustment::Noise(t));
            },
            None => {},
        }
        assert(plans@[i as int]@.adjustments =~= start[i as int]@.adjustments + noise_part(start[i as int]@.chunk));
        i += 1;
    }
}

/// Appends to each plan's adjustments a definition boost when one of its symbols is what the query names.
fn apply_definition_boost(plans: &mut Vec<RankPlan>, query: &str)
    ensures
        final(plans)@.len() == old(plans)@.len(),
        forall|k: int|
            0 <= k < old(plans)@.len() ==> #[trigger] final(plans)@[k]@ == with_adjustments(
                old(plans)@[k]@,
                definition_part(query@, old(plans)@[k]@.chunk),
            ),
{
    let ghost start = plans@;
    let mut i: usize = 0;
    while i < plans.len()
        invariant
            plans@.len() == start.len(),
            i <= start.len(),
            forall|k: int| 0 <= k < i ==> #[trigger] plans@[k]@ == with_adjustments(start[k]@, definition_part(query@, start[k]@.chunk)),
            forall|k: int| i <= k < start.len() ==> #[trigger] plans@[k] == start[k],
        decreases start.len() - i,
    {
        if is_definition_of_query(&plans[i].chunk, query) {
            plans[i].adjustments.push(Adjustment::Definition);
        }
        assert(plans@[i as int]@.adjustments =~= start[i as int]@.adjustments + definition_part(query@, start[i as int]@.chunk));
        i += 1;
    }
}

/// Appends `adj` to the adjustments of each plan one of whose symbol
/// names contains a token of the query.
fn apply_token_match(plans: &mut Vec<RankPlan>, query: &str, adj: Adjustment)
    ensures
        final(plans)@.len() == old(plans)@.len(),
        forall|k: int|
            0 <= k < old(plans)@.len() ==> #[trigger] final(plans)@[k]@ == with_adjustments(
                old(plans)@[k]@,
                when(names_query_token(old(plans)@[k]@.chunk.symbols_defined, query@), adj),
            ),
{
    let ghost start = plans@;
    let tokens = lowered_query_tokens(query);
    let mut i: usize = 0;
    while i < plans.len()
        invariant
            plans@.len() == start.len(),
            i <= start.len(),
            tokens@.len() == lowered_tokens(query@).len(),
            forall|k: int| 0 <= k < tokens@.len() ==> #[trigger] tokens@[k]@ == lowered_tokens(query@)[k],
            forall|k: int|
                0 <= k < i ==> #[trigger] plans@[k]@ == with_adjustments(
                    start[k]@,
                    when(names_query_token(start[k]@.chunk.symbols_defined, query@), adj),
                ),
            forall|k: int| i <= k < start.len() ==> #[trigger] plans@[k] == start[k],
        decreases start.len() - i,
    {
        if names_any_token(&plans[i].chunk, &tokens, Ghost(query@)) {
            plans[i].adjustments.push(adj);
        }
        assert(plans@[i as int]@.adjustments =~= start[i as int]@.adjustments + when(
            names_query_token(start[i as int]@.chunk.symbols_defined, query@),
            adj,
        ));
        i += 1;
    }
}

/// Appends to each plan's adjustments an identifier boost when one of its symbol names contains a query token.
fn apply_identifier_boost(plans: &mut Vec<RankPlan>, query: &str)
    ensures
        final(plans)@.len() == old(plans)@.len(),
        forall|k: int|
            0 <= k < old(plans)@.len() ==> #[trigger] final(plans)@[k]@ == with_adjustments(
                old(plans)@[k]@,
                identifier_part(query@, old(plans)@[k]@.chunk),
            ),
{
    apply_token_match(plans, query, Adjustment::Identifier);
}

/// Appends to each plan's adjustments a concept boost when one of its symbol names contains a query token.
fn apply_concept_boost(plans: &mut Vec<RankPlan>, query: &str)
    ensures
        final(plans)@.len() == old(plans)@.len(),
        forall|k: int|
            0 <= k < old(plans)@.len() ==> #[trigger] final(plans)@[k]@ == with_adjustments(
                old(plans)@[k]@,
                concept_part(query@, old(plans)@[k]@.chunk),
            ),
{
    apply_token_match(plans, query, Adjustment::Concept);
}

/// Appends to each plan's adjustments a boilerplate penalty when one of its symbols has a boilerplate name.
fn apply_generic_symbol_penalty(plans: &mut Vec<RankPlan>)
    ensures
        final(plans)@.len() == old(plans)@.len(),
        forall|k: int|
            0 <= k < old(plans)@.len() ==> #[trigger] final(plans)@[k]@ == with_adjustments(
                old(plans)@[k]@,
                generic_part(old(plans)@[k]@.chunk),
            ),
{
    let ghost start = plans@;
    let mut i: usize = 0;
    while i < plans.len()
        invariant
            plans@.len() == start.len(),
            i <= start.len(),
            forall|k: int| 0 <= k < i ==> #[trigger] plans@[k]@ == with_adjustments(start[k]@, generic_part(start[k]@.chunk)),
            forall|k: int| i <= k < start.len() ==> #[trigger] plans@[k] == start[k],
        decreases start.len() - i,
    {
        if has_generic_symbol_exec(&plans[i].chunk) {
            plans[i].adjustments.push(Adjustment::GenericSymbol);
        }
        assert(plans@[i as int]@.adjustments =~= start[i as int]@.adjustments + generic_part(start[i as int]@.chunk));
        i += 1;
    }
}

/// Appends to each plan's adjustments one service boost per symbol whose name suggests a service.
fn apply_intent_boost(plans: &mut Vec<RankPlan>)
    ensures
        final(plans)@.len() == old(plans)@.len(),
        forall|k: int|
            0 <= k < old(plans)@.len() ==> #[trigger] final(plans)@[k]@ == with_adjustments(
                old(plans)@[k]@,
                service_part(old(plans)@[k]@.chunk),
            ),
{
    let ghost start = plans@;
    let mut i: usize = 0;
    while i < plans.len()
        invariant
            plans@.len() == start.len(),
            i <= start.len(),
            forall|k: int| 0 <= k < i ==> #[trigger] plans@[k]@ == with_adjustments(start[k]@, service_part(start[k]@.chunk)),
            forall|k: int| i <= k < start.len() ==> #[trigger] plans@[k] == start[k],
        decreases start.len() - i,
    {
        let count = count_service_symbols(&plans[i].chunk);
        let ghost before = plans@[i as int]@.adjustments;
        let mut j: usize = 0;
        while j < count
            invariant
                plans@.len() == start.len(),
                i < start.len(),
                j <= count,
                count == service_count(start[i as int]@.chunk.symbols_defined),
                plans@[i as int]@.chunk == start[i as int]@.chunk,
                plans@[i as int]@.lexical_ranks == start[i as int]@.lexical_ranks,
                plans@[i as int]@.semantic_ranks == start[i as int]@.semantic_ranks,
                before == start[i as int]@.adjustments,
                plans@[i as int]@.adjustments == before + Seq::new(j as nat, |_x: int| Adjustment::Intent),
                forall|k: int| 0 <= k < i ==> #[trigger] plans@[k]@ == with_adjustments(start[k]@, service_part(start[k]@.chunk)),
                forall|k: int| i < k < start.len() ==> #[trigger] plans@[k] == start[k],
            decreases count - j,
        {
            plans[i].adjustments.push(Adjustment::Intent);
            assert(plans@[i as int]@.adjustments =~= before + Seq::new((j + 1) as nat, |_x: int| Adjustment::Intent));
            j += 1;
        }
        assert(plans@[i as int]@.adjustments =~= start[i as int]@.adjustments + service_part(start[i as int]@.chunk));
        i += 1;
    }
}

/// The chunks of a sequence of plans.
pub open spec fn plan_chunks(v: Seq<RankPlan>) -> Seq<ChunkView> {
    v.map_values(|p: RankPlan| p.chunk@)
}

/// The number of plans whose chunk lies in the file `path`.
fn count_in_file(plans: &Vec<RankPlan>, path: &String) -> (res: usize)
    ensures
        res == path_count(plan_chunks(plans@), path@),
{
    let mut count: usize = 0;
    let mut i: usize = 0;
    while i < plans.len()
        invariant
            i <= plans@.len(),
            count == path_count(plan_chunks(plans@).take(i as int), path@),
            count <= i,
        decreases plans@.len() - i,
    {
        let ghost next = plan_chunks(plans@).take(i + 1);
        assert(next.drop_last() =~= plan_chunks(plans@).take(i as int));
        assert(next.last() == plans@[i as int].chunk@);
        if plans[i].chunk.file_path == *path {
            count += 1;
        }
        i += 1;
    }
    assert(plan_chunks(plans@).take(plans@.len() as int) =~= plan_chunks(plans@));
    count
}

/// Appends to each plan's adjustments a coherence boost when other plans
/// share its file.
fn apply_file_coherence_boost(plans: &mut Vec<RankPlan>)
    ensures
        final(plans)@.len() == old(plans)@.len(),
        forall|k: int|
            0 <= k < old(plans)@.len() ==> #[trigger] final(plans)@[k]@ == with_adjustments(
                old(plans)@[k]@,
                coherence_part(old(plans)@[k]@.chunk, plan_chunks(old(plans)@)),
            ),
{
    let ghost start = plans@;
    let mut counts: Vec<usize> = Vec::new();
    let mut i: usize = 0;
    while i < plans.len()
        invariant
            plans@ == start,
            i <= start.len(),
            counts@.len() == i,
            forall|k: int| 0 <= k < i ==> #[trigger] counts@[k] == path_count(plan_chunks(start), start[k].chunk@.file_path),
        decreases start.len() - i,
    {
        let c = count_in_file(&plans, &plans[i].chunk.file_path);
        counts.push(c);
        i += 1;
    }
    i = 0;
    while i < plans.len()
        invariant
            plans@.len() == start.len(),
            i <= start.len(),
            counts@.len() == start.len(),
            forall|k: int| 0 <= k < start.len() ==> #[trigger] counts@[k] == path_count(plan_chunks(start), start[k].chunk@.file_path),
            forall|k: int| 0 <= k < i ==> #[trigger] plans@[k]@ == with_adjustments(start[k]@, coherence_part(start[k]@.chunk, plan_chunks(start))),
            forall|k: int| i <= k < start.len() ==> #[trigger] plans@[k] == start[k],
        decreases start.len() - i,
    {
        let count = counts[i];
        if count > 1 {
            plans[i].adjustments.push(Adjustment::FileCoherence(count));
        }
        assert(plans@[i as int]@.adjustments =~= start[i as int]@.adjustments + coherence_part(start[i as int]@.chunk, plan_chunks(start)));
        i += 1;
    }
}

impl Ranker {
    /// Fuses the lexical and the semantic results of a search and plans the
    /// scoring of every candidate: which retrieval ranks feed its fused score
    /// and which adjustments apply to it, in order.  Unless tests are asked
    /// for, candidates in vendored, generated, mock, test, fixture or example
    /// paths are left out.
    pub fn plan(
        query: &str,
        query_intent: QueryIntent,
        lexical_results: Vec<CodeChunk>,
        semantic_results: Vec<CodeChunk>,
        include_tests: bool,
    ) -> (res: Vec<RankPlan>)
        ensures
            plan_views(res@) == planned(
                query@,
                query_intent,
                chunk_views(lexical_results@),
                chunk_views(semantic_results@),
                include_tests,
            ),
    {
        let ghost lv = chunk_views(lexical_results@);
        let ghost sv = chunk_views(semantic_results@);
        let mut all: Vec<CodeChunk> = Vec::new();
        let mut i: usize = 0;
        while i < lexical_results.len()
            invariant
                i <= lexical_results@.len(),
                chunk_views(all@) == lv.take(i as int),
                all@.len() == i,
                lv == chunk_views(lexical_results@),
            decreases lexical_results@.len() - i,
        {
            let ghost prev = all@;
            let d = lexical_results[i].duplicate();
            assert(d@ == lv[i as int]);
            all.push(d);
            assert forall|m: int| 0 <= m <= i implies #[trigger] chunk_views(all@)[m] == lv.take(i + 1)[m] by {
                if m < i {
                    assert(all@[m] == prev[m]);
                    assert(chunk_views(prev)[m] == lv.take(i as int)[m]);
                }
            }
            assert(chunk_views(all@) =~= lv.take(i + 1));
            i += 1;
        }
        let mut j: usize = 0;
        while j < semantic_results.len()
            invariant
                j <= semantic_results@.len(),
                chunk_views(all@) == lv + sv.take(j as int),
                all@.len() == lv.len() + j,
                lv == chunk_views(lexical_results@),
                sv == chunk_views(semantic_results@),
            decreases semantic_results@.len() - j,
        {
            let ghost prev = all@;
            let d = semantic_results[j].duplicate();
            assert(d@ == sv[j as int]);
            all.push(d);
            assert forall|m: int| 0 <= m < all@.len() implies #[trigger] chunk_views(all@)[m] == (lv + sv.take(j + 1))[m] by {
                if m < prev.len() {
                    assert(all@[m] == prev[m]);
                    assert(chunk_views(prev)[m] == (lv + sv.take(j as int))[m]);
                }
            }
            assert(chunk_views(all@) =~= lv + sv.take(j + 1));
            j += 1;
        }
        assert(lv.take(lv.len() as int) =~= lv);
        assert(sv.take(sv.len() as int) =~= sv);
        let fused = fuse_chunks(&all);
        let kept = keep_chunks(fused, include_tests);
        let ghost cs = candidates(lv, sv, include_tests);
        assert(chunk_views(kept@) == cs);
        let mut plans: Vec<RankPlan> = Vec::new();
        let mut k: usize = 0;
        while k < kept.len()
            invariant
                k <= kept@.len(),
                chunk_views(kept@) == cs,
                lv == chunk_views(lexical_results@),
                sv == chunk_views(semantic_results@),
                plans@.len() == k,
                forall|m: int|
                    0 <= m < k ==> #[trigger] plans@[m]@ == (PlanView {
                        chunk: cs[m],
                        lexical_ranks: ranks_in(lv, cs[m].id),
                        semantic_ranks: ranks_in(sv, cs[m].id),
                        adjustments: seq![],
                    }),
            decreases kept@.len() - k,
        {
            assert(cs[k as int] == kept@[k as int]@);
            let lr = ranks_of(&lexical_results, &kept[k].id);
            let sr = ranks_of(&semantic_results, &kept[k].id);
            let p = RankPlan {
                chunk: kept[k].duplicate(),
                lexical_ranks: lr,
                semantic_ranks: sr,
                adjustments: Vec::new(),
            };
            plans.push(p);
            k += 1;
        }
        let ghost p0 = plans@;
        assert forall|m: int| 0 <= m < p0.len() implies #[trigger] plan_chunks(p0)[m] == cs[m] by {
            assert(p0[m]@.chunk == cs[m]);
        }
        assert(plan_chunks(p0) =~= cs);
        apply_noise_suppression(&mut plans);
        let ghost p1 = plans@;
        apply_definition_boost(&mut plans, query);
        let ghost p2 = plans@;
        apply_identifier_boost(&mut plans, query);
        let ghost p3 = plans@;
        match query_intent {
            QueryIntent::Semantic | QueryIntent::Flow | QueryIntent::Architecture => {
                apply_concept_boost(&mut plans, query);
                apply_intent_boost(&mut plans);
                apply_generic_symbol_penalty(&mut plans);
            },
            _ => {},
        }
        let ghost p4 = plans@;
        assert forall|m: int| 0 <= m < p4.len() implies #[trigger] p4[m]@ == with_adjustments(
            p3[m]@,
            intent_part(p3[m]@.chunk, query@, query_intent),
        ) by {
            if broad_intent(query_intent) {
                assert(p4[m]@.adjustments =~= p3[m]@.adjustments + intent_part(p3[m]@.chunk, query@, query_intent));
            } else {
                assert(p4[m]@.adjustments =~= p3[m]@.adjustments + intent_part(p3[m]@.chunk, query@, query_intent));
            }
        }
        assert forall|m: int| 0 <= m < p4.len() implies #[trigger] plan_chunks(p4)[m] == cs[m] by {
            assert(p4[m]@.chunk == p3[m]@.chunk);
            assert(p3[m]@.chunk == p2[m]@.chunk);
            assert(p2[m]@.chunk == p1[m]@.chunk);
            assert(p1[m]@.chunk == p0[m]@.chunk);
            assert(p0[m]@.chunk == cs[m]);
        }
        assert(plan_chunks(p4) =~= cs);
        apply_file_coherence_boost(&mut plans);
        let ghost want = planned(query@, query_intent, lv, sv, include_tests);
        assert forall|m: int| 0 <= m < plans@.len() implies #[trigger] plan_views(plans@)[m] == want[m] by {
            assert(plans@[m]@.adjustments =~= planned_adjustments(cs[m], cs, query@, query_intent));
        }
        assert(plan_views(plans@) =~= want);
        plans
    }
}

/// The reasons reported for a planned candidate: the retrieval lists it came
/// from, then the reason of each adjustment in order.
pub open spec fn plan_reasons(p: PlanView) -> Seq<Seq<char>> {
    (if p.lexical_ranks.len() > 0 {
        seq!["Lexical match"@]
    } else {
        seq![]
    }) + (if p.semantic_ranks.len() > 0 {
        seq!["Semantic match"@]
    } else {
        seq![]
    }) + p.adjustments.map_values(|a: Adjustment| adjustment_reason(a))
}

/// The symbol identifier under which a chunk is reported: its first defined
/// symbol, or `file:` followed by its path when it defines none.
pub open spec fn display_id(c: ChunkView) -> Seq<char> {
    if c.symbols_defined.len() > 0 {
        c.symbols_defined[0]
    } else {
        "file:"@ + c.file_path
    }
}

/// The symbol identifier under which a chunk is reported.
pub fn display_symbol_id(chunk: &CodeChunk) -> (res: String)
    ensures
        res@ == display_id(chunk@),
{
    if chunk.symbols_defined.len() > 0 {
        chunk.symbols_defined[0].clone()
    } else {
        let mut s = text_of("file:");
        s.append(chunk.file_path.as_str());
        s
    }
}

impl RankPlan {
    /// The reasons reported for this candidate.
    pub fn reasons(&self) -> (res: Vec<String>)
        ensures
            crate::protocol::string_views(res@) == plan_reasons(self@),
    {
        let mut res: Vec<String> = Vec::new();
        if self.lexical_ranks.len() > 0 {
            res.push(text_of("Lexical match"));
        }
        if self.semantic_ranks.len() > 0 {
            res.push(text_of("Semantic match"));
        }
        let ghost base = crate::protocol::string_views(res@);
        let mut i: usize = 0;
        while i < self.adjustments.len()
            invariant
                i <= self.adjustments@.len(),
                res@.len() == base.len() + i,
                crate::protocol::string_views(res@) == base + self.adjustments@.take(i as int).map_values(
                    |a: Adjustment| adjustment_reason(a),
                ),
            decreases self.adjustments@.len() - i,
        {
            let ghost prev = res@;
            res.push(self.adjustments[i].reason());
            assert(crate::protocol::string_views(res@) =~= crate::protocol::string_views(prev).push(
                adjustment_reason(self.adjustments@[i as int]),
            ));
            assert(self.adjustments@.take(i + 1).map_values(|a: Adjustment| adjustment_reason(a))
                =~= self.adjustments@.take(i as int).map_values(|a: Adjustment| adjustment_reason(a)).push(
                adjustment_reason(self.adjustments@[i as int]),
            ));
            i += 1;
        }
        assert(self.adjustments@.take(self.adjustments@.len() as int) =~= self.adjustments@);
        res
    }

    /// The symbol identifier under which this candidate is reported.
    pub fn symbol_id(&self) -> (res: String)
        ensures
            res@ == display_id(self@.chunk),
    {
        display_symbol_id(&self.chunk)
    }
}

/// Every chunk of `keep(cs, t)` is a chunk of `cs`, and the kept chunks
/// stand in the order of `cs`.
proof fn lemma_keep_sub(cs: Seq<ChunkView>, include_tests: bool)
    ensures
        keep(cs, include_tests).len() <= cs.len(),
        forall|k: int|
            0 <= k < keep(cs, include_tests).len() ==> exists|j: int|
                0 <= j < cs.len() && #[trigger] keep(cs, include_tests)[k] == cs[j],
    decreases cs.len(),
{
    if cs.len() > 0 {
        lemma_keep_sub(cs.drop_last(), include_tests);
        let k0 = keep(cs.drop_last(), include_tests);
        assert forall|k: int| 0 <= k < keep(cs, include_tests).len() implies exists|j: int|
            0 <= j < cs.len() && #[trigger] keep(cs, include_tests)[k] == cs[j] by {
            if k < k0.len() {
                let j = choose|j: int| 0 <= j < cs.drop_last().len() && #[trigger] k0[k] == cs.drop_last()[j];
                assert(keep(cs, include_tests)[k] == cs[j]);
            } else {
                assert(keep(cs, include_tests)[k] == cs[cs.len() - 1]);
            }
        }
    }
}

/// Chunks with distinct identifiers stay distinct when some are left out.
proof fn lemma_keep_distinct(cs: Seq<ChunkView>, include_tests: bool)
    requires
        forall|i: int, j: int| 0 <= i < j < cs.len() ==> (#[trigger] cs[i]).id != (#[trigger] cs[j]).id,
    ensures
        forall|i: int, j: int|
            0 <= i < j < keep(cs, include_tests).len() ==> (#[trigger] keep(cs, include_tests)[i]).id != (
            #[trigger] keep(cs, include_tests)[j]).id,
    decreases cs.len(),
{
    if cs.len() > 0 {
        let d = cs.drop_last();
        assert forall|i: int, j: int| 0 <= i < j < d.len() implies (#[trigger] d[i]).id != (#[trigger] d[j]).id by {
            assert(d[i] == cs[i] && d[j] == cs[j]);
        }
        lemma_keep_distinct(d, include_tests);
        lemma_keep_sub(d, include_tests);
        let k0 = keep(d, include_tests);
        let kk = keep(cs, include_tests);
        assert forall|i: int, j: int| 0 <= i < j < kk.len() implies (#[trigger] kk[i]).id != (#[trigger] kk[j]).id by {
            if j >= k0.len() {
                let m = choose|m: int| 0 <= m < d.len() && #[trigger] k0[i] == d[m];
                assert(kk[i] == cs[m]);
                assert(kk[j] == cs[cs.len() - 1]);
            } else {
                assert(kk[i] == k0[i] && kk[j] == k0[j]);
            }
        }
    }
}

/// The fused chunks have distinct identifiers, each fused chunk is a given
/// chunk, and every given identifier is fused.
proof fn lemma_fuse(all: Seq<ChunkView>)
    ensures
        forall|i: int, j: int| 0 <= i < j < fuse(all).len() ==> (#[trigger] fuse(all)[i]).id != (#[trigger] fuse(all)[j]).id,
        forall|k: int| 0 <= k < fuse(all).len() ==> exists|j: int| 0 <= j < all.len() && #[trigger] fuse(all)[k] == all[j],
        forall|j: int| 0 <= j < all.len() ==> has_id(fuse(all), (#[trigger] all[j]).id),
    decreases all.len(),
{
    if all.len() > 0 {
        let d = all.drop_last();
        lemma_fuse(d);
        let f0 = fuse(d);
        let f = fuse(all);
        assert forall|i: int, j: int| 0 <= i < j < f.len() implies (#[trigger] f[i]).id != (#[trigger] f[j]).id by {
            if j >= f0.len() {
                assert(f[j] == all.last());
                assert(f[i] == f0[i]);
            } else {
                assert(f[i] == f0[i] && f[j] == f0[j]);
            }
        }
        assert forall|k: int| 0 <= k < f.len() implies exists|j: int| 0 <= j < all.len() && #[trigger] f[k] == all[j] by {
            if k < f0.len() {
                let j = choose|j: int| 0 <= j < d.len() && #[trigger] f0[k] == d[j];
                assert(f[k] == all[j]);
            } else {
                assert(f[k] == all[all.len() - 1]);
            }
        }
        assert forall|j: int| 0 <= j < all.len() implies has_id(f, (#[trigger] all[j]).id) by {
            if j < d.len() {
                assert(all[j] == d[j]);
                let m = choose|m: int| 0 <= m < f0.len() && (#[trigger] f0[m]).id == d[j].id;
                assert(f[m] == f0[m]);
            } else if !has_id(f0, all.last().id) {
                assert(f[f0.len() as int] == all.last());
            } else {
                let m = choose|m: int| 0 <= m < f0.len() && (#[trigger] f0[m]).id == all.last().id;
                assert(f[m] == f0[m]);
            }
        }
    }
}

/// The positions found for an identifier are exactly the positions of the
/// list at which a chunk with that identifier stands, in increasing order.
pub proof fn law_ranks_are_positions(list: Seq<ChunkView>, id: Seq<char>)
    requires
        list.len() <= usize::MAX,
    ensures
        forall|r: int| 0 <= r < ranks_in(list, id).len() ==> (#[trigger] ranks_in(list, id)[r]) < list.len()
            && list[ranks_in(list, id)[r] as int].id == id,
        forall|r: int, q: int| 0 <= r < q < ranks_in(list, id).len() ==> (#[trigger] ranks_in(list, id)[r]) < (
        #[trigger] ranks_in(list, id)[q]),
        forall|j: int| 0 <= j < list.len() && (#[trigger] list[j]).id == id ==> ranks_in(list, id).contains(j as usize),
    decreases list.len(),
{
    if list.len() > 0 {
        let d = list.drop_last();
        law_ranks_are_positions(d, id);
        let r0 = ranks_in(d, id);
        let r = ranks_in(list, id);
        assert forall|x: int| 0 <= x < r.len() implies (#[trigger] r[x]) < list.len() && list[r[x] as int].id == id by {
            if x < r0.len() {
                assert(r[x] == r0[x]);
                assert(list[r0[x] as int] == d[r0[x] as int]);
            } else {
                assert(list.last().id == id);
                assert(r[x] == (list.len() - 1) as usize);
            }
        }
        assert forall|x: int, q: int| 0 <= x < q < r.len() implies (#[trigger] r[x]) < (#[trigger] r[q]) by {
            if q >= r0.len() {
                assert(r[x] == r0[x]);
                assert(r[q] == (list.len() - 1) as usize);
                assert(r0[x] < d.len());
            } else {
                assert(r[x] == r0[x] && r[q] == r0[q]);
            }
        }
        assert forall|j: int| 0 <= j < list.len() && (#[trigger] list[j]).id == id implies r.contains(j as usize) by {
            if j < d.len() {
                assert(d[j] == list[j]);
                let x = choose|x: int| 0 <= x < r0.len() && r0[x] == j as usize;
                assert(r[x] == r0[x]);
            } else {
                assert(r[r.len() - 1] == j as usize);
            }
        }
    }
}

/// No candidate is scored twice: the candidates of a search have distinct
/// identifiers.
pub proof fn law_candidates_distinct(lexical: Seq<ChunkView>, semantic: Seq<ChunkView>, include_tests: bool)
    ensures
        forall|i: int, j: int|
            0 <= i < j < candidates(lexical, semantic, include_tests).len() ==> (#[trigger] candidates(
                lexical,
                semantic,
                include_tests,
            )[i]).id != (#[trigger] candidates(lexical, semantic, include_tests)[j]).id,
{
    lemma_fuse(lexical + semantic);
    lemma_keep_distinct(fuse(lexical + semantic), include_tests);
}

/// Unless tests are asked for, no candidate lies in vendored, generated,
/// mock, test, fixture or example code.
pub proof fn law_candidates_skip_noise(lexical: Seq<ChunkView>, semantic: Seq<ChunkView>)
    ensures
        forall|k: int|
            0 <= k < candidates(lexical, semantic, false).len() ==> !excluded_path(
                (#[trigger] candidates(lexical, semantic, false)[k]).file_path,
            ),
{
    lemma_keep_filters(fuse(lexical + semantic));
}

proof fn lemma_keep_filters(cs: Seq<ChunkView>)
    ensures
        forall|k: int| 0 <= k < keep(cs, false).len() ==> !excluded_path((#[trigger] keep(cs, false)[k]).file_path),
    decreases cs.len(),
{
    if cs.len() > 0 {
        lemma_keep_filters(cs.drop_last());
        let k0 = keep(cs.drop_last(), false);
        assert forall|k: int| 0 <= k < keep(cs, false).len() implies !excluded_path((#[trigger] keep(cs, false)[k]).file_path) by {
            if k < k0.len() {
                assert(keep(cs, false)[k] == k0[k]);
            }
        }
    }
}

/// Every candidate was retrieved: it stands in the lexical or in the
/// semantic results, so its reasons name at least one retrieval.
pub proof fn law_candidates_were_retrieved(lexical: Seq<ChunkView>, semantic: Seq<ChunkView>, include_tests: bool)
    requires
        lexical.len() <= usize::MAX,
        semantic.len() <= usize::MAX,
    ensures
        forall|k: int|
            0 <= k < candidates(lexical, semantic, include_tests).len() ==> ranks_in(
                lexical,
                (#[trigger] candidates(lexical, semantic, include_tests)[k]).id,
            ).len() > 0 || ranks_in(semantic, candidates(lexical, semantic, include_tests)[k].id).len() > 0,
{
    let all = lexical + semantic;
    let cs = candidates(lexical, semantic, include_tests);
    lemma_fuse(all);
    lemma_keep_sub(fuse(all), include_tests);
    assert forall|k: int| 0 <= k < cs.len() implies ranks_in(lexical, (#[trigger] cs[k]).id).len() > 0 || ranks_in(
        semantic,
        cs[k].id,
    ).len() > 0 by {
        let m = choose|m: int| 0 <= m < fuse(all).len() && #[trigger] cs[k] == fuse(all)[m];
        let j = choose|j: int| 0 <= j < all.len() && #[trigger] fuse(all)[m] == all[j];
        if j < lexical.len() {
            assert(all[j] == lexical[j]);
            law_ranks_are_positions(lexical, cs[k].id);
        } else {
            assert(all[j] == semantic[j - lexical.len()]);
            law_ranks_are_positions(semantic, cs[k].id);
        }
    }
}

/// When tests are asked for, nothing retrieved is lost: every retrieved
/// chunk's identifier is a candidate's.
pub proof fn law_candidates_complete(lexical: Seq<ChunkView>, semantic: Seq<ChunkView>)
    ensures
        forall|j: int| 0 <= j < lexical.len() ==> has_id(candidates(lexical, semantic, true), (#[trigger] lexical[j]).id),
        forall|j: int| 0 <= j < semantic.len() ==> has_id(candidates(lexical, semantic, true), (#[trigger] semantic[j]).id),
{
    let all = lexical + semantic;
    lemma_fuse(all);
    lemma_keep_all(fuse(all));
    assert forall|j: int| 0 <= j < lexical.len() implies has_id(candidates(lexical, semantic, true), (#[trigger] lexical[j]).id) by {
        assert(all[j] == lexical[j]);
    }
    assert forall|j: int| 0 <= j < semantic.len() implies has_id(candidates(lexical, semantic, true), (#[trigger] semantic[j]).id) by {
        assert(all[lexical.len() + j] == semantic[j]);
    }
}

proof fn lemma_keep_all(cs: Seq<ChunkView>)
    ensures
        keep(cs, true) == cs,
    decreases cs.len(),
{
    if cs.len() > 0 {
        lemma_keep_all(cs.drop_last());
        assert(cs.drop_last().push(cs.last()) =~= cs);
    }
}

/// Every planned candidate is reported with a reason, the first naming the
/// retrieval that found it.
pub proof fn law_every_candidate_has_a_reason(
    query: Seq<char>,
    intent: QueryIntent,
    lexical: Seq<ChunkView>,
    semantic: Seq<ChunkView>,
    include_tests: bool,
)
    requires
        lexical.len() <= usize::MAX,
        semantic.len() <= usize::MAX,
    ensures
        forall|k: int|
            0 <= k < planned(query, intent, lexical, semantic, include_tests).len() ==> {
                let r = plan_reasons(#[trigger] planned(query, intent, lexical, semantic, include_tests)[k]);
                r.len() > 0 && (r[0] == "Lexical match"@ || r[0] == "Semantic match"@)
            },
{
    law_candidates_were_retrieved(lexical, semantic, include_tests);
    let p = planned(query, intent, lexical, semantic, include_tests);
    let cs = candidates(lexical, semantic, include_tests);
    assert forall|k: int| 0 <= k < p.len() implies {
        let r = plan_reasons(#[trigger] p[k]);
        r.len() > 0 && (r[0] == "Lexical match"@ || r[0] == "Semantic match"@)
    } by {
        assert(p[k].lexical_ranks == ranks_in(lexical, cs[k].id));
        assert(p[k].semantic_ranks == ranks_in(semantic, cs[k].id));
    }
}

/// The boilerplate names: `main`, `new`, `init`, `test`, `helper`, `util`
/// and `config`, and no others.
pub proof fn law_boilerplate_names(n: Seq<char>)
    ensures
        is_generic_name(n) <==> seq!["main"@, "new"@, "init"@, "test"@, "helper"@, "util"@, "config"@].contains(n),
{
    let g = seq!["main"@, "new"@, "init"@, "test"@, "helper"@, "util"@, "config"@];
    if is_generic_name(n) {
        if n == "main"@ {
            assert(g[0] == n);
        } else if n == "new"@ {
            assert(g[1] == n);
        } else if n == "init"@ {
            assert(g[2] == n);
        } else if n == "test"@ {
            assert(g[3] == n);
        } else if n == "helper"@ {
            assert(g[4] == n);
        } else if n == "util"@ {
            assert(g[5] == n);
        } else {
            assert(g[6] == n);
        }
    }
}

/// A sequence holding `x` still does with more before or after it.
proof fn lemma_contains_concat(a: Seq<Adjustment>, b: Seq<Adjustment>, x: Adjustment)
    requires
        a.contains(x) || b.contains(x),
    ensures
        (a + b).contains(x),
{
    if a.contains(x) {
        let k = choose|k: int| 0 <= k < a.len() && a[k] == x;
        assert((a + b)[k] == x);
    } else {
        let k = choose|k: int| 0 <= k < b.len() && b[k] == x;
        assert((a + b)[a.len() + k] == x);
    }
}

/// For a broad query (semantic, flow or architecture), a candidate that
/// defines a symbol whose lowercased name is boilerplate (`main`, `new`,
/// `init`, `test`, `helper`, `util` or `config`), or a method with such a
/// name (as `Parser.new`), gets the boilerplate penalty.
pub proof fn law_boilerplate_symbols_are_penalized(
    query: Seq<char>,
    intent: QueryIntent,
    lexical: Seq<ChunkView>,
    semantic: Seq<ChunkView>,
    include_tests: bool,
    k: int,
    i: int,
)
    requires
        intent == QueryIntent::Semantic || intent == QueryIntent::Flow || intent == QueryIntent::Architecture,
        0 <= k < planned(query, intent, lexical, semantic, include_tests).len(),
        0 <= i < planned(query, intent, lexical, semantic, include_tests)[k].chunk.symbols_defined.len(),
        ({
            let n = lower_name(planned(query, intent, lexical, semantic, include_tests)[k].chunk.symbols_defined[i]);
            seq!["main"@, "new"@, "init"@, "test"@, "helper"@, "util"@, "config"@].contains(n)
                || seq!["main"@, "new"@, "init"@, "test"@, "helper"@, "util"@, "config"@].contains(
                after_last(n, '.'),
            )
        }),
    ensures
        planned(query, intent, lexical, semantic, include_tests)[k].adjustments.contains(Adjustment::GenericSymbol),
{
    let p = planned(query, intent, lexical, semantic, include_tests);
    let cs = candidates(lexical, semantic, include_tests);
    let c = cs[k];
    assert(p[k].chunk == c);
    let n = lower_name(c.symbols_defined[i]);
    law_boilerplate_names(n);
    law_boilerplate_names(after_last(n, '.'));
    assert(has_generic_symbol(c.symbols_defined));
    let g = generic_part(c);
    assert(g == seq![Adjustment::GenericSymbol]);
    assert(g[0] == Adjustment::GenericSymbol);
    let ip = intent_part(c, query, intent);
    assert(ip == concept_part(query, c) + service_part(c) + g);
    lemma_contains_concat(concept_part(query, c) + service_part(c), g, Adjustment::GenericSymbol);
    let front = noise_part(c) + definition_part(query, c) + identifier_part(query, c);
    lemma_contains_concat(front, ip, Adjustment::GenericSymbol);
    lemma_contains_concat(front + ip, coherence_part(c, cs), Adjustment::GenericSymbol);
    assert(p[k].adjustments == planned_adjustments(c, cs, query, intent));
}

/// The markers of paths that are left out unless tests are asked for.
pub open spec fn excluded_markers() -> Seq<Seq<char>> {
    seq!["vendor"@, "node_modules"@, "mock"@, "test"@, "generated"@, ".pb.go"@, "fixtures"@, "examples"@]
}

/// A path is left out unless tests are asked for exactly when its lowercase
/// form mentions `vendor`, `node_modules`, `mock`, `test`, `generated`,
/// `.pb.go`, `fixtures` or `examples`.
pub proof fn law_excluded_paths(path: Seq<char>)
    ensures
        excluded_path(path) <==> (exists|k: int|
            0 <= k < excluded_markers().len() && contains_seq(lowercase(path), #[trigger] excluded_markers()[k])),
{
    let m = excluded_markers();
    let l = lowercase(path);
    if excluded_path(path) {
        if contains_seq(l, "vendor"@) {
            assert(contains_seq(l, m[0]));
        } else if contains_seq(l, "node_modules"@) {
            assert(contains_seq(l, m[1]));
        } else if contains_seq(l, "mock"@) {
            assert(contains_seq(l, m[2]));
        } else if contains_seq(l, "test"@) {
            assert(contains_seq(l, m[3]));
        } else if contains_seq(l, "generated"@) {
            assert(contains_seq(l, m[4]));
        } else if contains_seq(l, ".pb.go"@) {
            assert(contains_seq(l, m[5]));
        } else if contains_seq(l, "fixtures"@) {
            assert(contains_seq(l, m[6]));
        } else {
            assert(contains_seq(l, m[7]));
        }
    }
}

/// Noise tiers by what the lowercase path mentions: vendored code
/// (`vendor`, `node_modules`) first, then generated code (`generated`,
/// `.pb.go`), then test files, then mock or test directories, then
/// fixtures, examples and build output; other paths are no noise.
pub proof fn law_noise_tiers(path: Seq<char>)
    ensures
        contains_seq(lowercase(path), "vendor"@) || contains_seq(lowercase(path), "node_modules"@)
            ==> noise_tier_of(path) == Some(NoiseTier::Vendor),
        !contains_seq(lowercase(path), "vendor"@) && !contains_seq(lowercase(path), "node_modules"@) && (
        contains_seq(lowercase(path), "generated"@) || contains_seq(lowercase(path), ".pb.go"@))
            ==> noise_tier_of(path) == Some(NoiseTier::Generated),
        !contains_seq(lowercase(path), "vendor"@) && !contains_seq(lowercase(path), "node_modules"@)
            && !contains_seq(lowercase(path), "generated"@) && !contains_seq(lowercase(path), ".pb.go"@)
            && (ends_with_seq(lowercase(path), "_test.go"@) || ends_with_seq(lowercase(path), ".test.ts"@)
            || ends_with_seq(lowercase(path), "_test.rs"@) || ends_with_seq(lowercase(path), "_test.py"@)
            || contains_seq(lowercase(path), "testdata"@)) ==> noise_tier_of(path) == Some(NoiseTier::TestFile),
        noise_tier_of(path) is None <==> !contains_seq(lowercase(path), "vendor"@) && !contains_seq(
            lowercase(path),
            "node_modules"@,
        ) && !contains_seq(lowercase(path), "generated"@) && !contains_seq(lowercase(path), ".pb.go"@)
            && !ends_with_seq(lowercase(path), "_test.go"@) && !ends_with_seq(lowercase(path), ".test.ts"@)
            && !ends_with_seq(lowercase(path), "_test.rs"@) && !ends_with_seq(lowercase(path), "_test.py"@)
            && !contains_seq(lowercase(path), "testdata"@) && !contains_seq(lowercase(path), "mock"@)
            && !contains_seq(lowercase(path), "test"@) && !contains_seq(lowercase(path), "fixtures"@)
            && !contains_seq(lowercase(path), "examples"@) && !contains_seq(lowercase(path), "target"@)
            && !contains_seq(lowercase(path), "build"@) && !contains_seq(lowercase(path), "dist"@),
{
}

} // verus!
