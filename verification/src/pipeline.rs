//! The decisions of the search pipeline and of repository indexing.
use vstd::prelude::*;
use crate::classifier::{QueryIntent, spec_classify, classify_query};
use crate::protocol::{ChunkView, CodeChunk};
use crate::text::{chars_of, contains_seq, contains_str, lowercase, lowercase_chars, text_of};

verus! {

/// How many exact symbol hits a symbol query asks for.
pub const EXACT_SYMBOL_LIMIT: usize = 25;

/// How many candidates each retrieval backend is asked for.
pub const RETRIEVAL_LIMIT: usize = 50;

/// How many symbols a symbol resolution asks for.
pub const RESOLVE_LIMIT: usize = 25;

/// How many neighbours a related-code lookup asks for.
pub const RELATED_LIMIT: usize = 20;

/// The engineering terms appended to a broad architectural query, chosen by
/// the first topic that its lowercase form mentions.
pub open spec fn expansion_terms(query: Seq<char>) -> Seq<char> {
    let l = lowercase(query);
    if contains_seq(l, "auth"@) || contains_seq(l, "authentication"@) {
        " login jwt token middleware authorize verify access session identity permission oauth"@
    } else if contains_seq(l, "database"@) || contains_seq(l, "db"@) {
        " repository gorm sql transaction query storage client connection migration schema"@
    } else if contains_seq(l, "api"@) || contains_seq(l, "endpoint"@) {
        " controller handler route request response gateway payload"@
    } else if contains_seq(l, "cache"@) {
        " redis memcached ttl evict storage buffer local"@
    } else if contains_seq(l, "config"@) || contains_seq(l, "setting"@) {
        " environment variable yaml json property flag registry"@
    } else {
        seq![]
    }
}

/// Expands a broad architectural query with the engineering terms of the
/// topic it mentions; a query that mentions none of them is kept as it is.
pub fn expand_architectural_query(query: &str) -> (res: String)
    ensures
        res@ == query@ + expansion_terms(query@),
{
    let qc = chars_of(query);
    let low = lowercase_chars(qc.as_slice());
    let l = low.as_slice();
    let mut expanded = text_of(query);
    if contains_str(l, "auth") || contains_str(l, "authentication") {
        expanded.append(" login jwt token middleware authorize verify access session identity permission oauth");
    } else if contains_str(l, "database") || contains_str(l, "db") {
        expanded.append(" repository gorm sql transaction query storage client connection migration schema");
    } else if contains_str(l, "api") || contains_str(l, "endpoint") {
        expanded.append(" controller handler route request response gateway payload");
    } else if contains_str(l, "cache") {
        expanded.append(" redis memcached ttl evict storage buffer local");
    } else if contains_str(l, "config") || contains_str(l, "setting") {
        expanded.append(" environment variable yaml json property flag registry");
    } else {
        assert(expanded@ =~= query@ + expansion_terms(query@));
    }
    expanded
}

/// What the search pipeline does with a query.
pub struct SearchPlan {
    /// The intent of the query.
    pub intent: QueryIntent,
    /// Whether exact symbol hits are looked up first and, when there are
    /// any, returned without ranking.
    pub exact_first: bool,
    /// The query handed to the lexical and semantic retrieval.
    pub retrieval_query: String,
}

/// The query handed to retrieval: flow and architecture queries are
/// expanded, others are kept.
pub open spec fn retrieval_query_of(query: Seq<char>, intent: QueryIntent) -> Seq<char> {
    if intent == QueryIntent::Flow || intent == QueryIntent::Architecture {
        query + expansion_terms(query)
    } else {
        query
    }
}

/// Plans the search of a query: classify it, look exact symbols up first
/// when it is a symbol query, and expand it for retrieval when it is a flow
/// or architecture query.
pub fn plan_search(query: &str) -> (res: SearchPlan)
    ensures
        res.intent == spec_classify(query@),
        res.exact_first == (res.intent == QueryIntent::Symbol),
        res.retrieval_query@ == retrieval_query_of(query@, res.intent),
{
    let intent = classify_query(query);
    let retrieval_query = match intent {
        QueryIntent::Flow | QueryIntent::Architecture => expand_architectural_query(query),
        _ => text_of(query),
    };
    SearchPlan { intent, exact_first: intent == QueryIntent::Symbol, retrieval_query }
}

/// A path that indexing skips: it lies under a `.git`, `node_modules`,
/// `vendor`, `target`, `build` or `dist` directory.
pub open spec fn skipped_path(path: Seq<char>) -> bool {
    contains_seq(path, "/.git/"@) || contains_seq(path, "/node_modules/"@) || contains_seq(
        path,
        "/vendor/"@,
    ) || contains_seq(path, "/target/"@) || contains_seq(path, "/build/"@) || contains_seq(
        path,
        "/dist/"@,
    )
}

/// Whether indexing skips the file at `path`.
pub fn should_skip(path: &str) -> (res: bool)
    ensures
        res == skipped_path(path@),
{
    let pc = chars_of(path);
    let p = pc.as_slice();
    contains_str(p, "/.git/") || contains_str(p, "/node_modules/") || contains_str(p, "/vendor/")
        || contains_str(p, "/target/") || contains_str(p, "/build/") || contains_str(p, "/dist/")
}

/// The chunk lies in `file` and its line range holds `line`.
pub open spec fn covers(c: ChunkView, file: Seq<char>, line: usize) -> bool {
    c.file_path == file && c.start_line <= line && line <= c.end_line
}

/// Whether the chunk lies in `file` and its line range holds `line`.
pub fn covers_location(chunk: &CodeChunk, file: &str, line: usize) -> (res: bool)
    ensures
        res == covers(chunk@, file@, line),
{
    let f = text_of(file);
    chunk.file_path == f && line >= chunk.start_line && line <= chunk.end_line
}

/// Whether a neighbour found for `file`:`line` is reported: it lies in
/// another file or its line range misses `line`.
pub fn is_other_location(chunk: &CodeChunk, file: &str, line: usize) -> (res: bool)
    ensures
        res == !covers(chunk@, file@, line),
{
    let f = text_of(file);
    chunk.file_path != f || line < chunk.start_line || line > chunk.end_line
}

/// A related-code lookup never reports the chunk it started from: a
/// neighbour is reported exactly when it does not cover the asked location.
pub proof fn law_related_skips_origin(c: ChunkView, file: Seq<char>, line: usize)
    ensures
        !covers(c, file, line) <==> (c.file_path != file || line < c.start_line || c.end_line < line),
{
}

/// Only symbol queries look exact symbols up first, and their retrieval
/// query is the query itself.
pub proof fn law_exact_lookup_only_for_symbols(query: Seq<char>)
    ensures
        spec_classify(query) == QueryIntent::Symbol ==> retrieval_query_of(query, spec_classify(query)) == query,
{
}

/// A broad query is expanded by the first topic its lowercase form
/// mentions, in this order: authentication (`auth`), databases
/// (`database`, `db`), APIs (`api`, `endpoint`), caches (`cache`) and
/// configuration (`config`, `setting`); a query that mentions none of them
/// is kept as it is.
pub proof fn law_topic_expansion(query: Seq<char>)
    ensures
        contains_seq(lowercase(query), "auth"@) ==> expansion_terms(query)
            == " login jwt token middleware authorize verify access session identity permission oauth"@,
        !contains_seq(lowercase(query), "auth"@) && (contains_seq(lowercase(query), "database"@)
            || contains_seq(lowercase(query), "db"@)) ==> expansion_terms(query)
            == " repository gorm sql transaction query storage client connection migration schema"@,
        !contains_seq(lowercase(query), "auth"@) && !contains_seq(lowercase(query), "database"@)
            && !contains_seq(lowercase(query), "db"@) && (contains_seq(lowercase(query), "api"@)
            || contains_seq(lowercase(query), "endpoint"@)) ==> expansion_terms(query)
            == " controller handler route request response gateway payload"@,
        !contains_seq(lowercase(query), "auth"@) && !contains_seq(lowercase(query), "database"@)
            && !contains_seq(lowercase(query), "db"@) && !contains_seq(lowercase(query), "api"@)
            && !contains_seq(lowercase(query), "endpoint"@) && contains_seq(lowercase(query), "cache"@)
            ==> expansion_terms(query) == " redis memcached ttl evict storage buffer local"@,
        !contains_seq(lowercase(query), "auth"@) && !contains_seq(lowercase(query), "database"@)
            && !contains_seq(lowercase(query), "db"@) && !contains_seq(lowercase(query), "api"@)
            && !contains_seq(lowercase(query), "endpoint"@) && !contains_seq(lowercase(query), "cache"@)
            && (contains_seq(lowercase(query), "config"@) || contains_seq(lowercase(query), "setting"@))
            ==> expansion_terms(query) == " environment variable yaml json property flag registry"@,
        !contains_seq(lowercase(query), "auth"@) && !contains_seq(lowercase(query), "database"@)
            && !contains_seq(lowercase(query), "db"@) && !contains_seq(lowercase(query), "api"@)
            && !contains_seq(lowercase(query), "endpoint"@) && !contains_seq(lowercase(query), "cache"@)
            && !contains_seq(lowercase(query), "config"@) && !contains_seq(lowercase(query), "setting"@)
            ==> expansion_terms(query).len() == 0,
{
    let l = lowercase(query);
    if contains_seq(l, "authentication"@) {
        lemma_auth_within_authentication(l);
    }
}

/// A text that mentions `authentication` mentions `auth`.
proof fn lemma_auth_within_authentication(l: Seq<char>)
    requires
        contains_seq(l, "authentication"@),
    ensures
        contains_seq(l, "auth"@),
{
    let p = "authentication"@;
    let k = choose|k: int| 0 <= k && k + p.len() <= l.len() && #[trigger] l.subrange(k, k + p.len()) == p;
    assert(p.len() == 14) by {
        reveal_strlit("authentication");
    }
    assert("auth"@.len() == 4) by {
        reveal_strlit("auth");
    }
    assert(l.subrange(k, k + 4) =~= "auth"@) by {
        reveal_strlit("authentication");
        reveal_strlit("auth");
        assert forall|j: int| 0 <= j < 4 implies l.subrange(k, k + 4)[j] == "auth"@[j] by {
            assert(l.subrange(k, k + 4)[j] == l.subrange(k, k + 14)[j]);
        }
    }
}

/// The directories whose files indexing skips.
pub open spec fn skipped_directories() -> Seq<Seq<char>> {
    seq!["/.git/"@, "/node_modules/"@, "/vendor/"@, "/target/"@, "/build/"@, "/dist/"@]
}

/// Indexing skips exactly the files under a `.git`, `node_modules`,
/// `vendor`, `target`, `build` or `dist` directory.
pub proof fn law_skipped_directories(path: Seq<char>)
    ensures
        skipped_path(path) <==> (exists|k: int|
            0 <= k < skipped_directories().len() && contains_seq(path, #[trigger] skipped_directories()[k])),
{
    let d = skipped_directories();
    if skipped_path(path) {
        if contains_seq(path, "/.git/"@) {
            assert(contains_seq(path, d[0]));
        } else if contains_seq(path, "/node_modules/"@) {
            assert(contains_seq(path, d[1]));
        } else if contains_seq(path, "/vendor/"@) {
            assert(contains_seq(path, d[2]));
        } else if contains_seq(path, "/target/"@) {
            assert(contains_seq(path, d[3]));
        } else if contains_seq(path, "/build/"@) {
            assert(contains_seq(path, d[4]));
        } else {
            assert(contains_seq(path, d[5]));
        }
    }
}

} // verus!
