//! Deterministic query intent classification.
use vstd::prelude::*;
use crate::text::{
    contains_seq, has_char, has_ascii_upper, lowercase, trim, ws_tokens,
    contains_str, has_char_exec, has_ascii_upper_exec, lowercase_chars, trim_chars,
    split_whitespace_chars, chars_of, law_trim_keeps_tokens, ws_scan, all_ascii, ascii_lower, lemma_trim_ascii,
};

verus! {

/// What a search query is after.
#[derive(Debug, Clone, Copy, PartialEq, Eq, Structural)]
pub enum QueryIntent {
    /// Exact matches, such as `AuthService`.
    Symbol,
    /// Target signatures, such as `ParseJWT`.
    Definition,
    /// Control path mapping, such as `authentication flow`.
    Flow,
    /// Inter-crate relationships, such as `request lifecycle`.
    Architecture,
    /// Broad natural language, such as `how do we cache vectors`.
    Semantic,
}

/// A token that looks like a code identifier: it holds `::`, `.` or `_`, or an
/// ASCII uppercase letter.
pub open spec fn identifier_like(t: Seq<char>) -> bool {
    contains_seq(t, "::"@) || has_char(t, '.') || has_char(t, '_') || has_ascii_upper(t)
}

/// The lowercased query speaks of a control flow.
pub open spec fn mentions_flow(low: Seq<char>) -> bool {
    contains_seq(low, "flow"@) || contains_seq(low, "path"@) || contains_seq(low, "sequence"@)
}

/// The lowercased query speaks of the architecture: of modules, crates and
/// their relationships, or of a lifecycle that spans them (such as
/// `request lifecycle`).
pub open spec fn mentions_architecture(low: Seq<char>) -> bool {
    contains_seq(low, "architecture"@) || contains_seq(low, "module"@) || contains_seq(
        low,
        "crate"@,
    ) || contains_seq(low, "relationship"@) || contains_seq(low, "dependency"@) || contains_seq(
        low,
        "lifecycle"@,
    )
}

/// The lowercased query speaks of a definition.
pub open spec fn mentions_definition(low: Seq<char>) -> bool {
    contains_seq(low, "define"@) || contains_seq(low, "definition"@) || contains_seq(
        low,
        "implement"@,
    ) || contains_seq(low, "signature"@)
}

/// The intent of a non-blank query from its tokens and its lowercase form:
/// a single token is a symbol, and several tokens are classified by their
/// keywords (flow, then architecture, then definition) and failing those by
/// whether some token looks like an identifier.
pub open spec fn intent_of(toks: Seq<Seq<char>>, low: Seq<char>) -> QueryIntent {
    if toks.len() <= 1 {
        QueryIntent::Symbol
    } else if mentions_flow(low) {
        QueryIntent::Flow
    } else if mentions_architecture(low) {
        QueryIntent::Architecture
    } else if mentions_definition(low) {
        QueryIntent::Definition
    } else if exists|i: int| 0 <= i < toks.len() && identifier_like(#[trigger] toks[i]) {
        QueryIntent::Definition
    } else {
        QueryIntent::Semantic
    }
}

/// The intent of a query: a blank query is semantic, any other has the
/// intent of its tokens and its lowercase form.
pub open spec fn spec_classify(query: Seq<char>) -> QueryIntent {
    let t = trim(query);
    if t.len() == 0 {
        QueryIntent::Semantic
    } else {
        intent_of(ws_tokens(t), lowercase(t))
    }
}

/// The intent of an ASCII query, whose lowercase form lowercases `A`..`Z`
/// alone.
pub open spec fn spec_classify_ascii(query: Seq<char>) -> QueryIntent {
    let t = trim(query);
    if t.len() == 0 {
        QueryIntent::Semantic
    } else {
        intent_of(ws_tokens(t), t.map_values(|c: char| ascii_lower(c)))
    }
}

/// The views of a sequence of tokens.
pub open spec fn token_views(toks: Seq<Vec<char>>) -> Seq<Seq<char>> {
    toks.map_values(|t: Vec<char>| t@)
}

/// The intent of a non-blank query from its tokens and its lowercase form.
pub fn intent_of_tokens(toks: &Vec<Vec<char>>, lowered: &[char]) -> (intent: QueryIntent)
    ensures
        intent == intent_of(token_views(toks@), lowered@),
{
    let ghost tv = token_views(toks@);
    if toks.len() <= 1 {
        return QueryIntent::Symbol;
    }
    let l = lowered;
    if contains_str(l, "flow") || contains_str(l, "path") || contains_str(l, "sequence") {
        return QueryIntent::Flow;
    }
    if contains_str(l, "architecture") || contains_str(l, "module") || contains_str(l, "crate")
        || contains_str(l, "relationship") || contains_str(l, "dependency") || contains_str(
        l,
        "lifecycle",
    ) {
        return QueryIntent::Architecture;
    }
    if contains_str(l, "define") || contains_str(l, "definition") || contains_str(l, "implement")
        || contains_str(l, "signature") {
        return QueryIntent::Definition;
    }
    let mut has_identifier = false;
    let mut i: usize = 0;
    while i < toks.len()
        invariant
            tv == token_views(toks@),
            i <= toks@.len(),
            has_identifier == (exists|k: int| 0 <= k < i && identifier_like(#[trigger] tv[k])),
        decreases toks@.len() - i,
    {
        assert(tv[i as int] == toks@[i as int]@);
        if is_identifier_like(toks[i].as_slice()) {
            has_identifier = true;
        }
        i += 1;
    }
    if has_identifier {
        QueryIntent::Definition
    } else {
        QueryIntent::Semantic
    }
}

/// Whether a token looks like a code identifier.
pub fn is_identifier_like(token: &[char]) -> (res: bool)
    ensures
        res == identifier_like(token@),
{
    contains_str(token, "::") || has_char_exec(token, '.') || has_char_exec(token, '_')
        || has_ascii_upper_exec(token)
}

/// Classifies a query by its intent.
pub fn classify_query(query: &str) -> (intent: QueryIntent)
    ensures
        intent == spec_classify(query@),
        all_ascii(query@) ==> intent == spec_classify_ascii(query@),
{
    let chars = chars_of(query);
    let trimmed = trim_chars(chars.as_slice());
    if trimmed.len() == 0 {
        return QueryIntent::Semantic;
    }
    let toks = split_whitespace_chars(trimmed.as_slice());
    assert(token_views(toks@) =~= ws_tokens(trimmed@));
    let low = lowercase_chars(trimmed.as_slice());
    proof {
        if all_ascii(query@) {
            lemma_trim_ascii(query@);
        }
    }
    intent_of_tokens(&toks, low.as_slice())
}

/// A blank query has no intent to match exactly: it is semantic.
pub proof fn law_blank_query_is_semantic(query: Seq<char>)
    requires
        trim(query).len() == 0,
    ensures
        spec_classify(query) == QueryIntent::Semantic,
{
}

/// A query of a single token, such as `AuthService` or
/// `func:internal/auth:Login`, is a symbol query.
pub proof fn law_single_token_is_symbol(query: Seq<char>)
    requires
        trim(query).len() > 0,
        ws_tokens(trim(query)).len() <= 1,
    ensures
        spec_classify(query) == QueryIntent::Symbol,
{
}

/// A query of several tokens is never a symbol query.
pub proof fn law_several_tokens_are_not_symbol(query: Seq<char>)
    requires
        ws_tokens(trim(query)).len() > 1,
    ensures
        spec_classify(query) != QueryIntent::Symbol,
{
}

/// A query that is not blank is classified by its own whitespace tokens:
/// surrounding whitespace adds or removes none.
pub proof fn law_classified_by_own_tokens(query: Seq<char>)
    requires
        trim(query).len() > 0,
    ensures
        spec_classify(query) == intent_of(ws_tokens(query), lowercase(trim(query))),
{
    law_trim_keeps_tokens(query);
}

/// A query of several tokens that speaks of a flow (`flow`, `path` or
/// `sequence`, in any case) is a flow query.
pub proof fn law_flow_words(query: Seq<char>)
    requires
        ws_tokens(trim(query)).len() > 1,
        contains_seq(lowercase(trim(query)), "flow"@) || contains_seq(lowercase(trim(query)), "path"@)
            || contains_seq(lowercase(trim(query)), "sequence"@),
    ensures
        spec_classify(query) == QueryIntent::Flow,
{
    lemma_several_tokens_not_blank(query);
}

/// A query of several tokens that speaks of no flow but of the
/// architecture (`architecture`, `module`, `crate`, `relationship`,
/// `dependency` or `lifecycle`, in any case) is an architecture query.
pub proof fn law_architecture_words(query: Seq<char>)
    requires
        ws_tokens(trim(query)).len() > 1,
        !contains_seq(lowercase(trim(query)), "flow"@),
        !contains_seq(lowercase(trim(query)), "path"@),
        !contains_seq(lowercase(trim(query)), "sequence"@),
        contains_seq(lowercase(trim(query)), "architecture"@) || contains_seq(lowercase(trim(query)), "module"@)
            || contains_seq(lowercase(trim(query)), "crate"@) || contains_seq(
            lowercase(trim(query)),
            "relationship"@,
        ) || contains_seq(lowercase(trim(query)), "dependency"@) || contains_seq(
            lowercase(trim(query)),
            "lifecycle"@,
        ),
    ensures
        spec_classify(query) == QueryIntent::Architecture,
{
    lemma_several_tokens_not_blank(query);
}

/// A query of several tokens that speaks of neither a flow nor the
/// architecture, but of a definition (`define`, `definition`, `implement`
/// or `signature`, in any case), is a definition query.
pub proof fn law_definition_words(query: Seq<char>)
    requires
        ws_tokens(trim(query)).len() > 1,
        !contains_seq(lowercase(trim(query)), "flow"@),
        !contains_seq(lowercase(trim(query)), "path"@),
        !contains_seq(lowercase(trim(query)), "sequence"@),
        !contains_seq(lowercase(trim(query)), "architecture"@),
        !contains_seq(lowercase(trim(query)), "module"@),
        !contains_seq(lowercase(trim(query)), "crate"@),
        !contains_seq(lowercase(trim(query)), "relationship"@),
        !contains_seq(lowercase(trim(query)), "dependency"@),
        !contains_seq(lowercase(trim(query)), "lifecycle"@),
        contains_seq(lowercase(trim(query)), "define"@) || contains_seq(lowercase(trim(query)), "definition"@)
            || contains_seq(lowercase(trim(query)), "implement"@) || contains_seq(
            lowercase(trim(query)),
            "signature"@,
        ),
    ensures
        spec_classify(query) == QueryIntent::Definition,
{
    lemma_several_tokens_not_blank(query);
}

/// A query of several tokens with none of the keywords is a definition
/// query when one of its tokens holds `::`, `.`, `_` or an ASCII capital,
/// and a semantic query otherwise.
pub proof fn law_no_keywords(query: Seq<char>)
    requires
        ws_tokens(trim(query)).len() > 1,
        !contains_seq(lowercase(trim(query)), "flow"@),
        !contains_seq(lowercase(trim(query)), "path"@),
        !contains_seq(lowercase(trim(query)), "sequence"@),
        !contains_seq(lowercase(trim(query)), "architecture"@),
        !contains_seq(lowercase(trim(query)), "module"@),
        !contains_seq(lowercase(trim(query)), "crate"@),
        !contains_seq(lowercase(trim(query)), "relationship"@),
        !contains_seq(lowercase(trim(query)), "dependency"@),
        !contains_seq(lowercase(trim(query)), "lifecycle"@),
        !contains_seq(lowercase(trim(query)), "define"@),
        !contains_seq(lowercase(trim(query)), "definition"@),
        !contains_seq(lowercase(trim(query)), "implement"@),
        !contains_seq(lowercase(trim(query)), "signature"@),
    ensures
        spec_classify(query) == (if exists|i: int|
            0 <= i < ws_tokens(trim(query)).len() && {
                let t = #[trigger] ws_tokens(trim(query))[i];
                contains_seq(t, "::"@) || has_char(t, '.') || has_char(t, '_') || has_ascii_upper(t)
            } {
            QueryIntent::Definition
        } else {
            QueryIntent::Semantic
        }),
{
    lemma_several_tokens_not_blank(query);
}

/// A text of several tokens is not blank.
proof fn lemma_several_tokens_not_blank(query: Seq<char>)
    requires
        ws_tokens(trim(query)).len() > 1,
    ensures
        trim(query).len() > 0,
{
    if trim(query).len() == 0 {
        assert(ws_scan(trim(query)) == (Seq::<Seq<char>>::empty(), Seq::<char>::empty()));
    }
}

} // verus!
