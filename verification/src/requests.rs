//! Routing of the requests that the MCP server answers.
use vstd::prelude::*;
use crate::text::text_of;

verus! {

/// A request the server can answer, with its parameters.
#[derive(Debug, Clone, PartialEq, Eq)]
pub enum McpCall {
    /// `search` with its `query`.
    Search(String),
    /// `resolve_symbol` with its `name`.
    ResolveSymbol(String),
    /// `find_related` with its `file` and `line`.
    FindRelated(String, usize),
}

/// Why a request was refused.
#[derive(Debug, Clone, Copy, PartialEq, Eq, Structural)]
pub enum McpRequestError {
    MissingQuery,
    MissingName,
    MissingFileOrLine,
    UnknownMethod,
}

/// The message a refused request is answered with.
pub open spec fn error_message(e: McpRequestError) -> Seq<char> {
    match e {
        McpRequestError::MissingQuery => "Missing query parameter"@,
        McpRequestError::MissingName => "Missing name parameter"@,
        McpRequestError::MissingFileOrLine => "Missing file or line parameter"@,
        McpRequestError::UnknownMethod => "Unknown method"@,
    }
}

impl McpRequestError {
    /// The message this refusal is answered with.
    pub fn message(&self) -> (res: String)
        ensures
            res@ == error_message(*self),
    {
        match self {
            McpRequestError::MissingQuery => text_of("Missing query parameter"),
            McpRequestError::MissingName => text_of("Missing name parameter"),
            McpRequestError::MissingFileOrLine => text_of("Missing file or line parameter"),
            McpRequestError::UnknownMethod => text_of("Unknown method"),
        }
    }
}

/// The call a request makes, given its method and the string or number
/// parameters found in it: `search` needs a `query`, `resolve_symbol` a
/// `name`, `find_related` both a `file` and a `line`; other methods are
/// unknown.
pub open spec fn routed(
    method: Seq<char>,
    query: Option<Seq<char>>,
    name: Option<Seq<char>>,
    file: Option<Seq<char>>,
    line: Option<u64>,
) -> Result<(Seq<char>, Seq<char>, usize), McpRequestError> {
    if method == "search"@ {
        match query {
            Some(q) => Ok(("search"@, q, 0)),
            None => Err(McpRequestError::MissingQuery),
        }
    } else if method == "resolve_symbol"@ {
        match name {
            Some(n) => Ok(("resolve_symbol"@, n, 0)),
            None => Err(McpRequestError::MissingName),
        }
    } else if method == "find_related"@ {
        match (file, line) {
            (Some(f), Some(l)) => Ok(("find_related"@, f, l as usize)),
            _ => Err(McpRequestError::MissingFileOrLine),
        }
    } else {
        Err(McpRequestError::UnknownMethod)
    }
}

/// The method, text parameter and line of a call.
pub open spec fn call_parts(c: McpCall) -> (Seq<char>, Seq<char>, usize) {
    match c {
        McpCall::Search(q) => ("search"@, q@, 0),
        McpCall::ResolveSymbol(n) => ("resolve_symbol"@, n@, 0),
        McpCall::FindRelated(f, l) => ("find_related"@, f@, l),
    }
}

/// The view of an optional string.
pub open spec fn opt_str(o: Option<String>) -> Option<Seq<char>> {
    match o {
        Some(s) => Some(s@),
        None => None,
    }
}

/// Routes a request by its method and parameters.
pub fn route_request(
    method: &str,
    query: Option<String>,
    name: Option<String>,
    file: Option<String>,
    line: Option<u64>,
) -> (res: Result<McpCall, McpRequestError>)
    ensures
        match (res, routed(method@, opt_str(query), opt_str(name), opt_str(file), line)) {
            (Ok(c), Ok(parts)) => call_parts(c) == parts,
            (Err(e), Err(se)) => e == se,
            _ => false,
        },
{
    let m = text_of(method);
    if m == text_of("search") {
        match query {
            Some(q) => Ok(McpCall::Search(q)),
            None => Err(McpRequestError::MissingQuery),
        }
    } else if m == text_of("resolve_symbol") {
        match name {
            Some(n) => Ok(McpCall::ResolveSymbol(n)),
            None => Err(McpRequestError::MissingName),
        }
    } else if m == text_of("find_related") {
        match (file, line) {
            (Some(f), Some(l)) => Ok(McpCall::FindRelated(f, l as usize)),
            _ => Err(McpRequestError::MissingFileOrLine),
        }
    } else {
        Err(McpRequestError::UnknownMethod)
    }
}

} // verus!
