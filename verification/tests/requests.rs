use lynx::requests::{route_request, McpCall, McpRequestError};

fn s(x: &str) -> Option<String> {
    Some(x.to_string())
}

#[test]
fn routes_known_methods() {
    assert_eq!(
        route_request("search", s("jwt validation"), None, None, None),
        Ok(McpCall::Search("jwt validation".to_string()))
    );
    assert_eq!(
        route_request("resolve_symbol", None, s("Login"), None, None),
        Ok(McpCall::ResolveSymbol("Login".to_string()))
    );
    assert_eq!(
        route_request("find_related", None, None, s("internal/auth/service.go"), Some(42)),
        Ok(McpCall::FindRelated("internal/auth/service.go".to_string(), 42))
    );
}

#[test]
fn refuses_incomplete_requests() {
    assert_eq!(route_request("search", None, s("x"), None, None), Err(McpRequestError::MissingQuery));
    assert_eq!(route_request("resolve_symbol", s("x"), None, None, None), Err(McpRequestError::MissingName));
    assert_eq!(route_request("find_related", None, None, s("a.go"), None), Err(McpRequestError::MissingFileOrLine));
    assert_eq!(route_request("find_related", None, None, None, Some(3)), Err(McpRequestError::MissingFileOrLine));
    assert_eq!(route_request("index", s("x"), None, None, None), Err(McpRequestError::UnknownMethod));
    assert_eq!(McpRequestError::MissingQuery.message(), "Missing query parameter");
    assert_eq!(McpRequestError::UnknownMethod.message(), "Unknown method");
}
