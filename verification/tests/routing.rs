use sse_gateway::router::goto_of_query;
use sse_gateway::router::route_request;
use sse_gateway::router::Route;

#[test]
fn local_routes_dispatch_to_their_handlers() {
    assert_eq!(route_request("GET", "/api/"), Route::Hello);
    assert_eq!(route_request("POST", "/api/echo"), Route::Echo);
    assert_eq!(route_request("GET", "/api/hey"), Route::Hey);
    assert_eq!(route_request("GET", "/api/stream-llm"), Route::StreamLlm);
    assert_eq!(route_request("GET", "/stream"), Route::Stream);
}

#[test]
fn everything_else_is_proxied() {
    assert_eq!(route_request("GET", "/unknown-path"), Route::Proxy);
    assert_eq!(route_request("GET", "/api/echo"), Route::Proxy);
    assert_eq!(route_request("DELETE", "/api/hey"), Route::Proxy);
    assert_eq!(route_request("POST", "/stream"), Route::Proxy);
    assert_eq!(route_request("GET", "/api"), Route::Proxy);
    assert_eq!(route_request("GET", ""), Route::Proxy);
}

#[test]
fn goto_defaults_to_2_when_absent() {
    assert_eq!(goto_of_query(""), 2);
    assert_eq!(goto_of_query("x=1&y=2"), 2);
    assert_eq!(goto_of_query("x=goto=5"), 2);
}

#[test]
fn goto_reads_the_first_goto_parameter() {
    assert_eq!(goto_of_query("goto=2"), 2);
    assert_eq!(goto_of_query("goto=3"), 3);
    assert_eq!(goto_of_query("a=1&goto=3"), 3);
    assert_eq!(goto_of_query("goto=7&goto=3"), 7);
    assert_eq!(goto_of_query("goto=18446744073709551615"), u64::MAX);
}

#[test]
fn unreadable_goto_becomes_an_unrouted_value() {
    assert_eq!(goto_of_query("goto="), 0);
    assert_eq!(goto_of_query("goto=abc"), 0);
    assert_eq!(goto_of_query("goto=2x"), 0);
    assert_eq!(goto_of_query("goto=-1"), 0);
    assert_eq!(goto_of_query("goto=99999999999999999999999"), 0);
}
