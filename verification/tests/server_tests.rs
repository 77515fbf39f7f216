use cone_server::decimal::usize_to_string;
use cone_server::error::HttpError;
use cone_server::parse::parse_request_path;
use cone_server::response::{not_found_response, HTMLResponse, IntoResponse, ResponseBody};
use cone_server::router::{require_request_line, Router};

fn demo_router() -> Router {
    let mut router = Router::new(String::from("127.0.0.1:7878"));
    router
        .new_route("/cone", String::from("cone string"))
        .unwrap();
    router.new_route("/conestr", "cone str").unwrap();
    router
        .new_route("/", HTMLResponse::new(String::from("<h1>Hello!</h1>")))
        .unwrap();
    router
}

#[test]
fn cone_route_yields_exact_plain_text_response() {
    let router = demo_router();
    let response = router.handle_request("GET /cone HTTP/1.1", "gone").unwrap();
    assert_eq!(
        response,
        "HTTP/1.1 200 OK\r\nContent-Length: 11\r\nContent-Type: text/plain; charset=utf-8\r\n\r\ncone string"
    );
}

#[test]
fn root_route_yields_html_response_with_body_length() {
    let body = String::from("<html><body><h1>Hello from the cone!</h1></body></html>");
    let mut router = Router::new(String::from("127.0.0.1:7878"));
    router
        .new_route("/", HTMLResponse::new(body.clone()))
        .unwrap();
    let response = router.handle_request("GET / HTTP/1.1", "gone").unwrap();
    assert_eq!(
        response,
        format!(
            "HTTP/1.1 200 OK\r\nContent-Length: {}\r\nContent-Type: text/html; charset=utf-8\r\n\r\n{}",
            body.len(),
            body
        )
    );
}

#[test]
fn static_str_route_is_served_as_plain_text() {
    let router = demo_router();
    let response = router
        .handle_request("GET /conestr HTTP/1.1", "gone")
        .unwrap();
    assert_eq!(
        response,
        "HTTP/1.1 200 OK\r\nContent-Length: 8\r\nContent-Type: text/plain; charset=utf-8\r\n\r\ncone str"
    );
}

#[test]
fn duplicate_route_fails_and_first_handler_stays() {
    let mut router = demo_router();
    let second = router.new_route("/cone", String::from("other"));
    assert_eq!(second, Err(HttpError::AlreadyExists));
    let response = router.handle_request("GET /cone HTTP/1.1", "gone").unwrap();
    assert!(response.ends_with("cone string"));
    assert_eq!(router.paths().len(), 3);
}

#[test]
fn unregistered_path_yields_exact_not_found_response() {
    let router = demo_router();
    let response = router
        .handle_request("GET /missing HTTP/1.1", "not found")
        .unwrap();
    assert_eq!(
        response,
        "HTTP/1.1 404 NOT FOUND\r\nContent-Length: 9\r\n\r\nnot found"
    );
}

#[test]
fn repeated_request_yields_identical_responses() {
    let router = demo_router();
    let first = router.handle_request("GET /cone HTTP/1.1", "gone").unwrap();
    let second = router.handle_request("GET /cone HTTP/1.1", "gone").unwrap();
    assert_eq!(first, second);
    let miss1 = router.handle_request("GET /nope HTTP/1.1", "gone").unwrap();
    let miss2 = router.handle_request("GET /nope HTTP/1.1", "gone").unwrap();
    assert_eq!(miss1, miss2);
}

#[test]
fn connection_without_data_is_premature_eof() {
    assert_eq!(
        require_request_line(None),
        Err(HttpError::PrematureEof)
    );
    assert_eq!(
        require_request_line(Some(String::from("GET / HTTP/1.1"))),
        Ok(String::from("GET / HTTP/1.1"))
    );
}

#[test]
fn malformed_request_line_is_rejected() {
    let router = demo_router();
    assert_eq!(
        router.handle_request("GET", "gone"),
        Err(HttpError::MalformedRequestLine)
    );
    assert_eq!(
        router.handle_request("", "gone"),
        Err(HttpError::MalformedRequestLine)
    );
    assert_eq!(
        router.handle_request("   ", "gone"),
        Err(HttpError::MalformedRequestLine)
    );
    assert_eq!(
        router.handle_request("GET ", "gone"),
        Err(HttpError::MalformedRequestLine)
    );
}

#[test]
fn parse_request_path_takes_second_token() {
    assert_eq!(
        parse_request_path("GET /cone HTTP/1.1"),
        Some(String::from("/cone"))
    );
    assert_eq!(
        parse_request_path("  POST\t/x\r"),
        Some(String::from("/x"))
    );
    assert_eq!(parse_request_path("GET /x"), Some(String::from("/x")));
    assert_eq!(parse_request_path("lonely"), None);
    assert_eq!(parse_request_path(""), None);
    assert_eq!(parse_request_path(" \t "), None);
}

#[test]
fn route_match_is_exact_and_case_sensitive() {
    let router = demo_router();
    assert!(router.contains_route("/cone"));
    assert!(!router.contains_route("/Cone"));
    assert!(!router.contains_route("/cone/"));
    assert!(!router.contains_route("cone"));
    let miss = router.handle_request("GET /Cone HTTP/1.1", "gone").unwrap();
    assert!(miss.starts_with("HTTP/1.1 404 NOT FOUND\r\n"));
}

#[test]
fn decimal_rendering_is_exact() {
    assert_eq!(usize_to_string(0), "0");
    assert_eq!(usize_to_string(7), "7");
    assert_eq!(usize_to_string(10), "10");
    assert_eq!(usize_to_string(123), "123");
    assert_eq!(usize_to_string(1009), "1009");
    assert_eq!(usize_to_string(usize::MAX), format!("{}", usize::MAX));
}

#[test]
fn content_length_counts_bytes_not_chars() {
    let body = String::from("cöne");
    assert_eq!(body.len(), 5);
    assert_eq!(body.chars().count(), 4);
    let response = body.clone().into_response();
    assert_eq!(
        response,
        format!(
            "HTTP/1.1 200 OK\r\nContent-Length: 5\r\nContent-Type: text/plain; charset=utf-8\r\n\r\n{}",
            body
        )
    );
}

#[test]
fn empty_body_has_content_length_zero() {
    let response = String::new().into_response();
    assert_eq!(
        response,
        "HTTP/1.1 200 OK\r\nContent-Length: 0\r\nContent-Type: text/plain; charset=utf-8\r\n\r\n"
    );
    assert_eq!(
        not_found_response(""),
        "HTTP/1.1 404 NOT FOUND\r\nContent-Length: 0\r\n\r\n"
    );
}

#[test]
fn into_body_and_serialize_agree_with_into_response() {
    let a = String::from("abc").into_body();
    assert!(matches!(a, ResponseBody::PlainText(_)));
    assert_eq!(a.serialize(), String::from("abc").into_response());
    let h = HTMLResponse::new(String::from("<p>x</p>")).into_body();
    assert!(matches!(h, ResponseBody::Html(_)));
    assert_eq!(
        h.serialize(),
        HTMLResponse::new(String::from("<p>x</p>")).into_response()
    );
    let s = "str body".into_body();
    assert_eq!(s.serialize(), "str body".into_response());
}

#[test]
fn not_found_response_is_exact() {
    assert_eq!(
        not_found_response("<h1>404</h1>"),
        "HTTP/1.1 404 NOT FOUND\r\nContent-Length: 12\r\n\r\n<h1>404</h1>"
    );
}

#[test]
fn paths_lists_routes_in_registration_order() {
    let router = demo_router();
    let paths = router.paths();
    assert_eq!(
        paths,
        vec![
            String::from("/cone"),
            String::from("/conestr"),
            String::from("/")
        ]
    );
}

#[test]
fn address_returns_bind_address() {
    let router = Router::new(String::from("0.0.0.0:8080"));
    assert_eq!(router.address(), "0.0.0.0:8080");
    assert_eq!(router.paths().len(), 0);
}

#[test]
fn error_messages_name_each_failure() {
    assert_eq!(HttpError::AlreadyExists.message(), "Route already exists");
    assert_eq!(
        HttpError::BindFailure.message(),
        "Error while binding listener"
    );
    assert_eq!(
        HttpError::AcceptFailure.message(),
        "Error while reading from listener"
    );
    assert_eq!(
        HttpError::PrematureEof.message(),
        "EOF while reading request!"
    );
    assert_eq!(
        HttpError::MalformedRequestLine.message(),
        "Malformed request line"
    );
    assert_eq!(
        HttpError::ContentUnavailable.message(),
        "Couldn't read from file 404.html!"
    );
    assert_eq!(
        HttpError::WriteFailure.message(),
        "Error while writing response"
    );
}

#[test]
fn route_key_syntax_is_not_validated() {
    let mut router = Router::new(String::from("127.0.0.1:7878"));
    router.new_route("no-slash", String::from("a")).unwrap();
    router.new_route("wei?rd=key", String::from("b")).unwrap();
    assert!(router.contains_route("no-slash"));
    assert!(router.contains_route("wei?rd=key"));
    let response = router
        .handle_request("GET no-slash HTTP/1.1", "gone")
        .unwrap();
    assert!(response.ends_with("\r\n\r\na"));
}
