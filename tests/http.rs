use std::sync::Arc;
use websocket_chat::file_storage::FileStorage;
use websocket_chat::handler::{
    extension_to_http_mimo_type, Handler, Middleware, RequestLogger, StaticFileHandler,
};
use websocket_chat::http_header::HttpHeader;
use websocket_chat::http_request::HttpRequest;
use websocket_chat::http_response::{HttpResponse, StatusType};
use websocket_chat::http_router::HttpRouter;
use websocket_chat::http_session::{is_websocket_request, HttpHandleError, HttpSession, SessionStep};
use websocket_chat::method::Method;
use websocket_chat::ws_server::WsServer;

fn store() -> Arc<FileStorage> {
    let mut files = FileStorage::empty();
    files.insert("index.html".to_string(), b"<html>index</html>".to_vec());
    files.insert("script.js".to_string(), b"let a = 1;".to_vec());
    files.insert("favicon.png".to_string(), vec![137, 80, 78, 71]);
    files.insert("404.html".to_string(), b"<html>missing</html>".to_vec());
    files.insert("405.html".to_string(), b"<html>not allowed</html>".to_vec());
    files.insert("notes.txt".to_string(), b"plain".to_vec());
    Arc::new(files)
}

fn logged(files: &Arc<FileStorage>, name: &str) -> Handler {
    Handler::Middleware(Box::new(Middleware::new(
        Handler::Logger(RequestLogger::new()),
        Handler::StaticFile(StaticFileHandler::new(files.clone(), name.to_string())),
    )))
}

fn router() -> (Arc<FileStorage>, Arc<HttpRouter>) {
    let files = store();
    let mut router = HttpRouter::new(files.clone());
    router.add_route(Method::Get, "/".to_string(), logged(&files, "index.html"));
    router.add_route(Method::Get, "/index.html".to_string(), logged(&files, "index.html"));
    router.add_route(
        Method::Get,
        "/script.js".to_string(),
        Handler::StaticFile(StaticFileHandler::new(files.clone(), "script.js".to_string())),
    );
    router.add_route(Method::Get, "/favicon.ico".to_string(), logged(&files, "favicon.png"));
    router.add_route(
        Method::Get,
        "/notes".to_string(),
        Handler::StaticFile(StaticFileHandler::new(files.clone(), "notes.txt".to_string())),
    );
    router.add_route(
        Method::Get,
        "/gone".to_string(),
        Handler::StaticFile(StaticFileHandler::new(files.clone(), "gone.html".to_string())),
    );
    (files, Arc::new(router))
}

fn starts_with(hay: &[u8], needle: &str) -> bool {
    hay.starts_with(needle.as_bytes())
}

fn contains(hay: &[u8], needle: &str) -> bool {
    hay.windows(needle.len()).any(|w| w == needle.as_bytes())
}

/// Runs a request through a fresh session in one chunk.
fn serve(request: &str) -> (SessionStep, Vec<u8>, Vec<String>) {
    let (_, router) = router();
    let mut session = HttpSession::new(router);
    let step = session.on_peeked(request.as_bytes());
    let mut log = Vec::new();
    let bytes = match step {
        SessionStep::Drain(_) => session.respond(&mut log),
        _ => Vec::new(),
    };
    (step, bytes, log)
}

#[test]
fn simple_get_serves_index() {
    let request = "GET / HTTP/1.1\r\nHost: x\r\n\r\n";
    let (step, bytes, log) = serve(request);
    assert_eq!(step, SessionStep::Drain(request.len()));
    assert!(starts_with(&bytes, "HTTP/1.1 200 Ok\r\n"));
    assert!(contains(&bytes, "Content-Type: text/html\r\n"));
    assert!(bytes.ends_with(b"\r\n\r\n<html>index</html>"));
    assert_eq!(log[0], "Method: GET");
    assert_eq!(log[1], "Uri: /");
    assert_eq!(log[2], "Version: HTTP/1.1");
    assert_eq!(log[3], "Headers:");
    assert_eq!(log[4], "\tHost: x");
    assert_eq!(log.len(), 5);
}

#[test]
fn unknown_uri_gets_not_found() {
    let (_, bytes, log) = serve("GET /missing HTTP/1.1\r\n\r\n");
    assert!(starts_with(&bytes, "HTTP/1.1 404 Not Found\r\n"));
    assert!(contains(&bytes, "Content-Type: text/html\r\n"));
    assert!(bytes.ends_with(b"<html>missing</html>"));
    assert!(log.is_empty());
}

#[test]
fn unknown_method_gets_not_allowed() {
    let (_, bytes, _) = serve("FROB / HTTP/1.1\r\n\r\n");
    assert!(starts_with(&bytes, "HTTP/1.1 405 Method Not Allowed\r\n"));
    assert!(bytes.ends_with(b"<html>not allowed</html>"));
}

#[test]
fn method_without_routes_gets_not_allowed() {
    let (_, bytes, _) = serve("POST / HTTP/1.1\r\n\r\n");
    assert!(starts_with(&bytes, "HTTP/1.1 405 Method Not Allowed\r\n"));
    assert!(bytes.ends_with(b"<html>not allowed</html>"));
}

#[test]
fn malformed_request_line_is_a_parse_error() {
    let (step, bytes, _) = serve("GET /\r\n\r\n");
    assert_eq!(step, SessionStep::Stop(HttpHandleError::ParseRequestError));
    assert!(bytes.is_empty());
}

#[test]
fn upgrade_request_is_left_unread() {
    let request = "GET /chat HTTP/1.1\r\nHost: x\r\nUpgrade: websocket\r\nConnection: Upgrade\r\n\r\n";
    let (step, bytes, _) = serve(request);
    assert_eq!(step, SessionStep::Stop(HttpHandleError::WebsocketProtocol));
    assert!(bytes.is_empty());
}

#[test]
fn upgrade_value_is_case_sensitive() {
    let (step, _, _) = serve("GET / HTTP/1.1\r\nUpgrade: WebSocket\r\n\r\n");
    assert_eq!(step, SessionStep::Drain(38));
}

#[test]
fn chunks_are_drained_in_total() {
    let (_, router) = router();
    let mut session = HttpSession::new(router);
    assert_eq!(session.on_peeked(b"GET /script.js HT"), SessionStep::PeekMore);
    assert_eq!(session.on_peeked(b"TP/1.1\r\n"), SessionStep::PeekMore);
    assert_eq!(session.on_peeked(b"\r\n"), SessionStep::Drain(27));
    let mut log = Vec::new();
    let bytes = session.respond(&mut log);
    assert!(starts_with(&bytes, "HTTP/1.1 200 Ok\r\n"));
    assert!(contains(&bytes, "Content-Type: text/javascript\r\n"));
    assert!(bytes.ends_with(b"let a = 1;"));
    assert!(log.is_empty());
    assert_eq!(session.request().uri, "/script.js");
}

#[test]
fn empty_peek_is_a_connection_error() {
    let (_, router) = router();
    let mut session = HttpSession::new(router);
    assert_eq!(session.on_peeked(b""), SessionStep::Stop(HttpHandleError::SocketConnectionError));
}

#[test]
fn invalid_utf8_is_a_parse_error() {
    let (_, router) = router();
    let mut session = HttpSession::new(router);
    assert_eq!(session.on_peeked(&[0x47, 0xff, 0x20]), SessionStep::Stop(HttpHandleError::ParseRequestError));
}

#[test]
fn favicon_is_png() {
    let (_, bytes, _) = serve("GET /favicon.ico HTTP/1.1\r\n\r\n");
    assert!(contains(&bytes, "Content-Type: image/png\r\n"));
    assert!(bytes.ends_with(&[137, 80, 78, 71]));
}

#[test]
fn unknown_extension_is_an_internal_error() {
    let (_, bytes, _) = serve("GET /notes HTTP/1.1\r\n\r\n");
    assert_eq!(bytes, b"HTTP/1.1 500 Internal Server Error\r\n\r\n".to_vec());
}

#[test]
fn missing_static_file_gets_not_found() {
    let (_, bytes, _) = serve("GET /gone HTTP/1.1\r\n\r\n");
    assert!(starts_with(&bytes, "HTTP/1.1 404 Not Found\r\n"));
    assert!(bytes.ends_with(b"<html>missing</html>"));
}

#[test]
fn response_bytes_layout() {
    let mut headers = Vec::new();
    headers.push(HttpHeader::new("A", "1"));
    headers.push(HttpHeader::new("B", "two"));
    let response = HttpResponse::new(StatusType::NotFound, headers, b"xy".to_vec());
    assert_eq!(response.bytes(), b"HTTP/1.1 404 Not Found\r\nA: 1\r\nB: two\r\n\r\nxy".to_vec());
    assert_eq!(HttpResponse::default().bytes(), b"HTTP/1.1 200 Ok\r\n\r\n".to_vec());
}

#[test]
fn status_codes_and_reasons() {
    assert_eq!(StatusType::Success.code(), 200);
    assert_eq!(StatusType::NotFound.code(), 404);
    assert_eq!(StatusType::MethodNotAllowed.code(), 405);
    assert_eq!(StatusType::InternalServerError.code(), 500);
    assert_eq!(StatusType::Success.to_string(), "Ok");
    assert_eq!(StatusType::InternalServerError.to_string(), "Internal Server Error");
}

#[test]
fn method_names() {
    assert_eq!(Method::from_str("GET"), Ok(Method::Get));
    assert_eq!(Method::from_str("POST"), Ok(Method::Post));
    assert_eq!(Method::from_str("UPDATE"), Ok(Method::Update));
    assert_eq!(Method::from_str("DELETE"), Ok(Method::Delete));
    assert_eq!(Method::from_str("PUT"), Err(()));
    assert_eq!(Method::from_str("get"), Err(()));
}

#[test]
fn media_types() {
    assert_eq!(extension_to_http_mimo_type(".html"), Some("text/html"));
    assert_eq!(extension_to_http_mimo_type(".css"), Some("text/css"));
    assert_eq!(extension_to_http_mimo_type(".png"), Some("image/png"));
    assert_eq!(extension_to_http_mimo_type(".js"), Some("text/javascript"));
    assert_eq!(extension_to_http_mimo_type(".txt"), None);
}

#[test]
fn file_storage_lookup() {
    let mut files = FileStorage::empty();
    assert!(files.get("a").is_none());
    files.insert("a".to_string(), vec![1]);
    files.insert("b".to_string(), vec![2]);
    files.insert("a".to_string(), vec![3]);
    assert_eq!(files.get("a"), Some(&vec![3]));
    assert_eq!(files.get("b"), Some(&vec![2]));
    assert!(files.get("c").is_none());
}

#[test]
fn later_route_replaces_earlier() {
    let files = store();
    let mut router = HttpRouter::new(files.clone());
    router.add_route(
        Method::Get,
        "/".to_string(),
        Handler::StaticFile(StaticFileHandler::new(files.clone(), "script.js".to_string())),
    );
    router.add_route(
        Method::Get,
        "/".to_string(),
        Handler::StaticFile(StaticFileHandler::new(files.clone(), "index.html".to_string())),
    );
    let mut request = HttpRequest::default();
    request.method = "GET".to_string();
    request.uri = "/".to_string();
    let mut response = HttpResponse::default();
    let mut log = Vec::new();
    router.handle(&request, &mut response, &mut log);
    assert_eq!(response.body, b"<html>index</html>".to_vec());
}

#[test]
fn websocket_header_detection() {
    let mut headers = Vec::new();
    assert!(!is_websocket_request(&headers));
    headers.push(HttpHeader::new("Upgrade", "h2c"));
    assert!(!is_websocket_request(&headers));
    headers.push(HttpHeader::new("Upgrade", "websocket"));
    assert!(is_websocket_request(&headers));
}

#[test]
fn server_shares_its_router() {
    let (files, _) = router();
    let server = WsServer::new(HttpRouter::new(files));
    let mut session = HttpSession::new(server.router().clone());
    assert_eq!(session.on_peeked(b"GET / HTTP/1.1\r\n\r\n"), SessionStep::Drain(18));
    let mut log = Vec::new();
    let bytes = session.respond(&mut log);
    assert!(starts_with(&bytes, "HTTP/1.1 405 Method Not Allowed\r\n"));
}
