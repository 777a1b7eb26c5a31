pub mod client_registry;
pub mod file_storage;
pub mod handler;
pub mod http_header;
pub mod http_request;
pub mod http_request_parser;
pub mod http_response;
pub mod http_router;
pub mod http_session;
pub mod keyed;
pub mod method;
pub mod text;
pub mod ws_message;
pub mod ws_server;
pub mod ws_session;
