//! Parsing and conversion of `.http` request files: the requests of a file
//! as typed descriptors, and a request as a `curl` command.

pub mod body;
pub mod classify;
pub mod config;
pub mod curl;
pub mod env;
pub mod headers;
pub mod json;
pub mod lemmas;
pub mod model;
pub mod parser;
pub mod pattern;
pub mod response;
pub mod session;
pub mod text;
pub mod transport;

pub use config::{HttpClientConfig, HttpVersion, ProxyConfig};
pub use curl::CurlConverter;
pub use env::{CertificateConfig, SslConfiguration};
pub use headers::Headers;
pub use model::{
    GraphQLRequest, HttpRequest, RSocketMessage, RSocketRequest, Request, WebSocketMessage,
    WebSocketRequest,
};
pub use parser::{parse_http_content, HttpFileParser};
pub use response::HttpResponse;
