//! Request descriptors: what one block of a request file describes, and the
//! mathematical model of each.

use vstd::prelude::*;
use crate::headers::{HeaderSeq, Headers};
use crate::text::texts;

verus! {

/// The view of an optional string.
pub open spec fn opt_text(o: Option<String>) -> Option<Seq<char>> {
    match o {
        Some(s) => Some(s@),
        None => None,
    }
}

/// An HTTP request block.
#[derive(Debug, Clone)]
pub struct HttpRequest {
    pub name: Option<String>,
    pub method: String,
    pub uri: String,
    pub http_version: Option<String>,
    pub headers: Headers,
    pub body: Option<String>,
    pub comments: Vec<String>,
}

/// One message of a WebSocket script, sent after `wait_for_server` frames
/// from the peer have been read.
#[derive(Debug, Clone)]
pub struct WebSocketMessage {
    pub content: String,
    pub wait_for_server: usize,
}

/// A WebSocket block.
#[derive(Debug, Clone)]
pub struct WebSocketRequest {
    pub uri: String,
    pub headers: Headers,
    pub messages: Vec<WebSocketMessage>,
}

/// A GraphQL block.
#[derive(Debug, Clone)]
pub struct GraphQLRequest {
    pub uri: String,
    pub query: String,
    pub variables: Option<serde_json::Value>,
    pub headers: Headers,
}

/// One message of an RSocket script, sent after `wait_for_server` responses.
#[derive(Debug, Clone)]
pub struct RSocketMessage {
    pub content: String,
    pub wait_for_server: usize,
}

/// An RSocket block, carried over a WebSocket transport.
#[derive(Debug, Clone)]
pub struct RSocketRequest {
    pub uri: String,
    pub headers: Headers,
    pub messages: Vec<RSocketMessage>,
}

/// One parsed block of a request file.
#[derive(Debug, Clone)]
pub enum Request {
    Http(HttpRequest),
    WebSocket(WebSocketRequest),
    GraphQL(GraphQLRequest),
    RSocket(RSocketRequest),
}

/// The model of an HTTP request block.
pub struct HttpModel {
    pub name: Option<Seq<char>>,
    pub method: Seq<char>,
    pub uri: Seq<char>,
    pub http_version: Option<Seq<char>>,
    pub headers: HeaderSeq,
    pub body: Option<Seq<char>>,
    pub comments: Seq<Seq<char>>,
}

/// The model of a WebSocket or RSocket message.
pub struct MessageModel {
    pub content: Seq<char>,
    pub wait_for_server: nat,
}

/// The model of a WebSocket or RSocket block.
pub struct StreamModel {
    pub uri: Seq<char>,
    pub headers: HeaderSeq,
    pub messages: Seq<MessageModel>,
}

/// The model of a GraphQL block.
pub struct GraphQLModel {
    pub uri: Seq<char>,
    pub query: Seq<char>,
    pub variables: Option<serde_json::Value>,
    pub headers: HeaderSeq,
}

/// The model of a parsed block.
pub enum RequestModel {
    Http(HttpModel),
    WebSocket(StreamModel),
    GraphQL(GraphQLModel),
    RSocket(StreamModel),
}

impl View for HttpRequest {
    type V = HttpModel;

    open spec fn view(&self) -> HttpModel {
        HttpModel {
            name: opt_text(self.name),
            method: self.method@,
            uri: self.uri@,
            http_version: opt_text(self.http_version),
            headers: self.headers@,
            body: opt_text(self.body),
            comments: texts(self.comments@),
        }
    }
}

impl View for WebSocketMessage {
    type V = MessageModel;

    open spec fn view(&self) -> MessageModel {
        MessageModel { content: self.content@, wait_for_server: self.wait_for_server as nat }
    }
}

impl View for RSocketMessage {
    type V = MessageModel;

    open spec fn view(&self) -> MessageModel {
        MessageModel { content: self.content@, wait_for_server: self.wait_for_server as nat }
    }
}

impl View for WebSocketRequest {
    type V = StreamModel;

    open spec fn view(&self) -> StreamModel {
        StreamModel {
            uri: self.uri@,
            headers: self.headers@,
            messages: self.messages@.map_values(|m: WebSocketMessage| m@),
        }
    }
}

impl View for RSocketRequest {
    type V = StreamModel;

    open spec fn view(&self) -> StreamModel {
        StreamModel {
            uri: self.uri@,
            headers: self.headers@,
            messages: self.messages@.map_values(|m: RSocketMessage| m@),
        }
    }
}

impl View for GraphQLRequest {
    type V = GraphQLModel;

    open spec fn view(&self) -> GraphQLModel {
        GraphQLModel {
            uri: self.uri@,
            query: self.query@,
            variables: self.variables,
            headers: self.headers@,
        }
    }
}

impl View for Request {
    type V = RequestModel;

    open spec fn view(&self) -> RequestModel {
        match self {
            Request::Http(r) => RequestModel::Http(r@),
            Request::WebSocket(r) => RequestModel::WebSocket(r@),
            Request::GraphQL(r) => RequestModel::GraphQL(r@),
            Request::RSocket(r) => RequestModel::RSocket(r@),
        }
    }
}

/// The models of a sequence of requests.
pub open spec fn request_views(v: Seq<Request>) -> Seq<RequestModel> {
    v.map_values(|r: Request| r@)
}

} // verus!
