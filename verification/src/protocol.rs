//! JSON-RPC 2.0 envelope types and MCP result shapes.

pub mod error_codes;

use vstd::prelude::*;
use crate::json::{JsonValue};

verus! {

/// JSON-RPC protocol version string.
pub const JSONRPC_VERSION: &'static str = "2.0";

/// MCP protocol version advertised in `initialize` results.
pub const MCP_PROTOCOL_VERSION: &'static str = "2025-06-18";

/// Generic JSON-RPC request envelope.
pub struct JsonRpcRequest {
    pub jsonrpc: String,
    pub id: Option<JsonValue>,
    pub method: String,
    pub params: JsonValue,
}

/// JSON-RPC notification (no `id`).
pub struct JsonRpcNotification {
    pub jsonrpc: String,
    pub method: String,
    pub params: JsonValue,
}

/// A request or a notification, as read from the wire.
pub enum JsonRpcMessage {
    Request(JsonRpcRequest),
    Notification(JsonRpcNotification),
}

impl JsonRpcMessage {
    pub open spec fn spec_method(&self) -> Seq<char> {
        match self {
            JsonRpcMessage::Request(r) => r.method@,
            JsonRpcMessage::Notification(n) => n.method@,
        }
    }

    /// The method name, whatever the variant.
    pub fn method(&self) -> (r: &String)
        ensures
            r@ == self.spec_method(),
    {
        match self {
            JsonRpcMessage::Request(r) => &r.method,
            JsonRpcMessage::Notification(n) => &n.method,
        }
    }
}

/// A successful JSON-RPC response.
pub struct JsonRpcResponse {
    pub jsonrpc: &'static str,
    pub id: JsonValue,
    pub result: JsonValue,
}

/// A JSON-RPC error response.
pub struct JsonRpcErrorResponse {
    pub jsonrpc: &'static str,
    pub id: JsonValue,
    pub error: RpcError,
}

pub struct RpcError {
    pub code: i32,
    pub message: String,
    pub data: Option<JsonValue>,
}

impl RpcError {
    pub fn new(code: i32, message: String) -> (r: Self)
        ensures
            r.code == code,
            r.message@ == message@,
            r.data is None,
    {
        RpcError { code, message, data: None }
    }

    pub fn with_data(self, data: JsonValue) -> (r: Self)
        ensures
            r.code == self.code,
            r.message@ == self.message@,
            r.data matches Some(d) && d@ == data@,
    {
        let mut e = self;
        e.data = Some(data);
        e
    }
}

/// `initialize` result.
pub struct InitializeResult {
    pub protocol_version: &'static str,
    pub capabilities: ServerCapabilities,
    pub server_info: ServerInfo,
    pub instructions: String,
}

pub struct ServerCapabilities {
    pub tools: ToolsCapability,
    pub resources: ResourcesCapability,
}

pub struct ToolsCapability {
    pub list_changed: bool,
}

pub struct ResourcesCapability {
    pub subscribe: bool,
    pub list_changed: bool,
}

pub struct ServerInfo {
    pub name: String,
    pub version: String,
}

/// `tools/list` result.
pub struct ListToolsResult {
    pub tools: Vec<ToolDescriptor>,
}

pub struct ToolDescriptor {
    pub name: String,
    pub description: String,
    pub input_schema: JsonValue,
}

/// `tools/call` result: typed content blocks; `is_error` marks a tool-level
/// error.
pub struct CallToolResult {
    pub content: Vec<ContentBlock>,
    pub is_error: Option<bool>,
}

/// A content block of a `tools/call` result.
pub enum ContentBlock {
    Text { text: String },
    Image { data: String, mime_type: String },
}

impl ContentBlock {
    pub fn text(text: String) -> (r: Self)
        ensures
            r matches ContentBlock::Text { text: t } && t@ == text@,
    {
        ContentBlock::Text { text }
    }
}

impl CallToolResult {
    /// One text block, not an error.
    pub fn text(message: String) -> (r: Self)
        ensures
            r.content@.len() == 1,
            r.content@[0] matches ContentBlock::Text { text: t } && t@ == message@,
            r.is_error is None,
    {
        let mut content: Vec<ContentBlock> = Vec::new();
        content.push(ContentBlock::text(message));
        CallToolResult { content, is_error: None }
    }

    /// One text block, flagged as an error.
    pub fn error(message: String) -> (r: Self)
        ensures
            r.content@.len() == 1,
            r.content@[0] matches ContentBlock::Text { text: t } && t@ == message@,
            r.is_error == Some(true),
    {
        let mut content: Vec<ContentBlock> = Vec::new();
        content.push(ContentBlock::text(message));
        CallToolResult { content, is_error: Some(true) }
    }
}

/// `resources/list` result.
pub struct ListResourcesResult {
    pub resources: Vec<ResourceDescriptor>,
}

pub struct ResourceDescriptor {
    pub uri: String,
    pub name: String,
    pub description: String,
    pub mime_type: String,
}

/// `resources/read` result.
pub struct ReadResourceResult {
    pub contents: Vec<ResourceContent>,
}

pub struct ResourceContent {
    pub uri: String,
    pub mime_type: String,
    pub text: String,
}

} // verus!
