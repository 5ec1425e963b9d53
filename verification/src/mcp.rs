//! The MCP server's own decisions: what `initialize` answers, which
//! resources it offers and what they hold, where a JSON-RPC method goes,
//! the HTTP probe's result, and the log line format.

use vstd::prelude::*;
use crate::catalog::{image_catalog_json, image_models_json, video_catalog_json, video_models_json};
use crate::json::{Json, JsonValue};
use crate::protocol::error_codes::{INVALID_PARAMS, METHOD_NOT_FOUND};
use crate::protocol::{
    InitializeResult, ListResourcesResult, MCP_PROTOCOL_VERSION, ReadResourceResult, ResourceContent, ResourceDescriptor,
    ResourcesCapability, RpcError, ServerCapabilities, ServerInfo, ToolsCapability,
};
use crate::text::{push_str, str_eq, string_of};

verus! {

/// The port the server binds on `127.0.0.1` unless told otherwise.
pub const MCP_DEFAULT_PORT: u16 = 19789;

/// The name the server gives in `initialize`.
pub const SERVER_NAME: &'static str = "palmier-pro";

/// The version the server gives in `initialize`.
pub const SERVER_VERSION: &'static str = "1.0.0";

/// Where the server listens.
pub struct McpServerConfig {
    pub port: u16,
}

impl Default for McpServerConfig {
    fn default() -> (r: Self)
        ensures
            r.port == MCP_DEFAULT_PORT,
    {
        McpServerConfig { port: MCP_DEFAULT_PORT }
    }
}

/// The `initialize` answer: protocol `2025-06-18`, no list-change or
/// subscription support, server `palmier-pro` `1.0.0`, and the given
/// instructions.
pub fn initialize_result(instructions: String) -> (r: InitializeResult)
    ensures
        r.protocol_version == MCP_PROTOCOL_VERSION,
        !r.capabilities.tools.list_changed,
        !r.capabilities.resources.subscribe,
        !r.capabilities.resources.list_changed,
        r.server_info.name@ == SERVER_NAME@,
        r.server_info.version@ == SERVER_VERSION@,
        r.instructions@ == instructions@,
{
    InitializeResult {
        protocol_version: MCP_PROTOCOL_VERSION,
        capabilities: ServerCapabilities {
            tools: ToolsCapability { list_changed: false },
            resources: ResourcesCapability { subscribe: false, list_changed: false },
        },
        server_info: ServerInfo { name: string_of(SERVER_NAME), version: string_of(SERVER_VERSION) },
        instructions,
    }
}

/// The answer to `ping`: an empty object.
pub fn ping_result() -> (r: JsonValue)
    ensures
        r@ == Json::Object(Seq::empty()),
{
    let r = JsonValue::Object(Vec::new());
    assert(r@.members() =~= Seq::<(Seq<char>, Json)>::empty());
    r
}

/// The answer to `initialized` / `notifications/initialized`: `null`.
pub fn acknowledge_result() -> (r: JsonValue)
    ensures
        r@ == Json::Null,
{
    JsonValue::Null
}

/// The `resources/read` answer: one JSON content block for `uri` holding
/// `text` (the resource body as written out).
pub fn read_resource_result(uri: String, text: String) -> (r: ReadResourceResult)
    ensures
        r.contents@.len() == 1,
        r.contents@[0].uri@ == uri@,
        r.contents@[0].mime_type@ == "application/json"@,
        r.contents@[0].text@ == text@,
{
    let mut contents: Vec<ResourceContent> = Vec::new();
    contents.push(ResourceContent { uri, mime_type: string_of("application/json"), text });
    ReadResourceResult { contents }
}

/// The URI of the video model catalog.
pub open spec fn video_uri() -> Seq<char> {
    "palmier://models/video"@
}

/// The URI of the image model catalog.
pub open spec fn image_uri() -> Seq<char> {
    "palmier://models/image"@
}

/// A resource descriptor as plain values: URI, name, description, MIME type.
pub open spec fn descriptor_view(d: ResourceDescriptor) -> (Seq<char>, Seq<char>, Seq<char>, Seq<char>) {
    (d.uri@, d.name@, d.description@, d.mime_type@)
}

/// The two resources: the video and the image model catalogs, as JSON.
pub fn list_resources() -> (r: ListResourcesResult)
    ensures
        r.resources@.len() == 2,
        descriptor_view(r.resources@[0]) == (
            video_uri(),
            "Video Models"@,
            "Available AI video generation models and their capabilities"@,
            "application/json"@,
        ),
        descriptor_view(r.resources@[1]) == (
            image_uri(),
            "Image Models"@,
            "Available AI image generation models and their capabilities"@,
            "application/json"@,
        ),
{
    let mut resources: Vec<ResourceDescriptor> = Vec::new();
    resources.push(
        ResourceDescriptor {
            uri: string_of("palmier://models/video"),
            name: string_of("Video Models"),
            description: string_of("Available AI video generation models and their capabilities"),
            mime_type: string_of("application/json"),
        },
    );
    resources.push(
        ResourceDescriptor {
            uri: string_of("palmier://models/image"),
            name: string_of("Image Models"),
            description: string_of("Available AI image generation models and their capabilities"),
            mime_type: string_of("application/json"),
        },
    );
    ListResourcesResult { resources }
}

/// What a resource holds: a catalog without the `type` field, or for an
/// unknown URI the string `Unknown resource: <uri>`.
pub open spec fn spec_resource_body(uri: Seq<char>) -> Json {
    if uri == video_uri() {
        video_catalog_json(false)
    } else if uri == image_uri() {
        image_catalog_json(false)
    } else {
        Json::Str("Unknown resource: "@ + uri)
    }
}

/// The JSON body of the resource at `uri`.
pub fn resource_body(uri: &str) -> (r: JsonValue)
    ensures
        r@ == spec_resource_body(uri@),
{
    if str_eq(uri, "palmier://models/video") {
        video_models_json()
    } else if str_eq(uri, "palmier://models/image") {
        image_models_json()
    } else {
        let mut m = string_of("Unknown resource: ");
        push_str(&mut m, uri);
        JsonValue::Str(m)
    }
}

/// Where a JSON-RPC method goes.
pub enum MethodRoute {
    Initialize,
    /// `initialized` / `notifications/initialized`: answered with `null`.
    Acknowledge,
    /// `ping`: answered with `{}`.
    Ping,
    ListTools,
    CallTool { name: String, arguments: JsonValue },
    ListResources,
    ReadResource { uri: String },
}

/// A route as plain values.
pub enum RouteView {
    Initialize,
    Acknowledge,
    Ping,
    ListTools,
    CallTool(Seq<char>, Json),
    ListResources,
    ReadResource(Seq<char>),
}

impl View for MethodRoute {
    type V = RouteView;

    open spec fn view(&self) -> RouteView {
        match self {
            MethodRoute::Initialize => RouteView::Initialize,
            MethodRoute::Acknowledge => RouteView::Acknowledge,
            MethodRoute::Ping => RouteView::Ping,
            MethodRoute::ListTools => RouteView::ListTools,
            MethodRoute::CallTool { name, arguments } => RouteView::CallTool(name@, arguments@),
            MethodRoute::ListResources => RouteView::ListResources,
            MethodRoute::ReadResource { uri } => RouteView::ReadResource(uri@),
        }
    }
}

/// The string member `key` of `params`.
pub open spec fn param_str(params: Json, key: Seq<char>) -> Option<Seq<char>> {
    match params.get(key) {
        Some(v) => v.as_str(),
        None => None,
    }
}

/// The route of `method`, or the JSON-RPC error code and message: the
/// method is unknown, or `tools/call` has no string `name`, or
/// `resources/read` no string `uri`. A missing `arguments` is `{}`.
pub open spec fn spec_route(method: Seq<char>, params: Json) -> Result<RouteView, (i32, Seq<char>)> {
    if method == "initialize"@ {
        Ok(RouteView::Initialize)
    } else if method == "initialized"@ || method == "notifications/initialized"@ {
        Ok(RouteView::Acknowledge)
    } else if method == "ping"@ {
        Ok(RouteView::Ping)
    } else if method == "tools/list"@ {
        Ok(RouteView::ListTools)
    } else if method == "tools/call"@ {
        match param_str(params, "name"@) {
            Some(name) => Ok(
                RouteView::CallTool(
                    name,
                    match params.get("arguments"@) {
                        Some(a) => a,
                        None => Json::Object(Seq::empty()),
                    },
                ),
            ),
            None => Err((INVALID_PARAMS, "Missing 'name' in tools/call params"@)),
        }
    } else if method == "resources/list"@ {
        Ok(RouteView::ListResources)
    } else if method == "resources/read"@ {
        match param_str(params, "uri"@) {
            Some(uri) => Ok(RouteView::ReadResource(uri)),
            None => Err((INVALID_PARAMS, "Missing 'uri' in resources/read params"@)),
        }
    } else {
        Err((METHOD_NOT_FOUND, "Method not found: "@ + method))
    }
}

/// Decides where the JSON-RPC `method` with `params` goes.
pub fn route_method(method: &str, params: &JsonValue) -> (r: Result<MethodRoute, RpcError>)
    ensures
        match spec_route(method@, params@) {
            Ok(v) => r matches Ok(route) && route@ == v,
            Err((code, message)) => r matches Err(e) && e.code == code && e.message@ == message && e.data is None,
        },
{
    if str_eq(method, "initialize") {
        Ok(MethodRoute::Initialize)
    } else if str_eq(method, "initialized") || str_eq(method, "notifications/initialized") {
        Ok(MethodRoute::Acknowledge)
    } else if str_eq(method, "ping") {
        Ok(MethodRoute::Ping)
    } else if str_eq(method, "tools/list") {
        Ok(MethodRoute::ListTools)
    } else if str_eq(method, "tools/call") {
        let name = match params.get("name") {
            Some(v) => v.as_str(),
            None => None,
        };
        match name {
            Some(n) => {
                let arguments = match params.get("arguments") {
                    Some(a) => a.duplicate(),
                    None => JsonValue::object(),
                };
                Ok(MethodRoute::CallTool { name: n.clone(), arguments })
            },
            None => Err(RpcError::new(INVALID_PARAMS, string_of("Missing 'name' in tools/call params"))),
        }
    } else if str_eq(method, "resources/list") {
        Ok(MethodRoute::ListResources)
    } else if str_eq(method, "resources/read") {
        let uri = match params.get("uri") {
            Some(v) => v.as_str(),
            None => None,
        };
        match uri {
            Some(u) => Ok(MethodRoute::ReadResource { uri: u.clone() }),
            None => Err(RpcError::new(INVALID_PARAMS, string_of("Missing 'uri' in resources/read params"))),
        }
    } else {
        let mut m = string_of("Method not found: ");
        push_str(&mut m, method);
        Err(RpcError::new(METHOD_NOT_FOUND, m))
    }
}

/// What the probe of the MCP server's OAuth resource endpoint found.
pub struct ProbeResult {
    /// The HTTP status, if a response came.
    pub status: Option<u16>,
    /// The response body, if it could be read.
    pub body: Option<String>,
    /// Why the probe failed, if it did.
    pub error: Option<String>,
}

impl ProbeResult {
    /// A probe that got an HTTP response (whatever its status).
    pub fn answered(status: u16, body: Option<String>) -> (r: Self)
        ensures
            r.status == Some(status),
            r.body == body,
            r.error is None,
    {
        ProbeResult { status: Some(status), body, error: None }
    }

    /// A probe that never got a response.
    pub fn failed(error: String) -> (r: Self)
        ensures
            r.status is None,
            r.body is None,
            r.error == Some(error),
    {
        ProbeResult { status: None, body: None, error: Some(error) }
    }
}

/// `[module] what: detail`, or `[module] what` when the detail is absent
/// or empty.
pub open spec fn spec_format_line(module: Seq<char>, what: Seq<char>, detail: Option<Seq<char>>) -> Seq<char> {
    match detail {
        Some(d) if d.len() > 0 => "["@ + module + "] "@ + what + ": "@ + d,
        _ => "["@ + module + "] "@ + what,
    }
}

/// The log line for `module`, `what` and an optional detail.
pub fn format_line(module: &str, what: &str, detail: Option<&str>) -> (r: String)
    ensures
        r@ == spec_format_line(module@, what@, match detail {
            Some(d) => Some(d@),
            None => None,
        }),
{
    let mut s = string_of("[");
    push_str(&mut s, module);
    push_str(&mut s, "] ");
    push_str(&mut s, what);
    match detail {
        Some(d) => {
            if d.unicode_len() > 0 {
                push_str(&mut s, ": ");
                push_str(&mut s, d);
            }
        },
        None => {},
    }
    s
}

} // verus!
