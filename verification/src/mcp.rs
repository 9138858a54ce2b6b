//! How the MCP server answers: which JSON-RPC methods it serves, which tools
//! it offers, and the error codes and messages of its refusals.

use vstd::prelude::*;
use crate::text::{chars_of, concat2, eq_chars, starts_with, starts_with_str};

verus! {

/// The protocol version the server announces.
pub const PROTOCOL_VERSION: &'static str = "2025-06-18";

/// The name the server announces.
pub const SERVER_NAME: &'static str = "plugin-image";

/// The server's own version.
pub const SERVER_VERSION: &'static str = "2.0.2";

/// A request line that is not JSON.
pub const PARSE_ERROR: i64 = -32700;

/// A method the server does not serve.
pub const METHOD_NOT_FOUND: i64 = -32601;

/// A tool call that failed.
pub const TOOL_FAILED: i64 = -32000;

/// What a JSON-RPC method asks of the server.
#[derive(Debug, Clone, Copy, PartialEq, Eq, Structural)]
pub enum McpMethod {
    Initialize,
    ListTools,
    CallTool,
    /// A notification: it gets no answer.
    Notification,
    Unknown,
}

/// The tools the server offers.
#[derive(Debug, Clone, Copy, PartialEq, Eq, Structural)]
pub enum Tool {
    ListImageModels,
    InstallImageModel,
    InstallImageRuntime,
    GenerateImage,
    EditImageRegion,
}

pub open spec fn method_of(name: Seq<char>) -> McpMethod {
    if name == "initialize"@ {
        McpMethod::Initialize
    } else if name == "tools/list"@ {
        McpMethod::ListTools
    } else if name == "tools/call"@ {
        McpMethod::CallTool
    } else if starts_with(name, "notifications/"@) {
        McpMethod::Notification
    } else {
        McpMethod::Unknown
    }
}

pub open spec fn tool_of(name: Seq<char>) -> Option<Tool> {
    if name == "list_image_models"@ {
        Some(Tool::ListImageModels)
    } else if name == "install_image_model"@ {
        Some(Tool::InstallImageModel)
    } else if name == "install_image_runtime"@ {
        Some(Tool::InstallImageRuntime)
    } else if name == "generate_image"@ {
        Some(Tool::GenerateImage)
    } else if name == "edit_image_region"@ {
        Some(Tool::EditImageRegion)
    } else {
        None
    }
}

pub open spec fn tool_name_of(tool: Tool) -> Seq<char> {
    match tool {
        Tool::ListImageModels => "list_image_models"@,
        Tool::InstallImageModel => "install_image_model"@,
        Tool::InstallImageRuntime => "install_image_runtime"@,
        Tool::GenerateImage => "generate_image"@,
        Tool::EditImageRegion => "edit_image_region"@,
    }
}

/// What the request's `method` asks for; an absent method reads as the
/// empty one.
pub fn classify_method(name: &str) -> (m: McpMethod)
    ensures
        m == method_of(name@),
{
    let v = chars_of(name);
    if eq_chars(&v, "initialize") {
        McpMethod::Initialize
    } else if eq_chars(&v, "tools/list") {
        McpMethod::ListTools
    } else if eq_chars(&v, "tools/call") {
        McpMethod::CallTool
    } else if starts_with_str(&v, "notifications/") {
        McpMethod::Notification
    } else {
        McpMethod::Unknown
    }
}

/// The tool a `tools/call` names, if the server offers it.
pub fn tool_named(name: &str) -> (tool: Option<Tool>)
    ensures
        tool == tool_of(name@),
{
    let v = chars_of(name);
    if eq_chars(&v, "list_image_models") {
        Some(Tool::ListImageModels)
    } else if eq_chars(&v, "install_image_model") {
        Some(Tool::InstallImageModel)
    } else if eq_chars(&v, "install_image_runtime") {
        Some(Tool::InstallImageRuntime)
    } else if eq_chars(&v, "generate_image") {
        Some(Tool::GenerateImage)
    } else if eq_chars(&v, "edit_image_region") {
        Some(Tool::EditImageRegion)
    } else {
        None
    }
}

/// The name under which a tool is offered.
pub fn tool_name(tool: Tool) -> (name: &'static str)
    ensures
        name@ == tool_name_of(tool),
{
    match tool {
        Tool::ListImageModels => "list_image_models",
        Tool::InstallImageModel => "install_image_model",
        Tool::InstallImageRuntime => "install_image_runtime",
        Tool::GenerateImage => "generate_image",
        Tool::EditImageRegion => "edit_image_region",
    }
}

/// A tool's name leads back to the tool.
pub proof fn tool_names_are_recognised(tool: Tool)
    ensures
        tool_of(tool_name_of(tool)) == Some(tool),
{
    reveal_strlit("list_image_models");
    reveal_strlit("install_image_model");
    reveal_strlit("install_image_runtime");
    reveal_strlit("generate_image");
    reveal_strlit("edit_image_region");
    let l = "list_image_models"@;
    let im = "install_image_model"@;
    let ir = "install_image_runtime"@;
    let g = "generate_image"@;
    let e = "edit_image_region"@;
    assert(l.len() != im.len() && l.len() != ir.len() && l.len() != g.len() && l[0] != e[0]);
    assert(im.len() != ir.len() && im.len() != g.len() && im.len() != e.len());
    assert(ir.len() != g.len() && ir.len() != e.len());
    assert(g.len() != e.len());
}

/// Every tool the server offers, in the order it lists them.
pub fn offered_tools() -> (tools: Vec<Tool>)
    ensures
        tools@ == offered_tools_seq(),
{
    let tools = vec![
        Tool::ListImageModels,
        Tool::InstallImageModel,
        Tool::InstallImageRuntime,
        Tool::GenerateImage,
        Tool::EditImageRegion,
    ];
    proof {
        assert(tools@ =~= seq![
            Tool::ListImageModels,
            Tool::InstallImageModel,
            Tool::InstallImageRuntime,
            Tool::GenerateImage,
            Tool::EditImageRegion,
        ]);
    }
    tools
}

/// The refusal of a method the server does not serve.
pub fn unknown_method_message(name: &str) -> (msg: String)
    ensures
        msg@ == "méthode MCP inconnue : "@ + name@,
{
    concat2("méthode MCP inconnue : ", name)
}

/// The refusal of a tool the server does not offer.
pub fn unknown_tool_message(name: &str) -> (msg: String)
    ensures
        msg@ == "outil image inconnu : "@ + name@,
{
    concat2("outil image inconnu : ", name)
}

/// The tools offered, in the order they are listed.
pub open spec fn offered_tools_seq() -> Seq<Tool> {
    seq![
        Tool::ListImageModels,
        Tool::InstallImageModel,
        Tool::InstallImageRuntime,
        Tool::GenerateImage,
        Tool::EditImageRegion,
    ]
}

/// The names handled are exactly the names offered: a name leads to a tool
/// exactly when it is that tool's offered name, every tool is offered, and
/// any other name is refused.
pub proof fn offered_names_are_the_handled_names(n: Seq<char>, t: Tool)
    ensures
        tool_of(n) == Some(t) <==> n == tool_name_of(t),
        offered_tools_seq().contains(t),
        tool_of(n) is None <==> forall|k: int|
            0 <= k < offered_tools_seq().len() ==> n != tool_name_of(#[trigger] offered_tools_seq()[k]),
{
    tool_names_are_recognised(t);
    let o = offered_tools_seq();
    assert(o[0] == Tool::ListImageModels && o[1] == Tool::InstallImageModel && o[2] == Tool::InstallImageRuntime);
    assert(o[3] == Tool::GenerateImage && o[4] == Tool::EditImageRegion);
    match t {
        Tool::ListImageModels => assert(o[0] == t),
        Tool::InstallImageModel => assert(o[1] == t),
        Tool::InstallImageRuntime => assert(o[2] == t),
        Tool::GenerateImage => assert(o[3] == t),
        Tool::EditImageRegion => assert(o[4] == t),
    }
    if tool_of(n) is None {
        assert forall|k: int| 0 <= k < o.len() implies n != tool_name_of(#[trigger] o[k]) by {
            tool_names_are_recognised(o[k]);
        }
    } else {
        let u = tool_of(n)->Some_0;
        assert(n == tool_name_of(u));
        match u {
            Tool::ListImageModels => assert(n == tool_name_of(o[0])),
            Tool::InstallImageModel => assert(n == tool_name_of(o[1])),
            Tool::InstallImageRuntime => assert(n == tool_name_of(o[2])),
            Tool::GenerateImage => assert(n == tool_name_of(o[3])),
            Tool::EditImageRegion => assert(n == tool_name_of(o[4])),
        }
    }
}

} // verus!
