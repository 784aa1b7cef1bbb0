//! Decisions of the JSON-RPC/MCP layer: protocol version negotiation and
//! method routing.

use vstd::prelude::*;
use crate::text::{owned, str_eq};

verus! {

/// The newest MCP protocol date-version this server speaks.
pub open spec fn newest_version() -> Seq<char> {
    "2025-06-18"@
}

/// The MCP protocol date-versions this server speaks.
pub open spec fn supported(v: Seq<char>) -> bool {
    v == "2025-06-18"@ || v == "2024-11-05"@
}

/// On `initialize`: the client's requested version when supported, else
/// the newest supported one. A missing request is passed as "".
pub fn negotiate_version(asked: &str) -> (res: String)
    ensures
        res@ == (if supported(asked@) { asked@ } else { newest_version() }),
{
    if str_eq(asked, "2025-06-18") || str_eq(asked, "2024-11-05") {
        owned(asked)
    } else {
        owned("2025-06-18")
    }
}

/// The requests the server answers.
#[derive(Clone, Copy, PartialEq, Eq, Structural, Debug)]
pub enum Method {
    Initialize,
    Ping,
    ToolsList,
    ToolsCall,
    /// Anything else: answered with "method not found".
    Unknown,
}

/// The request a method name designates.
pub open spec fn route_spec(m: Seq<char>) -> Method {
    if m == "initialize"@ {
        Method::Initialize
    } else if m == "ping"@ {
        Method::Ping
    } else if m == "tools/list"@ {
        Method::ToolsList
    } else if m == "tools/call"@ {
        Method::ToolsCall
    } else {
        Method::Unknown
    }
}

/// Routes a JSON-RPC method name.
pub fn route(method: &str) -> (res: Method)
    ensures
        res == route_spec(method@),
{
    if str_eq(method, "initialize") {
        Method::Initialize
    } else if str_eq(method, "ping") {
        Method::Ping
    } else if str_eq(method, "tools/list") {
        Method::ToolsList
    } else if str_eq(method, "tools/call") {
        Method::ToolsCall
    } else {
        Method::Unknown
    }
}

/// The notification that announces a ready client.
pub fn is_initialized_notice(method: &str) -> (res: bool)
    ensures
        res == (method@ == "notifications/initialized"@),
{
    str_eq(method, "notifications/initialized")
}

} // verus!
