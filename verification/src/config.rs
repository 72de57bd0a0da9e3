//! The two files an agent is spawned with: the MCP configuration (endpoint and bearer token)
//! and the settings fragment that allows this daemon's server. Their names, the server name and
//! the authorization header are decided here; writing them is the caller's.

use vstd::prelude::*;

use crate::ids::{format_uuid, uuid_text, AgentId};
use crate::text::{decimal, decimal_text, push_text};

verus! {

/// The folder both files live in, below the data directory (swept at boot).
pub const MCP_CONFIG_SUBDIR: &'static str = "mcp-config";

/// The server's logical name: the key under `mcpServers`, and the server a grant names.
pub const MCP_SERVER_NAME: &'static str = "engram";

/// `<agent id>-<epoch>.json`: the epoch keeps a rotated file from clashing with the old one.
pub open spec fn config_file_text(id: AgentId, epoch: u32) -> Seq<char> {
    uuid_text(id) + "-"@ + decimal(epoch as nat) + ".json"@
}

/// `<agent id>-<epoch>.settings.json`: same folder and lifetime as the configuration.
pub open spec fn settings_file_text(id: AgentId, epoch: u32) -> Seq<char> {
    uuid_text(id) + "-"@ + decimal(epoch as nat) + ".settings.json"@
}

pub fn config_file_name(id: AgentId, epoch: u32) -> (s: String)
    ensures
        s@ == config_file_text(id, epoch),
{
    let mut s = format_uuid(id);
    push_text(&mut s, "-");
    push_text(&mut s, decimal_text(epoch as u64).as_str());
    push_text(&mut s, ".json");
    s
}

pub fn settings_file_name(id: AgentId, epoch: u32) -> (s: String)
    ensures
        s@ == settings_file_text(id, epoch),
{
    let mut s = format_uuid(id);
    push_text(&mut s, "-");
    push_text(&mut s, decimal_text(epoch as u64).as_str());
    push_text(&mut s, ".settings.json");
    s
}

/// The `Authorization` header value the configuration carries: `Bearer <token>`.
pub fn authorization_value(token: &str) -> (s: String)
    ensures
        s@ == "Bearer "@ + token@,
{
    let mut s = "Bearer ".to_owned();
    push_text(&mut s, token);
    s
}

} // verus!
