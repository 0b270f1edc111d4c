//! Process-wide configuration, built once from plain values.
use vstd::prelude::*;
use vstd::string::*;

verus! {

/// The text joining host and port in a bind address.
pub open spec fn bind_address_of(addr: Seq<char>, port: Seq<char>) -> Seq<char> {
    addr + seq![':'] + port
}

/// Joins a server host and port as `host:port`.
pub fn get_bind_address(addr: &str, port: &str) -> (r: String)
    ensures
        r@ == bind_address_of(addr@, port@),
{
    let mut r = String::from_str(addr);
    r.append(":");
    r.append(port);
    proof {
        reveal_strlit(":");
    }
    r
}

/// Startup configuration: tool-server address, service credentials, the
/// system preamble and the directories to index.
#[derive(Clone)]
pub struct Config {
    pub server_bind_address: String,
    pub api_key: String,
    pub openai_api_key: String,
    pub preamble: String,
    pub rag_directories: Vec<String>,
}

impl Config {
    /// Builds a configuration; the bind address is `server_address:server_port`.
    pub fn new(
        server_address: &str,
        server_port: &str,
        api_key: String,
        openai_api_key: String,
        preamble: String,
        rag_directories: Vec<String>,
    ) -> (r: Config)
        ensures
            r.server_bind_address@ == bind_address_of(server_address@, server_port@),
            r.api_key@ == api_key@,
            r.openai_api_key@ == openai_api_key@,
            r.preamble@ == preamble@,
            r.rag_directories@ == rag_directories@,
    {
        Config {
            server_bind_address: get_bind_address(server_address, server_port),
            api_key,
            openai_api_key,
            preamble,
            rag_directories,
        }
    }
}

} // verus!
