use vstd::prelude::*;

verus! {

/// What to do with a request that escapes the document root. Only the
/// kick (drop the connection) behaviour is exercised by the handler;
/// the other two are accepted configuration the core must carry.
#[derive(Debug, Clone, Copy, PartialEq, Eq, Structural)]
pub enum PathTravelsalAction {
    Kick,
    NotFound,
    Forbidden,
}

/// The configuration the protocol core consumes, as plain values. The
/// bind address and port never reach the core and live with the caller.
#[derive(Debug, Clone)]
pub struct ServerConfig {
    pub root: String,
    pub index_file: String,
    pub path_traversal: bool,
    pub pa_action: PathTravelsalAction,
    pub max_conns: usize,
    pub req_size_limit: usize,
    pub allowed_http_vers: Vec<u8>,
}

impl Default for ServerConfig {
    fn default() -> (r: Self)
        ensures
            r.root@ == "www"@,
            r.index_file@ == "index.html"@,
            r.path_traversal == false,
            r.pa_action == PathTravelsalAction::Kick,
            r.max_conns == 4,
            r.req_size_limit == 10485760,
            r.allowed_http_vers@ == seq![1u8, 2u8],
    {
        let vers: Vec<u8> = vec![1u8, 2u8];
        proof {
            assert(vers@ =~= seq![1u8, 2u8]);
        }
        ServerConfig {
            root: "www".to_owned(),
            index_file: "index.html".to_owned(),
            path_traversal: false,
            pa_action: PathTravelsalAction::Kick,
            max_conns: 4,
            req_size_limit: 10485760,
            allowed_http_vers: vers,
        }
    }
}

} // verus!
