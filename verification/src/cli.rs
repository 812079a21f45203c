//! What the command line and the environment hand to the proxy.
use vstd::prelude::*;

verus! {

/// Which HTTP versions the operator wants on both sides of the proxy.
#[derive(Debug, Clone, Copy, PartialEq, Eq, Structural)]
pub enum HttpMode {
    Auto,
    Http1,
    Http2,
}

/// The command line: where the config file is, and where the admin pages are served.
#[derive(Debug, Clone)]
pub struct Cli {
    pub config_path: String,
    pub admin_listen_addr: String,
}

impl Default for Cli {
    fn default() -> (cli: Self)
        ensures
            cli.config_path@ == "./kidproxy.json"@,
            cli.admin_listen_addr@ == "127.0.0.1:3000"@,
    {
        Cli {
            config_path: "./kidproxy.json".to_owned(),
            admin_listen_addr: "127.0.0.1:3000".to_owned(),
        }
    }
}

} // verus!
