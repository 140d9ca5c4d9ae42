use vstd::prelude::*;

verus! {

/// Configuration fields for an API client.
#[derive(Debug, PartialEq, Eq)]
pub struct Config {
    /// The Unix domain socket on which the daemon serves its clients.
    pub socket: String,
}

/// The socket path that is used when none is configured.
pub open spec fn default_socket() -> Seq<char> {
    "/tmp/pasta.sock"@
}

impl Config {
    /// Settles the configuration from what its sources hold for the socket
    /// path: the value of the environment wins over the value of the
    /// configuration file, and the default stands in when both are absent.
    pub fn parse(file: Option<String>, environment: Option<String>) -> (config: Config)
        ensures
            config.socket@ == match (environment, file) {
                (Some(path), _) => path@,
                (None, Some(path)) => path@,
                (None, None) => default_socket(),
            },
    {
        match (environment, file) {
            (Some(path), _) => Config { socket: path },
            (None, Some(path)) => Config { socket: path },
            (None, None) => Config { socket: "/tmp/pasta.sock".to_owned() },
        }
    }
}

} // verus!
