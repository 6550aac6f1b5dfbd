//! Server and command-line option models, and the conversion from parsed
//! command-line options to the server configuration.

use vstd::prelude::*;

use crate::signing::new_invocation_id;

verus! {

/// Options to use when starting an RPC or HTTP server.
#[derive(Debug, Clone, PartialEq, Eq)]
pub struct ServerOptions {
    /// Enable or disable the server.
    pub enabled: bool,
    /// The port to bind to.
    pub port: Option<u16>,
    /// The address to bind to, as text.
    pub address: Option<String>,
    /// Path to the pem file for TLS.
    pub pem: Option<String>,
    /// Path to the key file for TLS.
    pub key: Option<String>,
    /// Path to the certificate authority file.
    pub ca: Option<String>,
}

/// Configuration used to connect to the lattice.
#[derive(Debug, Clone, PartialEq, Eq)]
pub struct LatticeOptions {
    /// Enable or disable the lattice connection.
    pub enabled: bool,
    /// The address of the NATS server.
    pub address: String,
    /// The path to the NATS credentials file.
    pub creds_path: Option<String>,
    /// The NATS token.
    pub token: Option<String>,
}

/// Server configuration options.
#[derive(Debug, Clone, PartialEq, Eq)]
pub struct Options {
    /// RPC server options.
    pub rpc: Option<ServerOptions>,
    /// HTTP server options.
    pub http: Option<ServerOptions>,
    /// Lattice options.
    pub lattice: Option<LatticeOptions>,
    /// The ID of the server.
    pub id: String,
    /// The timeout for network requests, in milliseconds.
    pub timeout_millis: u64,
}

/// Command-line options for connecting to a lattice.
#[derive(Debug, Clone, PartialEq, Eq)]
pub struct LatticeCliOptions {
    /// Enable the lattice connection.
    pub lattice_enabled: bool,
    /// The url of the NATS server.
    pub nats_url: Option<String>,
    /// The path to the NATS credentials file.
    pub nats_credsfile: Option<String>,
    /// The NATS token.
    pub nats_token: Option<String>,
}

/// The full set of command-line options a provider accepts.
#[derive(Debug, Clone, PartialEq, Eq)]
pub struct DefaultCliOptions {
    /// The unique ID of this client.
    pub id: Option<String>,
    /// The timeout for outbound requests in milliseconds.
    pub timeout: Option<u64>,
    /// Options for connecting to a lattice.
    pub lattice: LatticeCliOptions,
    /// Enable the rpc server.
    pub rpc_enabled: bool,
    /// Port for the RPC server.
    pub rpc_port: Option<u16>,
    /// Address for the RPC server.
    pub rpc_address: Option<String>,
    /// Pem file for the RPC server.
    pub rpc_pem: Option<String>,
    /// Key file for the RPC server.
    pub rpc_key: Option<String>,
    /// Certificate authority for the RPC server.
    pub rpc_ca: Option<String>,
    /// Enable the http server.
    pub http_enabled: bool,
    /// Port for the HTTP server.
    pub http_port: Option<u16>,
    /// Address for the HTTP server.
    pub http_address: Option<String>,
    /// Pem file for the HTTP server.
    pub http_pem: Option<String>,
    /// Key file for the HTTP server.
    pub http_key: Option<String>,
    /// Certificate authority for the HTTP server.
    pub http_ca: Option<String>,
}

/// Builds the server configuration from parsed command-line options. The
/// RPC and HTTP blocks are always produced; the lattice block only when a
/// NATS url was given; a missing id is replaced by a fresh identifier and
/// a missing timeout by five seconds.
pub fn options_from_cli(opts: DefaultCliOptions) -> (r: Options)
    ensures
        r.rpc matches Some(rpc) && rpc.enabled == opts.rpc_enabled && rpc.port == opts.rpc_port
            && rpc.address == opts.rpc_address && rpc.pem == opts.rpc_pem && rpc.key
            == opts.rpc_key && rpc.ca == opts.rpc_ca,
        r.http matches Some(http) && http.enabled == opts.http_enabled && http.port
            == opts.http_port && http.address == opts.http_address && http.pem == opts.http_pem
            && http.key == opts.http_key && http.ca == opts.http_ca,
        opts.lattice.nats_url matches Some(url) ==> (r.lattice matches Some(l) && l.enabled
            == opts.lattice.lattice_enabled && l.address == url && l.creds_path
            == opts.lattice.nats_credsfile && l.token == opts.lattice.nats_token),
        opts.lattice.nats_url is None ==> r.lattice is None,
        opts.id matches Some(id) ==> r.id == id,
        opts.id is None ==> r.id@.len() == 36,
        opts.timeout matches Some(t) ==> r.timeout_millis == t,
        opts.timeout is None ==> r.timeout_millis == 5000,
{
    let rpc = Some(
        ServerOptions {
            enabled: opts.rpc_enabled,
            port: opts.rpc_port,
            address: opts.rpc_address,
            pem: opts.rpc_pem,
            key: opts.rpc_key,
            ca: opts.rpc_ca,
        },
    );
    let http = Some(
        ServerOptions {
            enabled: opts.http_enabled,
            port: opts.http_port,
            address: opts.http_address,
            pem: opts.http_pem,
            key: opts.http_key,
            ca: opts.http_ca,
        },
    );
    let lattice = match opts.lattice.nats_url {
        Some(url) => Some(
            LatticeOptions {
                enabled: opts.lattice.lattice_enabled,
                address: url,
                creds_path: opts.lattice.nats_credsfile,
                token: opts.lattice.nats_token,
            },
        ),
        None => None,
    };
    let id = match opts.id {
        Some(id) => id,
        None => new_invocation_id(),
    };
    let timeout_millis = match opts.timeout {
        Some(t) => t,
        None => 5000,
    };
    Options { rpc, http, lattice, id, timeout_millis }
}

/// Fresh default options: no servers configured, a fresh id, no timeout.
impl Default for Options {
    fn default() -> (r: Self)
        ensures
            r.rpc is None,
            r.http is None,
            r.lattice is None,
            r.id@.len() == 36,
            r.timeout_millis == 0,
    {
        Options {
            rpc: None,
            http: None,
            lattice: None,
            id: new_invocation_id(),
            timeout_millis: 0,
        }
    }
}

/// Options shared by the command-line front-end's connection-oriented
/// commands.
#[derive(Debug, Clone, PartialEq, Eq)]
pub struct ConnectOptions {
    /// Port to connect to.
    pub port: u16,
    /// IP address to connect to, as text.
    pub address: String,
}

/// The command to invoke a schematic with a payload.
#[derive(Debug, Clone, PartialEq, Eq)]
pub struct InvokeCommand {
    pub connection: ConnectOptions,
    pub schematic: String,
    pub data: String,
}

/// The command to list the registered schematics.
#[derive(Debug, Clone, PartialEq, Eq)]
pub struct ListCommand {
    pub connection: ConnectOptions,
}

/// The command to query execution statistics.
#[derive(Debug, Clone, PartialEq, Eq)]
pub struct StatsCommand {
    pub connection: ConnectOptions,
}

/// The host runtime's command-line surface.
#[derive(Debug, Clone, PartialEq, Eq)]
pub enum CliCommand {
    Invoke(InvokeCommand),
    List(ListCommand),
    Stats(StatsCommand),
}

/// The parsed command line.
#[derive(Debug, Clone, PartialEq, Eq)]
pub struct Cli {
    pub command: CliCommand,
}

} // verus!
