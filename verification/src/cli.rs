//! The command line of the `netweft` program, as plain values: the program
//! parses its arguments into these and dispatches on them.

use vstd::prelude::*;

verus! {

/// The parsed command line.
#[derive(Debug)]
pub struct Cli {
    /// Overrides the source configuration directory.
    pub config_dir: Option<String>,
    pub command: Command,
}

#[derive(Debug)]
pub enum Command {
    /// Print the resolved filesystem paths.
    Paths,
    /// Load and validate the configuration, optionally for another location.
    Validate { location: Option<String> },
    /// Inspect typed or derived configuration objects.
    Show { command: ShowCommand },
    /// Generate configuration artifacts without deploying them.
    Render { command: RenderCommand },
    /// Inspect the adapters built into the program.
    Adapters { command: AdapterCommand },
}

#[derive(Debug)]
pub enum ShowCommand {
    Config,
    Hosts,
    Networks,
    Services,
    DnsAccess,
    Dns,
    Docker { host: String },
    Ssh { client: String },
    Proxy,
    Env { host: String },
    HostNetwork { host: String },
    OsNetwork { host: String },
    ProxmoxSdn { host: String },
    Guests,
    NetworkMounts { host: String },
    NasPermissions { nas: Option<String> },
    ProxmoxStorage { host: String },
}

#[derive(Debug)]
pub enum RenderCommand {
    Bind,
    /// Native Nginx configuration, optionally for one host, optionally
    /// checked with the given `nginx` executable.
    Nginx { host: Option<String>, check: bool, nginx: String },
    Ssh { client: String },
    Docker { host: String },
    Env { host: String },
    Netplan { host: String },
    Proxmox { host: String },
    SystemdMounts { host: String },
    SynologyNfsPermissions { nas: String },
    ProxmoxGuests { host: String },
    ProxmoxSdn { host: String },
    ProxmoxStorage { host: String },
    All { host: String },
}

#[derive(Debug)]
pub enum AdapterCommand {
    List,
}

} // verus!
