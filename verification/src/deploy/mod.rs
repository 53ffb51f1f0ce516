//! Deployment of the service to remote servers: what to run where, and
//! what becomes of a target's status. Running the commands is left to
//! the caller.

use vstd::prelude::*;

pub mod cli;
pub mod remote;

verus! {

/// The deployment subcommands.
#[derive(Debug, Clone)]
pub enum DeployCommands {
    /// Deploy to a remote server.
    Deploy { server: String },
    /// Show the deployment status of a server.
    Status { server: String },
    /// Run the health check of a deployed server.
    HealthCheck { server: String },
    /// List all configured deployment targets.
    List,
    /// Roll back to the state before the deployment.
    Rollback { server: String },
    /// Update to a new version (default: latest).
    Update { server: String, version: Option<String> },
    /// Sync the configuration to a remote server.
    SyncConfig { server: String },
    /// Check that a server is ready for a deployment.
    Validate { server: String },
}

/// The server that a command addresses, if it addresses one.
pub open spec fn server_of(command: DeployCommands) -> Option<Seq<char>> {
    match command {
        DeployCommands::Deploy { server } => Some(server@),
        DeployCommands::Status { server } => Some(server@),
        DeployCommands::HealthCheck { server } => Some(server@),
        DeployCommands::List => None,
        DeployCommands::Rollback { server } => Some(server@),
        DeployCommands::Update { server, version } => Some(server@),
        DeployCommands::SyncConfig { server } => Some(server@),
        DeployCommands::Validate { server } => Some(server@),
    }
}

impl DeployCommands {
    /// The server that the command addresses, if it addresses one.
    pub fn server(&self) -> (s: Option<&String>)
        ensures
            match s {
                Some(name) => server_of(*self) == Some(name@),
                None => server_of(*self) is None,
            },
    {
        match self {
            DeployCommands::Deploy { server } => Some(server),
            DeployCommands::Status { server } => Some(server),
            DeployCommands::HealthCheck { server } => Some(server),
            DeployCommands::List => None,
            DeployCommands::Rollback { server } => Some(server),
            DeployCommands::Update { server, version: _ } => Some(server),
            DeployCommands::SyncConfig { server } => Some(server),
            DeployCommands::Validate { server } => Some(server),
        }
    }
}

} // verus!
