//! The `server` command line: run a node.

use vstd::prelude::*;
use crate::server::{self, is_server_plan, ServerPlan};
use crate::text::opt_text;

verus! {

/// What the `server` command asks for.
#[derive(Clone, Debug)]
pub enum Command {
    /// Run a node on `port`, keeping its data in `data_dir`, booting from
    /// `boot_node`, logging at `log_level`.
    Run { port: u16, data_dir: String, boot_node: Option<String>, log_level: String },
}

/// The `server` command.
#[derive(Clone, Debug)]
pub struct ServerCmd {
    cmd: Command,
}

impl ServerCmd {
    /// The command asked for.
    pub closed spec fn command(&self) -> Command {
        self.cmd
    }

    /// The `server` command asking for `cmd`.
    pub fn new(cmd: Command) -> (server_cmd: ServerCmd)
        ensures
            server_cmd.command() == cmd,
    {
        ServerCmd { cmd }
    }

    /// The command asked for.
    pub fn cmd(&self) -> (cmd: &Command)
        ensures
            *cmd == self.command(),
    {
        &self.cmd
    }

    /// The set-up of the node that the command asks for.
    pub fn run(&self) -> (plan: ServerPlan)
        ensures
            match self.command() {
                Command::Run { port, data_dir, boot_node, log_level } => is_server_plan(
                    plan,
                    port,
                    data_dir@,
                    opt_text(boot_node),
                    log_level@,
                ),
            },
    {
        match &self.cmd {
            Command::Run { port, data_dir, boot_node, log_level } => {
                server::run(*port, data_dir.as_str(), boot_node, log_level.as_str())
            },
        }
    }
}

} // verus!
