//! The command line: `server` runs a node, `client` sends one request to a
//! node's RPC server.

use vstd::prelude::*;
use crate::server::{is_server_plan, ServerPlan};
use crate::text::opt_text;

pub mod client_cmd;
pub mod server_cmd;

use client_cmd::{ClientCmd, ClientPlan};
use server_cmd::ServerCmd;

verus! {

/// The two commands.
#[derive(Clone, Debug)]
pub enum Subcommand {
    Server(ServerCmd),
    Client(ClientCmd),
}

/// What a command asks to be done.
pub enum Launch {
    /// Set up and run a node.
    Server(ServerPlan),
    /// Send one request to a node.
    Client(ClientPlan),
}

impl Subcommand {
    /// What the command asks to be done: the plan its own `run` gives.
    pub fn run(&self) -> (launch: Launch)
        ensures
            match (self, launch) {
                (Subcommand::Server(cmd), Launch::Server(plan)) => match cmd.command() {
                    server_cmd::Command::Run { port, data_dir, boot_node, log_level } => is_server_plan(
                        plan,
                        port,
                        data_dir@,
                        opt_text(boot_node),
                        log_level@,
                    ),
                },
                (Subcommand::Client(cmd), Launch::Client(plan)) => cmd.planned(plan),
                _ => false,
            },
    {
        match self {
            Subcommand::Server(cmd) => Launch::Server(cmd.run()),
            Subcommand::Client(cmd) => Launch::Client(cmd.run()),
        }
    }
}

} // verus!
