//! The `client` command line: one JSON-RPC request to a node.

use vstd::prelude::*;
use crate::text::{decimal, push_decimal};

verus! {

/// The requests the client can send.
#[allow(non_camel_case_types)]
#[derive(Clone, Debug)]
pub enum Command {
    /// show p2p info
    Info {},
    /// list connected peers
    Peers {},
    /// show tx pool
    Tx_pool {},
    /// show node buckets
    Node_buckets {},
    /// send tx to p2p network: its data, and whether that is hex
    Send_tx { body: String, hex: bool },
    /// subscribe to show peers, with the subscription's parameter
    Peers_sub { level: u64 },
    /// unsubscribe to show peers, naming the subscription
    Peers_unsub { sub_id: u64 },
}

/// The RPC method that a command calls.
pub open spec fn method_name(cmd: Command) -> Seq<char> {
    match cmd {
        Command::Info {  } => "info"@,
        Command::Peers {  } => "peers"@,
        Command::Tx_pool {  } => "tx_pool"@,
        Command::Node_buckets {  } => "node_buckets"@,
        Command::Send_tx { .. } => "send_tx"@,
        Command::Peers_sub { .. } => "peers_sub"@,
        Command::Peers_unsub { .. } => "peers_unsub"@,
    }
}

/// The JSON parameters that a command sends. The body of a transaction
/// goes between the quotes as it is, unescaped.
pub open spec fn params_text(cmd: Command) -> Seq<char> {
    match cmd {
        Command::Send_tx { body, hex } => "[\""@ + body@ + "\", "@ + (if hex {
            "true"@
        } else {
            "false"@
        }) + "]"@,
        Command::Peers_sub { level } => "["@ + decimal(level as nat) + "]"@,
        Command::Peers_unsub { sub_id } => "["@ + decimal(sub_id as nat) + "]"@,
        _ => "[]"@,
    }
}

/// The line of a JSON-RPC 2.0 request, with id 1, that calls `method` with
/// `params`.
pub open spec fn request_text(method: Seq<char>, params: Seq<char>) -> Seq<char> {
    "{ \"jsonrpc\":\"2.0\", \"id\": 1, \"method\": \""@ + method + "\", \"params\": "@ + params
        + " }\n"@
}

/// What the client is to do: connect to `server` on `port`, send `request`,
/// which calls `method`, and then print the reply, or every message that
/// follows where `subscribe` holds.
pub struct ClientPlan {
    pub server: String,
    pub port: u16,
    pub method: String,
    pub request: String,
    pub subscribe: bool,
}

/// Whether `plan` is what the client does for `cmd` against `server` on
/// `port`.
pub open spec fn is_client_plan(plan: ClientPlan, server: Seq<char>, port: u16, cmd: Command) -> bool {
    &&& plan.server@ == server
    &&& plan.port == port
    &&& plan.method@ == method_name(cmd)
    &&& plan.request@ == request_text(method_name(cmd), params_text(cmd))
    &&& plan.subscribe == cmd is Peers_sub
}

/// A client plan goes to the server and port it was asked for, and
/// subscribes exactly for `peers_sub`.
pub proof fn lemma_client_plan_target(plan: ClientPlan, server: Seq<char>, port: u16, cmd: Command)
    requires
        is_client_plan(plan, server, port, cmd),
    ensures
        plan.server@ == server,
        plan.port == port,
        plan.subscribe <==> cmd is Peers_sub,
{
}

/// The `client` command: the server's address and port, and the request.
#[derive(Clone, Debug)]
pub struct ClientCmd {
    server: String,
    port: u16,
    cmd: Command,
}

/// The line of a request that calls `method` with `params`.
pub fn request_line(method: &str, params: &str) -> (line: String)
    ensures
        line@ == request_text(method@, params@),
{
    let mut line = String::from_str("{ \"jsonrpc\":\"2.0\", \"id\": 1, \"method\": \"");
    line.append(method);
    line.append("\", \"params\": ");
    line.append(params);
    line.append(" }\n");
    line
}

impl ClientCmd {
    /// The server's address.
    pub closed spec fn server_text(&self) -> Seq<char> {
        self.server@
    }

    /// The server's port.
    pub closed spec fn port_number(&self) -> u16 {
        self.port
    }

    /// The request asked for.
    pub closed spec fn command(&self) -> Command {
        self.cmd
    }

    /// Whether `plan` is what this command asks for.
    pub open spec fn planned(&self, plan: ClientPlan) -> bool {
        is_client_plan(plan, self.server_text(), self.port_number(), self.command())
    }

    /// The command that sends `cmd` to `server` on `port`.
    pub fn new(server: String, port: u16, cmd: Command) -> (client: ClientCmd)
        ensures
            client.server_text() == server@,
            client.port_number() == port,
            client.command() == cmd,
    {
        ClientCmd { server, port, cmd }
    }

    /// The server's address.
    pub fn server(&self) -> (server: &String)
        ensures
            server@ == self.server_text(),
    {
        &self.server
    }

    /// The server's port.
    pub fn port(&self) -> (port: u16)
        ensures
            port == self.port_number(),
    {
        self.port
    }

    /// The request asked for.
    pub fn cmd(&self) -> (cmd: &Command)
        ensures
            *cmd == self.command(),
    {
        &self.cmd
    }

    /// The RPC method that the command calls.
    pub fn method(&self) -> (method: &'static str)
        ensures
            method@ == method_name(self.command()),
    {
        match &self.cmd {
            Command::Info {  } => "info",
            Command::Peers {  } => "peers",
            Command::Tx_pool {  } => "tx_pool",
            Command::Node_buckets {  } => "node_buckets",
            Command::Send_tx { .. } => "send_tx",
            Command::Peers_sub { .. } => "peers_sub",
            Command::Peers_unsub { .. } => "peers_unsub",
        }
    }

    /// The JSON parameters that the command sends.
    pub fn params(&self) -> (params: String)
        ensures
            params@ == params_text(self.command()),
    {
        match &self.cmd {
            Command::Send_tx { body, hex } => {
                let mut p = String::from_str("[\"");
                p.append(body.as_str());
                p.append("\", ");
                if *hex {
                    p.append("true");
                } else {
                    p.append("false");
                }
                p.append("]");
                p
            },
            Command::Peers_sub { level } => {
                let mut p = String::from_str("[");
                push_decimal(&mut p, *level);
                p.append("]");
                p
            },
            Command::Peers_unsub { sub_id } => {
                let mut p = String::from_str("[");
                push_decimal(&mut p, *sub_id);
                p.append("]");
                p
            },
            _ => String::from_str("[]"),
        }
    }

    /// What the client is to do for this command.
    pub fn run(&self) -> (plan: ClientPlan)
        ensures
            self.planned(plan),
            plan.server@ == self.server_text(),
            plan.port == self.port_number(),
            plan.subscribe <==> self.command() is Peers_sub,
    {
        let method = self.method();
        let params = self.params();
        let request = request_line(method, params.as_str());
        let subscribe = match &self.cmd {
            Command::Peers_sub { .. } => true,
            _ => false,
        };
        ClientPlan {
            server: self.server.clone(),
            port: self.port,
            method: String::from_str(method),
            request,
            subscribe,
        }
    }
}

} // verus!
