//! The options of the client.

use vstd::prelude::*;
use crate::message::version::{check_user_agent, is_user_agent};
use crate::net::Endpoint;

verus! {

/// The options of the client.
pub struct Config {
    listen_port: u16,
    nonce: u64,
    user_agent: String,
    target_fanout: usize,
    bootstrap_nodes: Vec<Endpoint>,
}

/// The options of the client, as plain values.
pub struct ConfigData {
    /// The port that the client says it listens on.
    pub listen_port: u16,
    /// The number by which the client detects a connection to itself.
    pub nonce: u64,
    /// The name of the client's software.
    pub user_agent: Seq<char>,
    /// How many connections the client keeps open.
    pub target_fanout: usize,
    /// The peers to start from where none is known.
    pub bootstrap_nodes: Seq<Endpoint>,
}

impl View for Config {
    type V = ConfigData;

    closed spec fn view(&self) -> ConfigData {
        ConfigData {
            listen_port: self.listen_port,
            nonce: self.nonce,
            user_agent: self.user_agent@,
            target_fanout: self.target_fanout,
            bootstrap_nodes: self.bootstrap_nodes@,
        }
    }
}

impl Config {
    #[verifier::type_invariant]
    spec fn user_agent_fits(&self) -> bool {
        is_user_agent(self.user_agent@)
    }

    /// The given options, or nothing where the user agent cannot be sent: it
    /// is to be ASCII and 5000 characters at most.
    pub fn new(
        listen_port: u16,
        nonce: u64,
        user_agent: String,
        target_fanout: usize,
        bootstrap_nodes: Vec<Endpoint>,
    ) -> (config: Option<Config>)
        ensures
            config is Some <==> is_user_agent(user_agent@),
            config matches Some(c) ==> c@ == (ConfigData {
                listen_port,
                nonce,
                user_agent: user_agent@,
                target_fanout,
                bootstrap_nodes: bootstrap_nodes@,
            }),
    {
        if check_user_agent(user_agent.as_str()) {
            Some(Config { listen_port, nonce, user_agent, target_fanout, bootstrap_nodes })
        } else {
            None
        }
    }

    /// The port that the client says it listens on.
    pub fn port(&self) -> (port: u16)
        ensures
            port == self@.listen_port,
    {
        self.listen_port
    }

    /// The number by which the client detects a connection to itself.
    pub fn nonce(&self) -> (nonce: u64)
        ensures
            nonce == self@.nonce,
    {
        self.nonce
    }

    /// The name of the client's software.
    pub fn user_agent(&self) -> (user_agent: &str)
        ensures
            user_agent@ == self@.user_agent,
            is_user_agent(user_agent@),
    {
        proof {
            use_type_invariant(self);
        }
        self.user_agent.as_str()
    }

    /// How many connections the client keeps open.
    pub fn target_fanout(&self) -> (target_fanout: usize)
        ensures
            target_fanout == self@.target_fanout,
    {
        self.target_fanout
    }

    /// The peers to start from where none is known.
    pub fn bootstrap_nodes(&self) -> (bootstrap_nodes: &Vec<Endpoint>)
        ensures
            bootstrap_nodes@ == self@.bootstrap_nodes,
    {
        &self.bootstrap_nodes
    }
}

} // verus!
