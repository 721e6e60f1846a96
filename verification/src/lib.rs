//! Decision core of the agent sandbox policy daemon.

pub mod access_laws;
pub mod attribution;
pub mod auth;
pub mod check;
pub mod client;
pub mod command_laws;
pub mod context;
pub mod context_laws;
pub mod decide;
pub mod decision_laws;
pub mod decisions;
pub mod deny_inodes;
pub mod elevation;
pub mod error;
pub mod evaluator;
pub mod file_laws;
pub mod filesystem;
pub mod flow;
pub mod freeze;
pub mod freeze_laws;
pub mod gate;
pub mod gate_laws;
pub mod handlers;
pub mod http;
pub mod http_laws;
pub mod ids;
pub mod inode_laws;
pub mod merge;
pub mod network;
pub mod network_laws;
pub mod order;
pub mod paths;
pub mod peer;
pub mod persist;
pub mod proxy;
pub mod proxy_checks;
pub mod proxy_laws;
pub mod registry;
pub mod registry_laws;
pub mod request_laws;
pub mod rpc;
pub mod rule_laws;
pub mod rules;
pub mod scan;
pub mod server;
pub mod snapshot;
pub mod sorting;
pub mod state;
pub mod store;
pub mod table;
pub mod text;
pub mod types;
pub mod verdict_laws;
pub mod wait_laws;
pub mod waiting;
pub mod workspace_laws;
pub mod workspaces;
