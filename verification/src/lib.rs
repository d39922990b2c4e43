//! Clawshake: local tools for agents, and a bridge that shares them with
//! peers.
//!
//! The broker reads tool manifests, serves them over MCP and plans the work
//! that a call needs: [`router`], [`mcp_server`], [`registry`], [`builtins`]
//! and the tools' own modules ([`shell`], [`spawn`], [`cron`], [`codemode`],
//! [`event_queue`], [`webview`], [`window`], [`expose`], [`memory`]).  The
//! bridge announces a node's tools and forwards calls between peers: [`node`],
//! [`addr`], [`announce`], [`tunnel`], [`network`].  Both ask [`permissions`]
//! before anything is run.
//!
//! Nothing here opens a socket or starts a process.  Functions take what was
//! read and say what is to be done, and their contracts say exactly which.  Only
//! two things come from the machine itself: whether Node.js is on its search path
//! ([`startup::detect_code_mode`]) and the random identifiers of [`ids`].
pub mod addr;
pub mod announce;
pub mod auth;
pub mod broker_laws;
pub mod builtins;
pub mod channels;
pub mod codec;
pub mod codemode;
pub mod commands;
pub mod config;
pub mod config_text;
pub mod cron;
pub mod definition_laws;
pub mod event_queue;
pub mod expose;
pub mod http;
pub mod identity;
pub mod ids;
pub mod ipc;
pub mod json;
pub mod manifest;
pub mod mcp_client;
pub mod mcp_server;
pub mod memory;
pub mod messages;
pub mod models;
pub mod network;
pub mod network_laws;
pub mod node;
pub mod node_laws;
pub mod operator_laws;
pub mod pages;
pub mod paths;
pub mod peer_id;
pub mod peer_table;
pub mod permissions;
pub mod process;
pub mod registry;
pub mod router;
pub mod rpc;
pub mod schema;
pub mod shell;
pub mod spawn;
pub mod startup;
pub mod stream;
pub mod table;
pub mod template;
pub mod text;
pub mod text_laws;
pub mod tunnel;
pub mod web_call;
pub mod webview;
pub mod window;
