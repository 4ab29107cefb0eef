//! A personal inbox for notifications produced by scripts and cron jobs.
//!
//! Every notification is filed under a hierarchical mailbox path, carries a
//! lifecycle state, and is read later from a one-shot command or from an
//! interactive terminal program. This crate holds the rules of that system:
//! the data model, the filter algebra, the contract of the store, the cursor
//! lists and the decisions of the interactive program and of the server,
//! each with a machine-checked contract. Reading files, talking to a
//! database or a network, and drawing on a terminal are left to the program
//! around it.

// Text and numbers
pub mod text;
pub mod decimal;
pub mod separated;
pub mod time_text;
pub mod truncate;

// The data model
pub mod mailbox;
pub mod message;
pub mod message_list;
pub mod filter;
pub mod condition;
pub mod query;

// The store
pub mod store;
pub mod memory_backend;
pub mod sqlite_backend;
pub mod http_backend;
pub mod server;

// The interactive program
pub mod navigable_list;
pub mod tree_list;
pub mod multiselect_list;
pub mod monotonic_counter;
pub mod request_counter;
pub mod worker;
pub mod mailbox_tree;
pub mod app;
pub mod optimistic;
pub mod input_event;
pub mod keys;
pub mod event_loop;
pub mod view;

// The command line
pub mod config;
pub mod cli;
pub mod import;
pub mod message_components;
pub mod message_formatter;
