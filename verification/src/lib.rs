//! Verified core of the OPC UA simulation suite: view-model state, input
//! validation and formatting rules shared by the master and server front ends.

pub mod text;
pub mod numtext;
pub mod theme;
pub mod widgets;
pub mod conn_map;
pub mod ids;
pub mod master_app;
pub mod groups;
pub mod connections;
pub mod master_updates;
pub mod browse;
pub mod monitor;
pub mod history;
pub mod polling;
pub mod app_model;
pub mod master_events;
pub mod master_model;
pub mod conn_dialog;
pub mod panels;
pub mod method_call_dialog;
pub mod method_args;
pub mod cert_manager_dialog;
pub mod server;
pub mod server_app;
