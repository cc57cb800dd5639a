//! Durable local and remote terminal workloads for Herdr panes.

pub mod agent_view;
pub mod audit;
pub mod backend;
pub mod capture;
pub mod capture_laws;
pub mod clock;
pub mod command_text;
pub mod config;
pub mod config_laws;
pub mod config_store;
pub mod discovery;
pub mod discovery_laws;
pub mod discovery_remote;
pub mod discovery_scan;
pub mod document;
pub mod doctor;
pub mod exchange_laws;
pub mod failure;
pub mod fields;
pub mod herdr;
pub mod herdr_laws;
pub mod herdr_place;
pub mod herdr_reply;
pub mod herdr_socket;
pub mod interrupt;
pub mod json_text;
pub mod keybinding;
pub mod keybinding_laws;
pub mod launch;
pub mod launch_laws;
pub mod lifecycle;
pub mod lifecycle_laws;
pub mod lifecycle_open;
pub mod lifecycle_remove;
pub mod lifecycle_restart;
pub mod lifecycle_safety;
pub mod manager_flow;
pub mod manager_laws;
pub mod manager_names;
pub mod manager_view;
pub mod mission_control;
pub mod mission_laws;
pub mod model;
pub mod name_laws;
pub mod notices;
pub mod observer;
pub mod observer_laws;
pub mod observer_manager;
pub mod observer_runtime;
pub mod observer_view;
pub mod orchestration;
pub mod orchestration_laws;
pub mod paint;
pub mod pane_title;
pub mod path_order;
pub mod path_text;
pub mod paths;
pub mod quote;
pub mod report_laws;
pub mod runtime_laws;
pub mod selection;
pub mod selection_laws;
pub mod session_list;
pub mod socket_client;
pub mod ssh_target;
pub mod state;
pub mod surface_laws;
pub mod text;
pub mod text_laws;
pub mod tmux_command;
pub mod tmux_laws;
pub mod tmux_listing;
pub mod tokens;
pub mod toml_text;
pub mod transport;
pub mod uuids;
pub mod word_laws;
