//! Verified core of the `tira` terminal client for Jira: text editing,
//! filters, tabs, notifications, the lazily-loaded issue tree, multi-select
//! dropdowns, the board navigator and the date arithmetic behind the timeline.
pub mod text;
pub mod collections;
pub mod input;
pub mod filter;
pub mod tabs;
pub mod notification;
pub mod avatar;
pub mod label;
pub mod priority;
pub mod work_item_key;
pub mod tree;
pub mod fuzzy;
pub mod dropdown;
pub mod date;
pub mod models;
pub mod filtered_tree;
pub mod board;
pub mod board_selection;
pub mod config;
pub mod setup;
pub mod app_tab;
pub mod help;
pub mod issue_columns;
pub mod actions;
pub mod ticket_dialog;
pub mod effects;
pub mod jira_tree;
pub mod keys;
pub mod keymap;
pub mod keymap_config;
pub mod keymap_hints;
pub mod keymap_help;
pub mod command_log;
pub mod column_fields;
pub mod spinner;
pub mod dialog;
pub mod key_routing;
