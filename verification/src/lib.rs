//! Verified core of the minishell SSH machine manager: machine records,
//! text layout helpers, status cards, session buffering, probing, forms,
//! tables, file-browser panels, server configuration and spreadsheet rows.

pub mod text;
pub mod utf8;
pub mod machine;
pub mod error;
pub mod width;
pub mod display;
pub mod session;
pub mod card;
pub mod form;
pub mod table;
pub mod probe;
pub mod sftp;
pub mod browser;
pub mod transfer;
pub mod config;
pub mod server;
pub mod xlsx;
pub mod listing;
pub mod selector;
pub mod form_input;
pub mod screen;
pub mod paths;
pub mod filebrowser;
pub mod store;
pub mod commands;
