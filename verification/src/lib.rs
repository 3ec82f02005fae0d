//! A KDE tray companion for the NordLayer command-line client: parsers for
//! the client's output and the tray's state and decisions.
pub mod text;
pub mod parser;
pub mod cli;
pub mod tray;
pub mod laws;
