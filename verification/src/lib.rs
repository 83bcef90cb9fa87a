//! A small Kanban board: cards with a name, some contents and a status that
//! moves through a fixed workflow, plus the command languages that edit it.

pub mod board;
pub mod status;
pub mod edit;
pub mod laws;
pub mod text;
pub mod cli;
pub mod request;
