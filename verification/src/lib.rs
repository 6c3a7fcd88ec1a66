//! A terminal chat client's rendering and input logic, with its contracts.

pub mod text;
pub mod width;
pub mod style;
pub mod wrap;
pub mod span_list;

pub mod component;
pub mod line;
pub mod framed_lines;
pub mod header;
pub mod hint;
pub mod footer;
pub mod approval_prompt;

pub mod changed_range;
pub mod frame;
pub mod cursor;

pub mod action;
pub mod command;
pub mod commands;
pub mod composer;
pub mod approval_request;
pub mod channel;
pub mod input_mode;

pub mod model;
pub mod message;
pub mod tool;
pub mod transcript;
pub mod completion_request;

pub mod execution;
pub mod command_invocation;
pub mod command_output;
pub mod line_stream;
pub mod loader;
pub mod directory_display;
pub mod database;
pub mod duration_ext;
