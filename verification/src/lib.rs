//! Ferrous: a typed, capability-scoped shell and its model catalog.

pub mod access_laws;
pub mod background;
pub mod brain;
pub mod broker;
pub mod builtin;
pub mod builtin_laws;
pub mod builtin_run;
pub mod cancel;
pub mod canonical;
pub mod capability;
pub mod catalog;
pub mod catalog_laws;
pub mod cli;
pub mod command;
pub mod command_laws;
pub mod command_run;
pub mod config;
pub mod denotation_laws;
pub mod elevation;
pub mod encoding_laws;
pub mod error;
pub mod execution_laws;
pub mod grammar_laws;
pub mod host_action;
pub mod host_path;
pub mod lifecycle_laws;
pub mod line_laws;
pub mod message_laws;
pub mod model;
pub mod native;
pub mod native_session;
pub mod outcome_laws;
pub mod parse_laws;
pub mod pipeline;
pub mod policy;
pub mod report;
pub mod report_laws;
pub mod run_laws;
pub mod selection_laws;
pub mod session_laws;
pub mod shared;
pub mod shell;
pub mod shell_executor;
pub mod shell_ir;
pub mod shell_laws;
pub mod shell_lex;
pub mod shell_parse;
pub mod source_laws;
pub mod sources;
pub mod stage_laws;
pub mod sync;
pub mod terminal_session;
pub mod text;
pub mod text_case;
pub mod text_laws;
pub mod text_map;
pub mod text_order;
pub mod word_laws;
pub mod wterm;
pub mod wterm_laws;
