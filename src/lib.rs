//! A terminal coding assistant's core: conversation state, compression,
//! tool-call parsing, mode policy, and the helpers around them.
pub mod text;
pub mod mode;
pub mod conversation;
pub mod verification;
pub mod compression;
pub mod commands;
pub mod retry;
pub mod tools;
pub mod cli;
pub mod completion;
pub mod skills;
pub mod history;
pub mod tool_call;
pub mod context;
pub mod turn;
pub mod lsp;
pub mod streaming;
pub mod output;
pub mod repl;
pub mod registry;
