//! Codey: the decision logic of a small terminal coding agent.
//!
//! The library holds the agent's turn protocol, the tool registry and the
//! argument handling and result formatting of each local tool, the chat
//! application state and the text layout of the chat transcript. The
//! terminal, the model's HTTP API, the file system and child processes are
//! driven by the program around the library, which hands it plain values.

pub mod text;
mod seqs;
pub mod app;
pub mod tools;
pub mod agent;
pub mod ui;
