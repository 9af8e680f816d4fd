//! Core of a tool that writes a commit message for the staged change set by
//! asking a chat-completion endpoint. This crate holds the verified pipeline
//! logic: configuration defaults and resolution, extraction of insertion and
//! deletion counts from a change summary, threshold-based model selection,
//! construction of the two-message request, extraction of the assistant's
//! reply, and composition of the final output with its optional trace block.
//! The surrounding program does the reading, spawning, and sending, and hands
//! this crate plain values.

pub mod chat;
pub mod config;
pub mod errors;
pub mod pipeline;
pub mod shortstat;
pub mod text;
pub mod trace;
