//! The protocol bridge between a chat client, its completion backends and the
//! tool-providing processes that the models may call.

pub mod backends;
pub mod cleanup;
pub mod commands;
pub mod completion;
pub mod config;
pub mod decorator;
pub mod demo;
pub mod error;
pub mod history;
pub mod json;
pub mod manager;
pub mod models;
pub mod privacy;
pub mod providers;
pub mod requests;
pub mod rpc;
pub mod sse;
pub mod stream;
pub mod tags;
pub mod text;
pub mod tools;
