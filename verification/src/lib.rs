//! The verified core of the Oxydra runner and its model providers.

pub mod anthropic;
pub mod arguments;
pub mod bootstrap;
pub mod browser;
pub mod catalog;
pub mod cli;
pub mod clock;
pub mod control;
pub mod docker;
pub mod encoding;
pub mod endpoint;
pub mod environment;
pub mod exchange;
pub mod firecracker;
pub mod gateway;
pub mod gemini;
pub mod guest;
pub mod json;
pub mod launch;
pub mod logs;
pub mod migration;
pub mod model;
pub mod openai;
pub mod paths;
pub mod program;
pub mod responses;
pub mod retry;
pub mod sandbox;
pub mod schema;
pub mod skills;
pub mod sse;
pub mod startup;
pub mod stream;
pub mod streaming;
pub mod text;
pub mod text_map;
pub mod update_check;
pub mod vm;
pub mod workspace;
