//! Text widgets for status bars: agent counts from a herdr server, an
//! animated CPU meter, and OpenAI Codex usage windows.
pub mod args;
pub mod client;
pub mod cpu;
pub mod credentials;
pub mod formatter;
pub mod framer;
pub mod paths;
pub mod status;
pub mod text;
pub mod usage;
