//! Keeps target files in step with their sources: the rules of the watching
//! daemon, of the channel that carries requests to it, and of its client.
pub mod cdl_msg;
pub mod channels;
pub mod cli;
pub mod ids;
pub mod laws;
pub mod masks;
pub mod path;
pub mod records;
pub mod reply;
pub mod serv;
pub mod syncing;
pub mod text;
pub mod traits;
pub mod types;
pub mod watching;
