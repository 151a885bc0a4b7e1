pub mod auth;
pub mod cli;
pub mod collection;
pub mod cors;
pub mod gateway;
pub mod project;
pub mod registry;
pub mod routing;
pub mod text;

pub use gateway::BitSink;
pub use project::Project;
