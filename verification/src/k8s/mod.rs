pub mod discovery;
pub mod resources;
pub mod watch;
