//! What the library promises as a whole, stated of what goes in and what comes out.
pub mod benchmark;
pub mod camera;
pub mod pages;
pub mod relay;
pub mod routing;
pub mod server;
pub mod text;
pub mod transport;
