pub mod cpu;
pub mod driver;
pub mod error;
pub mod frame;
pub mod op;
pub mod timer;
pub mod laws;
