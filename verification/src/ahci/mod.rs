pub mod command;
pub mod consts;
pub mod device;
pub mod driver;
pub mod error;
pub mod port;
