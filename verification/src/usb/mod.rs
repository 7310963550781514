pub mod async_ops;
pub mod class;
pub mod controller;
pub mod descriptor;
pub mod device;
pub mod endpoint;
pub mod enumeration;
pub mod error;
pub mod hub;
pub mod memory;
pub mod transfer;
pub mod types;
pub mod xhci;
