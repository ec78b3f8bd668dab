pub mod addr;
pub mod bench;
pub mod live;
pub mod plot;
pub mod server;
pub mod sysfs;
pub mod text;
