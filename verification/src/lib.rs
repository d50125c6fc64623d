pub mod device;
pub mod house;
pub mod names;
pub mod provider;
pub mod room;
