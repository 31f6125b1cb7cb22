//! Control logic for ASUS ROG laptops.
//!
//! Nothing here touches a device or a file. Each function says what is to be
//! done, as a list of actions or a command line, and takes what came back from
//! the outside as an argument.

pub mod bytes;
pub mod config;
pub mod fan;
pub mod keyboard;
pub mod led;
pub mod plan;
pub mod rfkill;
pub mod session;
pub mod text;
pub mod usb;
