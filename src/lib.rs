//! Host-side driver core for the Bluetooth Low Energy HCI link layer: command
//! packets and their matched responses, and the decoding of LE advertising
//! reports out of the controller's event stream.
pub mod error;
pub mod codec;
pub mod report;
pub mod pipeline;
pub mod params;
pub mod adapter;
pub mod stream;
