//! A video decode pipeline: compressed access units go in, the newest decoded
//! frame comes out and is adapted into a BGRA destination surface.

pub use openh264::nal_units;

pub mod codec;
pub mod components;
pub mod frame;
pub mod mailbox;
pub mod prelude;
pub mod presenter;
pub mod runs;
pub mod store;
pub mod surface;
pub mod systems;
pub mod worker;
