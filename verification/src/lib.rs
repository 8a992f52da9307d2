//! Frame synchronization and decoding for an SBUS-style serial protocol:
//! fixed 25-byte frames carrying 16 control-channel values are recovered
//! from an unstructured byte stream with a fixed-capacity buffer, checked
//! against an XOR checksum, decoded into raw channel magnitudes, and scaled
//! into a pulse-width range.

mod byte_queue;
pub mod channels;
pub mod frame;
pub mod receiver;

pub use channels::Channels;
pub use receiver::SbusReceiver;
