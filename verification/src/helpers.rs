//! What the reader keeps between packets.
pub mod tracked_payload;
