//! Privilege-separated entropy collection: sample types, the wire codec,
//! the per-source gathering policy and the privileged-side mixer.
pub mod message;
pub mod wire;
pub mod digest;
pub mod mixer;
pub mod cpu;
pub mod gather;
