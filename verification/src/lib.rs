//! Discovery and control of smart lighting devices: parsing of multicast
//! advertisement payloads into device records, deduplication of the
//! discovered set, encoding of control commands, and the control channel's
//! per-invocation state machine. Network sends and receives are performed
//! by the caller, which hands payloads in and carries wire messages out.
pub mod bulb;
pub mod codec;
pub mod control;
pub mod discovery;
pub mod kv;
pub mod safebulb;
pub mod text;
