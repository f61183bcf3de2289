//! Rotation of relative pointer motion, the event-forwarding engine that
//! applies it frame by frame, and the supervisor that decides how the
//! device pipeline is retried and rebuilt.
pub mod capabilities;
pub mod engine;
pub mod rotation;
pub mod supervisor;
