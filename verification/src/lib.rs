//! A verified core of a Bluetooth Mesh stack: the byte encodings of the mesh
//! header fields, the unprovisioned device beacon, advertisement PDUs and the
//! outgoing PDU queue.
pub mod bytes;
pub mod crypto;
pub mod mesh;
pub mod uuid;
pub mod beacon;
pub mod mesh_io;
pub mod timestamp;
pub mod scheduler;
pub mod net;
pub mod random;
