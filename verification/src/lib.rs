//! Projection of packet headers and packet metadata into a sparse,
//! word-granular flow key.
//!
//! The crate walks the layer-2 header stack of a frame (Ethernet, VLAN tags,
//! LLC/SNAP, MPLS labels) and the out-of-band metadata of a packet, and emits
//! what it finds into a bitmap-addressed encoder whose slots follow the
//! layout of the flat flow record.

pub mod endian;
pub mod miniflow;
pub mod flow;
pub mod laws;
pub mod packet;
pub mod parser;
