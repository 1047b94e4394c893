//! A simulation of a content-addressed storage network.
//!
//! A payload is stored under an identifier derived from its bytes. A network
//! keeps named nodes in the order in which they joined, copies each payload
//! to the first few of them, and answers a lookup from the first node that
//! holds the identifier. A node that leaves takes what it held with it.
pub mod cid;
pub mod laws;
pub mod model;
pub mod network;
pub mod node;
pub mod text;

pub use crate::cid::CID;
pub use crate::network::{Network, Retrieved, StoreOutcome};
pub use crate::node::Node;
