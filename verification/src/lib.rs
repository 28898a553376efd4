//! Zone-based traffic analytics: the geometry of detection zones, the
//! bookkeeping of the objects seen in them, and the rotation of the
//! aggregation periods, each stated as a contract and proved.

pub mod api;
pub mod capture;
pub mod classes;
pub mod counting;
pub mod errors;
pub mod geometry;
mod outside;
pub mod period;
pub mod pipeline;
pub mod ray;
pub mod rotation;
pub mod settings;
pub mod store;
pub mod zone;
