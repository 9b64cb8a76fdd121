//! Geometry and pixel processing for separating the photographs of a
//! flatbed scan: box reconciliation, rotation correction, edge trimming,
//! contour policy and a chain of local pixel filters; the operations on
//! base64-encoded images built on them; and the service's records and
//! state.

pub mod raster;
pub mod rotation;
pub mod geometry;
pub mod trim;
pub mod equalize;
pub mod filters;
pub mod outpaint;
pub mod pipeline;
pub mod codec;
pub mod service;
pub mod model;
pub mod detection;
pub mod state;
