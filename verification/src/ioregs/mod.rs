//! The register listing: the device description read from its XML document
//! and written out as one `ioregs!` block per peripheral.

pub mod model;
pub mod decode;
pub mod order;
pub mod listing;
pub mod load;
pub mod impls;
