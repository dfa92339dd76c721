//! Conversion core for declarative neural-circuit simulation bundles.
//!
//! The library turns a declarative simulation description (component search
//! locations, cell populations, connectivity) into a validated simulation
//! graph and a serializable bundle: per-cell biophysical "fit" descriptions,
//! native or NeuroML-derived, converge to one canonical text encoding (ACC),
//! and the bundle is snapshotted in a stable binary form.

pub mod cbor;
pub mod decor;
pub mod err;
pub mod fit;
pub mod gen;
pub mod lex;
pub mod nml;
pub mod raw;
pub mod resolve;
pub mod sim;

