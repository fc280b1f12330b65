//! A library for generating and manipulating periodic 3D lattices.
//!
//! A lattice is a unit cell — a list of labeled sites plus directed edges that
//! encode periodic connectivity — together with a size along each axis.
//! Coordinates and sizes are integers in a unit of the caller's choosing.
//! The library offers composable operations to grow (`expand`), prune
//! (`drop`), filter (`apply_mask`) and substitute (`alloy_sites`) that
//! structure, each of which consumes a lattice by value and returns a new,
//! still-valid lattice.

pub mod error;
pub mod io;
pub mod json;

mod alloy;
mod edge;
mod lattice;
mod mask;
mod rng;
mod site;
mod util;
mod vertex;

pub use alloy::Alloy;
pub use alloy::AlloyView;
pub use edge::Edge;
pub use edge::EdgeView;
pub use error::VegasLatticeError;
pub use lattice::Lattice;
pub use lattice::LatticeView;
pub use lattice::alloyed;
pub use lattice::edges_view;
pub use lattice::keeps_axis;
pub use lattice::kept_count;
pub use lattice::kept_edges;
pub use lattice::kept_sites;
pub use lattice::lemma_drop_idempotent;
pub use lattice::lemma_dropped_wf;
pub use lattice::lemma_expand_assoc;
pub use lattice::lemma_expand_counts;
pub use lattice::lemma_expanded_wf;
pub use lattice::lemma_filtered_consistent;
pub use lattice::lemma_rebuild_round_trip;
pub use lattice::mask_admissible;
pub use lattice::mask_keep_ok;
pub use lattice::reindexed;
pub use lattice::sites_view;
pub use lattice::validated;
pub use mask::Mask;
pub use mask::MaskView;
pub use site::Site;
pub use site::SiteView;
pub use util::Axis;
pub use util::Tagged;
pub use util::axis_sel;
pub use util::axis_upd;
pub use util::plane_sel;
pub use util::python_mod;
pub use vertex::Vertex;
pub use vertex::VertexView;
