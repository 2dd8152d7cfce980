//! The verified core of a plant-model library: the integer rules of curved
//! primitive tessellation and the tessellation caliber, the spatial
//! acceleration tree of element boxes with its refno index, the unit
//! cylinder's triangles and mesh merging, the SurrealQL statements of the
//! model queries, read routing, the installation protocol of the
//! compatibility functions, wall-door grouping and the UDA name tables.

use vstd::prelude::*;

pub mod discretise;
pub mod facet_caliber;
pub mod refno;
pub mod spatial;
pub mod accel_tree;
pub mod wall_doors;
pub mod decimal;
pub mod direct_reads;
pub mod text;
pub mod inst_meta;
pub mod mesh;
pub mod sweep;
pub mod sql;
pub mod uda;
pub mod config;
pub mod selection;

verus! {

} // verus!
