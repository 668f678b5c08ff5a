//! Scene core of a 2D canvas editor: layers and shapes with a deterministic
//! draw order, bounded update batches, and the integer rules of the spatial
//! index and of the canvas.
use vstd::prelude::*;

pub mod batch_ops;
pub mod canvas;
pub mod errors;
pub mod layer;
pub mod layer_tree;
pub mod linalg;
pub mod opacity;
pub mod shape;
pub mod spatial;

verus! {

} // verus!
