//! Render-side bookkeeping that mesh drawing code shares.

use vstd::prelude::*;

verus! {

/// Running state kept while recording a mesh's draw commands: the next free
/// vertex slot index.
pub struct MeshRenderData {
    pub next_vertex_idx: u32,
}

} // verus!
