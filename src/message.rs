use vstd::prelude::*;

verus! {

/// One request sent from the render thread to the upload worker.
#[derive(Clone, Copy, Debug, PartialEq, Eq, Structural)]
pub enum Message {
    /// Decode a mesh asset and stage it for binding on the render thread.
    UploadMesh,
    /// Allocate a 2D texture and fill it with generated pixels.
    UploadTexture,
    /// Ask the worker to stop after the cycle that sees this request.
    Exit,
}

} // verus!
