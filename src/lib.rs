//! The asynchronous GPU upload protocol of a real-time renderer: the requests
//! that the render thread sends, the batching worker that turns them into GPU
//! work, the barrier before results are published, and the render-side
//! integration of finished resources.

pub mod channel;
pub mod batch;
pub mod message;
pub mod plan;
pub mod scene;
pub mod shaders;
pub mod texture;
pub mod worker;
