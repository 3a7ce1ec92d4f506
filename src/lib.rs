//! A minimal game-engine shell: a frame-pacing loop that drives a
//! backend-agnostic renderer and guarantees the renderer's cleanup handshake.
pub mod clock;
pub mod frame_loop;
pub mod laws;
pub mod model;
pub mod renderer;

pub use clock::{FrameClock, DEFAULT_TARGET_FRAME_NANOS};
pub use frame_loop::{FrameLoop, LoopError};
pub use model::{FrameStep, LoopControl, LoopEvent, Phase};
pub use renderer::{
    create_renderer, Backend, BackendError, GraphicsBackend, Renderer, RendererCall, VulkanRenderer,
};
