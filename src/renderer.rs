//! The renderer capability and the backend selector.
use vstd::prelude::*;

verus! {

/// An error surfaced by a graphics backend.
pub struct BackendError {
    pub message: String,
}

impl BackendError {
    pub fn new(message: String) -> (r: BackendError)
        ensures
            r.message@ == message@,
    {
        BackendError { message }
    }
}

/// One call made on a renderer, with its outcome.
pub enum RendererCall {
    Initialize { succeeded: bool },
    DrawFrame { succeeded: bool },
    Cleanup,
}

/// What every graphics backend offers to the frame loop.
///
/// `history` is every call made on the renderer so far, in order, with its
/// outcome; each method appends its own call. A backend written
/// outside Verus may keep the default; what the frame loop's contracts say
/// of its calls then rests on that backend keeping to the contracts below. The frame loop calls
/// `initialize` at most once, before any `draw_frame`, and `cleanup` at most
/// once, after the last `draw_frame`; all calls come from the thread that
/// runs the loop.
pub trait Renderer {
    closed spec fn history(&self) -> Seq<RendererCall> {
        Seq::empty()
    }

    /// Acquires GPU resources, the swapchain and any persistent state.
    fn initialize(&mut self) -> (r: Result<(), BackendError>)
        ensures
            final(self).history() == old(self).history().push(
                RendererCall::Initialize { succeeded: r is Ok },
            ),
    ;

    /// Renders one frame to the current swapchain image and presents it.
    fn draw_frame(&mut self) -> (r: Result<(), BackendError>)
        ensures
            final(self).history() == old(self).history().push(
                RendererCall::DrawFrame { succeeded: r is Ok },
            ),
    ;

    /// Releases all GPU resources; it never fails and accepts being called
    /// after a failed `draw_frame`.
    fn cleanup(&mut self)
        ensures
            final(self).history() == old(self).history().push(RendererCall::Cleanup),
    ;
}

/// The Vulkan backend. It acquires nothing yet, so none of its calls fail.
pub struct VulkanRenderer {
    calls: Ghost<Seq<RendererCall>>,
}

impl VulkanRenderer {
    pub fn new() -> (r: VulkanRenderer)
        ensures
            r.history() == Seq::<RendererCall>::empty(),
    {
        VulkanRenderer { calls: Ghost(Seq::empty()) }
    }
}

impl Renderer for VulkanRenderer {
    closed spec fn history(&self) -> Seq<RendererCall> {
        self.calls@
    }

    fn initialize(&mut self) -> (r: Result<(), BackendError>)
        ensures
            r is Ok,
    {
        self.calls = Ghost(self.calls@.push(RendererCall::Initialize { succeeded: true }));
        Ok(())
    }

    fn draw_frame(&mut self) -> (r: Result<(), BackendError>)
        ensures
            r is Ok,
    {
        self.calls = Ghost(self.calls@.push(RendererCall::DrawFrame { succeeded: true }));
        Ok(())
    }

    fn cleanup(&mut self) {
        self.calls = Ghost(self.calls@.push(RendererCall::Cleanup));
    }
}

/// The graphics backends this engine can drive.
#[derive(PartialEq, Eq, Structural, Clone, Copy, Debug)]
pub enum GraphicsBackend {
    Vulkan,
}

/// A renderer of one of the supported backends.
pub enum Backend {
    Vulkan(VulkanRenderer),
}

impl Backend {
    /// The tag of the backend this renderer belongs to.
    pub open spec fn tag(&self) -> GraphicsBackend {
        match self {
            Backend::Vulkan(_) => GraphicsBackend::Vulkan,
        }
    }

    pub fn backend(&self) -> (r: GraphicsBackend)
        ensures
            r == self.tag(),
    {
        match self {
            Backend::Vulkan(_) => GraphicsBackend::Vulkan,
        }
    }
}

impl Renderer for Backend {
    open spec fn history(&self) -> Seq<RendererCall> {
        match self {
            Backend::Vulkan(r) => r.history(),
        }
    }

    fn initialize(&mut self) -> (r: Result<(), BackendError>)
        ensures
            r is Ok,
    {
        match self {
            Backend::Vulkan(r) => r.initialize(),
        }
    }

    fn draw_frame(&mut self) -> (r: Result<(), BackendError>)
        ensures
            r is Ok,
    {
        match self {
            Backend::Vulkan(r) => r.draw_frame(),
        }
    }

    fn cleanup(&mut self) {
        match self {
            Backend::Vulkan(r) => r.cleanup(),
        }
    }
}

/// Builds the renderer of the given backend; total over the tags, and it
/// never fails.
pub fn create_renderer(backend: GraphicsBackend) -> (r: Backend)
    ensures
        r.tag() == backend,
        r.history() == Seq::<RendererCall>::empty(),
{
    match backend {
        GraphicsBackend::Vulkan => Backend::Vulkan(VulkanRenderer::new()),
    }
}

} // verus!
