use vstd::prelude::*;

verus! {

/// Presentation modes a surface may offer.
#[derive(Clone, Copy, Debug, PartialEq, Eq, Structural)]
pub enum PresentMode {
    Immediate,
    Mailbox,
    Fifo,
    FifoRelaxed,
}

/// How presenting a frame went.
#[derive(Clone, Copy, Debug, PartialEq, Eq, Structural)]
pub enum PresentOutcome {
    Presented,
    OutOfDate,
    Suboptimal,
    /// Any other error the API reported, by its code.
    Failed(i32),
}

/// What the frame loop does after presenting.
#[derive(Clone, Copy, Debug, PartialEq, Eq, Structural)]
pub enum PresentAction {
    Continue,
    /// The surface changed: recreate the swapchain and its render target.
    Recreate,
    /// An unrecoverable error.
    Fatal(i32),
}

/// An out-of-date or suboptimal surface is no error: it asks for the
/// swapchain to be recreated. Any other error is fatal.
pub fn present_action(outcome: PresentOutcome) -> (r: PresentAction)
    ensures
        r == match outcome {
            PresentOutcome::Presented => PresentAction::Continue,
            PresentOutcome::OutOfDate => PresentAction::Recreate,
            PresentOutcome::Suboptimal => PresentAction::Recreate,
            PresentOutcome::Failed(code) => PresentAction::Fatal(code),
        },
{
    match outcome {
        PresentOutcome::Presented => PresentAction::Continue,
        PresentOutcome::OutOfDate | PresentOutcome::Suboptimal => PresentAction::Recreate,
        PresentOutcome::Failed(code) => PresentAction::Fatal(code),
    }
}

/// One image more than the surface's minimum, but no more than its maximum
/// when it has one (a maximum of 0 means no limit).
pub fn desired_image_count(min_image_count: u32, max_image_count: u32) -> (r: u32)
    requires
        min_image_count < u32::MAX,
    ensures
        r == if max_image_count > 0 && min_image_count + 1 > max_image_count {
            max_image_count as int
        } else {
            min_image_count + 1
        },
{
    let desired = min_image_count + 1;
    if max_image_count > 0 && desired > max_image_count {
        max_image_count
    } else {
        desired
    }
}

/// The swapchain's extent: the surface's current extent, unless the
/// surface leaves it to the window (a width of `u32::MAX`).
pub fn surface_extent(current_width: u32, current_height: u32, window_width: u32, window_height: u32) -> (r: (
    u32,
    u32,
))
    ensures
        r == if current_width == u32::MAX {
            (window_width, window_height)
        } else {
            (current_width, current_height)
        },
{
    if current_width == u32::MAX {
        (window_width, window_height)
    } else {
        (current_width, current_height)
    }
}

/// Mailbox when the surface offers it, else FIFO, which every surface supports.
pub fn choose_present_mode(modes: &Vec<PresentMode>) -> (r: PresentMode)
    ensures
        r == if modes@.contains(PresentMode::Mailbox) {
            PresentMode::Mailbox
        } else {
            PresentMode::Fifo
        },
{
    let mut i: usize = 0;
    while i < modes.len()
        invariant
            i <= modes@.len(),
            forall|j: int| 0 <= j < i ==> modes@[j] != PresentMode::Mailbox,
        decreases modes@.len() - i,
    {
        if modes[i] == PresentMode::Mailbox {
            return PresentMode::Mailbox;
        }
        i = i + 1;
    }
    PresentMode::Fifo
}

/// A frame is traced only once the ray-tracing pipeline and the sky texture
/// are published, the scene's top-level structure is built and the shader
/// binding table has a buffer; otherwise the frame skips that work.
pub fn ready_to_trace(pipeline_ready: bool, skybox_ready: bool, scene_ready: bool, sbt_address: u64) -> (r: bool)
    ensures
        r == (pipeline_ready && skybox_ready && scene_ready && sbt_address != 0),
{
    pipeline_ready && skybox_ready && scene_ready && sbt_address != 0
}

} // verus!
