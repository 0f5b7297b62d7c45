use vstd::prelude::*;

verus! {

/// A window event as the frame loop sees it.
#[derive(Clone, Copy, Debug, PartialEq, Eq, Structural)]
pub enum FrameEvent {
    /// The drawable area now has this size.
    Resized { width: u32, height: u32 },
    CloseRequested,
    RedrawRequested,
    /// Any event the loop does not act on.
    Other,
}

/// What the frame loop does in answer to one event.
#[derive(Clone, Copy, Debug, PartialEq, Eq, Structural)]
pub enum FrameAction {
    /// Reconfigure the render target to this size before the next frame.
    Reconfigure { width: u32, height: u32 },
    /// Render and present one frame, then ask for the next one.
    Render,
    /// Leave the loop.
    Exit,
    /// Nothing to do.
    Idle,
}

/// The state that the frame loop carries from one event to the next.
#[derive(Clone, Copy, Debug, PartialEq, Eq, Structural)]
pub struct FrameState {
    /// Size the render target is configured for.
    pub width: u32,
    pub height: u32,
    /// A close was requested; no further frame is rendered.
    pub closed: bool,
}

impl FrameState {
    /// The state of a loop whose render target was configured at this size.
    pub fn new(width: u32, height: u32) -> (r: FrameState)
        ensures
            r == (FrameState { width, height, closed: false }),
    {
        FrameState { width, height, closed: false }
    }
}

/// Handles one event: a resize reconfigures the target, a close ends the loop,
/// a redraw renders exactly one frame. Once closed, the loop only exits.
pub fn next_frame(state: FrameState, event: FrameEvent) -> (r: (FrameState, FrameAction))
    ensures
        state.closed ==> r == (state, FrameAction::Exit),
        !state.closed ==> match event {
            FrameEvent::Resized { width, height } => r == (
                FrameState { width, height, closed: false },
                FrameAction::Reconfigure { width, height },
            ),
            FrameEvent::CloseRequested => r == (
                FrameState { closed: true, ..state },
                FrameAction::Exit,
            ),
            FrameEvent::RedrawRequested => r == (state, FrameAction::Render),
            FrameEvent::Other => r == (state, FrameAction::Idle),
        },
{
    if state.closed {
        return (state, FrameAction::Exit);
    }
    match event {
        FrameEvent::Resized { width, height } => (
            FrameState { width, height, closed: false },
            FrameAction::Reconfigure { width, height },
        ),
        FrameEvent::CloseRequested => (
            FrameState { width: state.width, height: state.height, closed: true },
            FrameAction::Exit,
        ),
        FrameEvent::RedrawRequested => (state, FrameAction::Render),
        FrameEvent::Other => (state, FrameAction::Idle),
    }
}

} // verus!
