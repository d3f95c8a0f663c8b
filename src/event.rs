//! The events a platform hands to the frame owner, and the event loop's
//! shutdown signal.

use vstd::prelude::*;

verus! {

/// Relies on std::time::Instant as an opaque point in time that events carry.
#[verifier::external_type_specification]
#[verifier::external_body]
pub struct ExInstant(std::time::Instant);

/// Something that happened on a window. `Ptr` is the platform's pointer
/// event data.
pub enum WindowEvent<Ptr> {
    /// The window size changed.
    Resize,
    /// The scale of the window changed.
    DpScaleChange,
    /// A key was pressed.
    KeyDown(i32),
    /// The window close button was clicked.
    Quit,
    /// A pointer event happened on the window.
    Pointer(Ptr),
}

/// What a platform can generate.
pub enum Event<'a, Ptr> {
    /// A window event, such as a resize.
    WindowEvent(WindowEvent<Ptr>),
    /// A new frame starts at this time.
    StartFrame(std::time::Instant),
    /// Update all pending watch closures.
    Update,
    /// Draw all widgets.
    Draw,
    /// After drawing, present the result.
    FinishDraw,
    /// Take a screenshot into this buffer.
    TakeScreenshot(&'a mut Box<[u8]>),
}

/// What an event handler can use to stop the event loop.
pub trait EventLoopState {
    /// Signals that the event loop should stop.
    fn request_shutdown(&mut self);
}

/// An event loop state that is one flag.
#[derive(Clone, Copy, Debug)]
pub struct SimpleEventLoopState {
    /// Whether the event loop should keep running.
    pub running: bool,
}

impl Default for SimpleEventLoopState {
    fn default() -> (r: Self)
        ensures
            r.running,
    {
        SimpleEventLoopState { running: true }
    }
}

impl EventLoopState for SimpleEventLoopState {
    fn request_shutdown(&mut self)
        ensures
            !final(self).running,
    {
        self.running = false;
    }
}

} // verus!
