//! What a graphics toolkit needs of the brain: a frame to render into, and the
//! touches on the screen as events of a pointer.
use vstd::prelude::*;
use crate::sync::once::{OnceLock, OnceStage};

verus! {

/// What the finger does on the screen.
#[derive(Debug, Clone, Copy, PartialEq, Eq, Structural)]
pub enum TouchState {
    /// The finger has left the screen.
    Released,
    /// The finger has come down on the screen.
    Pressed,
    /// The finger stays on the screen.
    Held,
}

/// The last touch that the screen has seen.
#[derive(Debug, Clone, Copy, PartialEq, Eq, Structural)]
pub struct TouchEvent {
    /// What the finger did.
    pub state: TouchState,
    /// Pixels from the left edge.
    pub x: i16,
    /// Pixels from the top edge.
    pub y: i16,
}

/// A position in the window. The window has the scale one, so that its
/// positions are the pixels of the screen.
#[derive(Debug, Clone, Copy, PartialEq, Eq, Structural)]
pub struct WindowPosition {
    /// Pixels from the left edge.
    pub x: i32,
    /// Pixels from the top edge.
    pub y: i32,
}

/// A button of a pointer.
#[derive(Debug, Clone, Copy, PartialEq, Eq, Structural)]
pub enum PointerButton {
    /// The left button, which a finger stands for.
    Left,
}

/// What a window is told of its pointer.
#[derive(Debug, Clone, Copy, PartialEq, Eq, Structural)]
pub enum WindowEvent {
    /// A button went down.
    PointerPressed {
        /// Where the pointer is.
        position: WindowPosition,
        /// The button.
        button: PointerButton,
    },
    /// A button came up.
    PointerReleased {
        /// Where the pointer is.
        position: WindowPosition,
        /// The button.
        button: PointerButton,
    },
    /// The pointer moved.
    PointerMoved {
        /// Where the pointer is.
        position: WindowPosition,
    },
}

/// The event that a window is told for a touch: a finger that comes down presses
/// the left button, a finger that leaves releases it, a finger that stays moves
/// the pointer; each at the place of the touch.
pub open spec fn touch_event(touch: TouchEvent) -> WindowEvent {
    let position = WindowPosition { x: touch.x as i32, y: touch.y as i32 };
    match touch.state {
        TouchState::Released => WindowEvent::PointerReleased {
            position,
            button: PointerButton::Left,
        },
        TouchState::Pressed => WindowEvent::PointerPressed { position, button: PointerButton::Left },
        TouchState::Held => WindowEvent::PointerMoved { position },
    }
}

/// One pixel of a frame.
#[derive(Debug, Clone, Copy, PartialEq, Eq, Structural)]
pub struct Rgb8Pixel {
    /// Red.
    pub r: u8,
    /// Green.
    pub g: u8,
    /// Blue.
    pub b: u8,
}

/// Number of pixels of the screen.
pub const FRAME_PIXELS: usize = 130560;

/// Milliseconds for which the event loop rests when nothing moves.
pub const IDLE_PAUSE_MS: u64 = 1;

/// The brain as a platform for a graphics toolkit.
pub struct V5Platform {
    buffer: Vec<Rgb8Pixel>,
}

impl V5Platform {
    /// The frame that every rendering starts from.
    pub closed spec fn view(&self) -> Seq<Rgb8Pixel> {
        self.buffer@
    }

    /// A platform whose frame has one black pixel for every pixel of the screen,
    /// 480 in each of 272 rows.
    pub fn new() -> (platform: Self)
        ensures
            platform@.len() == 480 * 272,
            forall|i: int|
                0 <= i < platform@.len() ==> #[trigger] platform@[i] == (Rgb8Pixel {
                    r: 0,
                    g: 0,
                    b: 0,
                }),
    {
        let mut buffer: Vec<Rgb8Pixel> = Vec::new();
        let mut i: usize = 0;
        while i < FRAME_PIXELS
            invariant
                i <= FRAME_PIXELS,
                buffer@.len() == i,
                forall|k: int| 0 <= k < i ==> #[trigger] buffer@[k] == (Rgb8Pixel { r: 0, g: 0, b: 0 }),
            decreases FRAME_PIXELS - i,
        {
            buffer.push(Rgb8Pixel { r: 0, g: 0, b: 0 });
            i = i + 1;
        }
        V5Platform { buffer }
    }

    /// A copy of the frame, to render into. The frame of the platform stays as it
    /// is.
    pub fn frame(&self) -> (frame: Vec<Rgb8Pixel>)
        ensures
            frame@ == self@,
    {
        let mut frame: Vec<Rgb8Pixel> = Vec::new();
        let mut i: usize = 0;
        while i < self.buffer.len()
            invariant
                i <= self.buffer@.len(),
                frame@ == self.buffer@.take(i as int),
            decreases self.buffer@.len() - i,
        {
            frame.push(self.buffer[i]);
            assert(self.buffer@.take(i as int).push(self.buffer@[i as int]) =~= self.buffer@.take(
                i + 1,
            ));
            i = i + 1;
        }
        assert(self.buffer@.take(self.buffer@.len() as int) =~= self.buffer@);
        frame
    }

    /// The event that the window is told for the last touch on the screen.
    pub fn get_touch_event(&self, touch: TouchEvent) -> (event: WindowEvent)
        ensures
            event == touch_event(touch),
    {
        let position = WindowPosition { x: touch.x as i32, y: touch.y as i32 };
        match touch.state {
            TouchState::Released => WindowEvent::PointerReleased {
                position,
                button: PointerButton::Left,
            },
            TouchState::Pressed => WindowEvent::PointerPressed {
                position,
                button: PointerButton::Left,
            },
            TouchState::Held => WindowEvent::PointerMoved { position },
        }
    }

    /// How long the event loop rests after a frame, in milliseconds: not at all
    /// while an animation runs, else for one millisecond.
    pub fn pause_after_frame(&self, has_active_animations: bool) -> (pause: Option<u64>)
        ensures
            pause == if has_active_animations {
                None
            } else {
                Some(IDLE_PAUSE_MS)
            },
    {
        if !has_active_animations {
            Some(IDLE_PAUSE_MS)
        } else {
            None
        }
    }
}

/// Makes the brain the platform of the toolkit: `backend` is the place in which
/// the toolkit keeps its platform, and it is filled once. The place must be
/// empty: a toolkit has one platform for as long as the program runs.
pub fn initialize_slint_backend(backend: &mut OnceLock<V5Platform>)
    requires
        old(backend).wf(),
        old(backend).state().stage == OnceStage::Uninitialized,
    ensures
        final(backend).wf(),
        final(backend).state().stage == OnceStage::Initialized,
        final(backend).value() is Some,
        final(backend).value()->0@.len() == 480 * 272,
        forall|i: int|
            0 <= i < 480 * 272 ==> #[trigger] final(backend).value()->0@[i] == (Rgb8Pixel {
                r: 0,
                g: 0,
                b: 0,
            }),
{
    let platform = V5Platform::new();
    let _ = backend.set(platform);
}

} // verus!
