//! Keyboard and mouse input state captured during event loop processing.
use vstd::prelude::*;
use self::key_buf::{KeyBuf, key_steps, key_update};
use self::mouse_buf::{MouseBuf, mouse_steps, mouse_update, valid_mouse_events};

pub mod key;
pub mod key_buf;
pub mod mouse_buf;
pub mod sorted;
pub mod typing;

verus! {

/// Key code of the backspace key.
pub const KEY_BACK: u32 = 74;

/// Key code of the delete key.
pub const KEY_DELETE: u32 = 66;

/// Key code of the end key.
pub const KEY_END: u32 = 67;

/// Key code of the home key.
pub const KEY_HOME: u32 = 65;

/// Key code of the left arrow key.
pub const KEY_LEFT: u32 = 70;

/// Key code of the right arrow key.
pub const KEY_RIGHT: u32 = 72;

/// An input event, reduced to what the input buffers read from it.
///
/// Key codes are the ordinals of the windowing system's virtual key codes.
pub enum InputEvent {
    /// A key was pressed or released.
    Key { key: u32, pressed: bool },
    /// A character was received.
    Char(char),
    /// A mouse button, by index, was pressed or released.
    MouseButton { button: u16, pressed: bool },
    /// Any other event.
    Other,
}


/// Starts a new frame on both buffers and handles the events in order.
pub fn update_input(keyboard: &mut KeyBuf, mouse: &mut MouseBuf, events: &[InputEvent])
    requires
        valid_mouse_events(events@),
    ensures
        final(keyboard)@ == key_steps(key_update(old(keyboard)@), events@),
        final(mouse)@ == mouse_steps(mouse_update(old(mouse)@), events@),
{
    let ghost k0 = key_update(keyboard@);
    let ghost m0 = mouse_update(mouse@);
    keyboard.update();
    mouse.update();
    let mut i: usize = 0;
    while i < events.len()
        invariant
            i <= events@.len(),
            valid_mouse_events(events@),
            keyboard@ == key_steps(k0, events@.take(i as int)),
            mouse@ == mouse_steps(m0, events@.take(i as int)),
        decreases events@.len() - i,
    {
        proof {
            assert(events@.take(i as int + 1).drop_last() == events@.take(i as int));
            assert(events@.take(i as int + 1).last() == events@[i as int]);
        }
        keyboard.handle_event(&events[i]);
        mouse.handle_event(&events[i]);
        i = i + 1;
    }
    proof {
        assert(events@.take(events@.len() as int) == events@);
    }
}

/// Starts a new frame on the keyboard buffer and handles the events in order.
pub fn update_keyboard(keyboard: &mut KeyBuf, events: &[InputEvent])
    ensures
        final(keyboard)@ == key_steps(key_update(old(keyboard)@), events@),
{
    let ghost k0 = key_update(keyboard@);
    keyboard.update();
    let mut i: usize = 0;
    while i < events.len()
        invariant
            i <= events@.len(),
            keyboard@ == key_steps(k0, events@.take(i as int)),
        decreases events@.len() - i,
    {
        proof {
            assert(events@.take(i as int + 1).drop_last() == events@.take(i as int));
            assert(events@.take(i as int + 1).last() == events@[i as int]);
        }
        keyboard.handle_event(&events[i]);
        i = i + 1;
    }
    proof {
        assert(events@.take(events@.len() as int) == events@);
    }
}

/// Starts a new frame on the mouse buffer and handles the events in order.
pub fn update_mouse(mouse: &mut MouseBuf, events: &[InputEvent])
    requires
        valid_mouse_events(events@),
    ensures
        final(mouse)@ == mouse_steps(mouse_update(old(mouse)@), events@),
{
    let ghost m0 = mouse_update(mouse@);
    mouse.update();
    let mut i: usize = 0;
    while i < events.len()
        invariant
            i <= events@.len(),
            valid_mouse_events(events@),
            mouse@ == mouse_steps(m0, events@.take(i as int)),
        decreases events@.len() - i,
    {
        proof {
            assert(events@.take(i as int + 1).drop_last() == events@.take(i as int));
            assert(events@.take(i as int + 1).last() == events@[i as int]);
        }
        mouse.handle_event(&events[i]);
        i = i + 1;
    }
    proof {
        assert(events@.take(events@.len() as int) == events@);
    }
}

} // verus!
