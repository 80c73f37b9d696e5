//! Mouse button state, one bit per button index.
use vstd::prelude::*;
use super::InputEvent;

verus! {

/// The bit that stands for the button with the given index.
pub open spec fn button_bit(button: u16) -> u16
    recommends
        button < 16,
{
    (1u16 << button) as u16
}

/// The abstract state of the mouse buttons: one bit per button index.
pub struct MouseButtons {
    /// Buttons currently held down.
    pub held: u16,
    /// Buttons pressed since the last update.
    pub pressed: u16,
    /// Buttons whose release was handled since the last update.
    pub released: u16,
}

/// The button state after one event.
///
/// A press sets the button's bit in `pressed` and `held`; a release clears its bit in `held`
/// and in `released`.
pub open spec fn mouse_step(v: MouseButtons, event: InputEvent) -> MouseButtons
    recommends
        event is MouseButton ==> event->button < 16,
{
    match event {
        InputEvent::MouseButton { button, pressed: true } => MouseButtons {
            pressed: v.pressed | button_bit(button),
            held: v.held | button_bit(button),
            ..v
        },
        InputEvent::MouseButton { button, pressed: false } => MouseButtons {
            held: v.held & !button_bit(button),
            released: v.released & !button_bit(button),
            ..v
        },
        _ => v,
    }
}

/// The button state at the start of an update: held buttons remain.
pub open spec fn mouse_update(v: MouseButtons) -> MouseButtons {
    MouseButtons { held: v.held, pressed: 0, released: 0 }
}

/// The button state after a sequence of events.
pub open spec fn mouse_steps(v: MouseButtons, events: Seq<InputEvent>) -> MouseButtons
    decreases events.len(),
{
    if events.len() == 0 {
        v
    } else {
        mouse_step(mouse_steps(v, events.drop_last()), events.last())
    }
}

/// Every mouse event of the sequence names a button below 16.
pub open spec fn valid_mouse_events(events: Seq<InputEvent>) -> bool {
    forall|i: int|
        0 <= i < events.len() ==> (#[trigger] events[i] is MouseButton ==> events[i]->button < 16)
}

/// A container for window-based mouse button events.
///
/// Cursor position, movement and wheel scrolling are kept by the windowing layer.
pub struct MouseBuf {
    held: u16,
    pressed: u16,
    released: u16,
}

impl View for MouseBuf {
    type V = MouseButtons;

    closed spec fn view(&self) -> MouseButtons {
        MouseButtons { held: self.held, pressed: self.pressed, released: self.released }
    }
}

impl Default for MouseBuf {
    fn default() -> (r: Self)
        ensures
            r@ == (MouseButtons { held: 0, pressed: 0, released: 0 }),
    {
        MouseBuf { held: 0, pressed: 0, released: 0 }
    }
}

impl MouseBuf {
    /// The bit of the button with the given index.
    fn bit(button: u16) -> (r: u16)
        requires
            button < 16,
        ensures
            r == button_bit(button),
    {
        1u16 << button
    }

    /// Whether any button is held down.
    pub fn any_held(&self) -> (r: bool)
        ensures
            r == (self@.held != 0),
    {
        self.held != 0
    }

    /// Whether any button was pressed since the last update.
    pub fn any_pressed(&self) -> (r: bool)
        ensures
            r == (self@.pressed != 0),
    {
        self.pressed != 0
    }

    /// Whether any button is marked released.
    pub fn any_released(&self) -> (r: bool)
        ensures
            r == (self@.released != 0),
    {
        self.released != 0
    }

    /// Clears the pressed and released buttons; call this before handling the events of a frame.
    pub fn update(&mut self)
        ensures
            final(self)@ == mouse_update(old(self)@),
    {
        self.pressed = 0;
        self.released = 0;
    }

    /// Handles a button event for the button with the given index.
    pub fn handle_button(&mut self, button: u16, pressed: bool)
        requires
            button < 16,
        ensures
            final(self)@ == mouse_step(old(self)@, InputEvent::MouseButton { button, pressed }),
    {
        let bit = Self::bit(button);
        if pressed {
            self.pressed = self.pressed | bit;
            self.held = self.held | bit;
        } else {
            self.held = self.held & !bit;
            self.released = self.released & !bit;
        }
    }

    /// Handles one event, returning whether it was a mouse button event.
    pub fn handle_event(&mut self, event: &InputEvent) -> (r: bool)
        requires
            *event is MouseButton ==> event->button < 16,
        ensures
            r == (*event is MouseButton),
            final(self)@ == mouse_step(old(self)@, *event),
    {
        match event {
            InputEvent::MouseButton { button, pressed } => {
                self.handle_button(*button, *pressed);
                true
            },
            _ => false,
        }
    }

    /// Whether the button is held down.
    pub fn is_held(&self, button: u16) -> (r: bool)
        requires
            button < 16,
        ensures
            r == (self@.held & button_bit(button) != 0),
    {
        self.held & Self::bit(button) != 0
    }

    /// Whether the button was pressed since the last update.
    pub fn is_pressed(&self, button: u16) -> (r: bool)
        requires
            button < 16,
        ensures
            r == (self@.pressed & button_bit(button) != 0),
    {
        self.pressed & Self::bit(button) != 0
    }

    /// Whether the button is marked released.
    pub fn is_released(&self, button: u16) -> (r: bool)
        requires
            button < 16,
        ensures
            r == (self@.released & button_bit(button) != 0),
    {
        self.released & Self::bit(button) != 0
    }
}

/// After a press the button is held and pressed; after a release it is neither held nor marked
/// released, and the other buttons keep their state.
pub proof fn lemma_button_press_release(v: MouseButtons, button: u16, other: u16)
    requires
        button < 16,
        other < 16,
        other != button,
    ensures
        mouse_step(v, InputEvent::MouseButton { button, pressed: true }).held & button_bit(button) != 0,
        mouse_step(v, InputEvent::MouseButton { button, pressed: true }).pressed & button_bit(button) != 0,
        mouse_step(v, InputEvent::MouseButton { button, pressed: false }).held & button_bit(button) == 0,
        mouse_step(v, InputEvent::MouseButton { button, pressed: false }).released & button_bit(button) == 0,
        (mouse_step(v, InputEvent::MouseButton { button, pressed: true }).held & button_bit(other) != 0)
            == (v.held & button_bit(other) != 0),
        (mouse_step(v, InputEvent::MouseButton { button, pressed: false }).held & button_bit(other) != 0)
            == (v.held & button_bit(other) != 0),
{
    let h = v.held;
    let p = v.pressed;
    let r = v.released;
    assert((h | (1u16 << button)) & (1u16 << button) != 0) by (bit_vector)
        requires
            button < 16,
    ;
    assert((p | (1u16 << button)) & (1u16 << button) != 0) by (bit_vector)
        requires
            button < 16,
    ;
    assert((h & !(1u16 << button)) & (1u16 << button) == 0) by (bit_vector)
        requires
            button < 16,
    ;
    assert((r & !(1u16 << button)) & (1u16 << button) == 0) by (bit_vector)
        requires
            button < 16,
    ;
    assert(((h | (1u16 << button)) & (1u16 << other) != 0) == (h & (1u16 << other) != 0)) by (bit_vector)
        requires
            button < 16,
            other < 16,
            other != button,
    ;
    assert(((h & !(1u16 << button)) & (1u16 << other) != 0) == (h & (1u16 << other) != 0)) by (bit_vector)
        requires
            button < 16,
            other < 16,
            other != button,
    ;
}

} // verus!
