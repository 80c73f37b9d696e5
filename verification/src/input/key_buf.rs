//! Keyboard input state: characters typed and keys held, pressed and released.
use vstd::prelude::*;
use super::sorted::{strictly_sorted, insert_key, remove_key, contains_key};
use super::InputEvent;

verus! {

/// The abstract state of a keyboard buffer.
pub struct KeyBufView {
    /// Characters received since the last update, in order.
    pub chars: Seq<char>,
    /// Keys currently held down.
    pub held: Set<u32>,
    /// Keys pressed since the last update.
    pub pressed: Set<u32>,
    /// Keys released since the last update.
    pub released: Set<u32>,
}

/// The keyboard state after one event.
pub open spec fn key_step(v: KeyBufView, event: InputEvent) -> KeyBufView {
    match event {
        InputEvent::Key { key, pressed: true } => KeyBufView {
            pressed: v.pressed.insert(key),
            held: v.held.insert(key),
            ..v
        },
        InputEvent::Key { key, pressed: false } => KeyBufView {
            held: v.held.remove(key),
            released: v.released.insert(key),
            ..v
        },
        InputEvent::Char(c) => KeyBufView { chars: v.chars.push(c), ..v },
        _ => v,
    }
}

/// Whether a keyboard buffer handles the event.
pub open spec fn is_key_event(event: InputEvent) -> bool {
    event is Key || event is Char
}

/// The keyboard state at the start of an update: held keys remain, everything else is cleared.
pub open spec fn key_update(v: KeyBufView) -> KeyBufView {
    KeyBufView { chars: seq![], held: v.held, pressed: Set::empty(), released: Set::empty() }
}

/// The keyboard state after a sequence of events.
pub open spec fn key_steps(v: KeyBufView, events: Seq<InputEvent>) -> KeyBufView
    decreases events.len(),
{
    if events.len() == 0 {
        v
    } else {
        key_step(key_steps(v, events.drop_last()), events.last())
    }
}

/// A container for window-based keyboard input events.
///
/// Keys pressed and released during a single update show as both pressed and released.
pub struct KeyBuf {
    chars: Vec<char>,
    held: Vec<u32>,
    pressed: Vec<u32>,
    released: Vec<u32>,
}

impl View for KeyBuf {
    type V = KeyBufView;

    closed spec fn view(&self) -> KeyBufView {
        KeyBufView {
            chars: self.chars@,
            held: self.held@.to_set(),
            pressed: self.pressed@.to_set(),
            released: self.released@.to_set(),
        }
    }
}

impl KeyBuf {
    #[verifier::type_invariant]
    closed spec fn inv(&self) -> bool {
        &&& strictly_sorted(self.held@)
        &&& strictly_sorted(self.pressed@)
        &&& strictly_sorted(self.released@)
    }

    /// An empty buffer: no characters, no keys.
    pub fn new() -> (r: Self)
        ensures
            r@.chars == Seq::<char>::empty(),
            r@.held == Set::<u32>::empty(),
            r@.pressed == Set::<u32>::empty(),
            r@.released == Set::<u32>::empty(),
    {
        let r = KeyBuf { chars: Vec::new(), held: Vec::new(), pressed: Vec::new(), released: Vec::new() };
        proof {
            assert(r.held@.to_set() =~= Set::<u32>::empty());
        }
        r
    }

    /// Whether any key is held down.
    pub fn any_held(&self) -> (r: bool)
        ensures
            r == !self@.held.is_empty(),
    {
        proof {
            set_of_seq_empty(self.held@);
        }
        self.held.len() != 0
    }

    /// Whether any key was pressed since the last update.
    pub fn any_pressed(&self) -> (r: bool)
        ensures
            r == !self@.pressed.is_empty(),
    {
        proof {
            set_of_seq_empty(self.pressed@);
        }
        self.pressed.len() != 0
    }

    /// Whether any key was released since the last update.
    pub fn any_released(&self) -> (r: bool)
        ensures
            r == !self@.released.is_empty(),
    {
        proof {
            set_of_seq_empty(self.released@);
        }
        self.released.len() != 0
    }

    /// The characters received since the last update, in order.
    pub fn chars(&self) -> (r: &[char])
        ensures
            r@ == self@.chars,
    {
        self.chars.as_slice()
    }

    /// Clears the characters and the pressed and released keys; call this before handling the
    /// events of a frame.
    pub fn update(&mut self)
        ensures
            final(self)@ == key_update(old(self)@),
    {
        proof {
            use_type_invariant(&*self);
        }
        self.chars = Vec::new();
        self.pressed = Vec::new();
        self.released = Vec::new();
        proof {
            assert(self.pressed@.to_set() =~= Set::<u32>::empty());
            assert(self.released@.to_set() =~= Set::<u32>::empty());
        }
    }

    /// Handles a key event: a pressed key becomes pressed and held; a released key stops being
    /// held and becomes released.
    pub fn handle_key(&mut self, key: u32, pressed: bool)
        ensures
            final(self)@ == key_step(old(self)@, InputEvent::Key { key, pressed }),
    {
        proof {
            use_type_invariant(&*self);
        }
        let mut pressed_keys: Vec<u32> = Vec::new();
        let mut held_keys: Vec<u32> = Vec::new();
        let mut released_keys: Vec<u32> = Vec::new();
        core::mem::swap(&mut pressed_keys, &mut self.pressed);
        core::mem::swap(&mut held_keys, &mut self.held);
        core::mem::swap(&mut released_keys, &mut self.released);
        if pressed {
            insert_key(&mut pressed_keys, key);
            insert_key(&mut held_keys, key);
        } else {
            remove_key(&mut held_keys, key);
            insert_key(&mut released_keys, key);
        }
        self.pressed = pressed_keys;
        self.held = held_keys;
        self.released = released_keys;
    }

    /// Handles a received character.
    pub fn handle_char(&mut self, c: char)
        ensures
            final(self)@ == key_step(old(self)@, InputEvent::Char(c)),
    {
        proof {
            use_type_invariant(&*self);
        }
        let mut chars: Vec<char> = Vec::new();
        core::mem::swap(&mut chars, &mut self.chars);
        chars.push(c);
        self.chars = chars;
    }

    /// Handles one event, returning whether it was a keyboard event.
    pub fn handle_event(&mut self, event: &InputEvent) -> (r: bool)
        ensures
            r == is_key_event(*event),
            final(self)@ == key_step(old(self)@, *event),
    {
        match event {
            InputEvent::Key { key, pressed } => {
                self.handle_key(*key, *pressed);
                true
            },
            InputEvent::Char(c) => {
                self.handle_char(*c);
                true
            },
            _ => false,
        }
    }

    /// Whether the key is held down.
    pub fn is_held(&self, key: u32) -> (r: bool)
        ensures
            r == self@.held.contains(key),
    {
        proof {
            use_type_invariant(self);
        }
        contains_key(&self.held, key)
    }

    /// Whether the key was pressed since the last update.
    pub fn is_pressed(&self, key: u32) -> (r: bool)
        ensures
            r == self@.pressed.contains(key),
    {
        proof {
            use_type_invariant(self);
        }
        contains_key(&self.pressed, key)
    }

    /// Whether the key was released since the last update.
    pub fn is_released(&self, key: u32) -> (r: bool)
        ensures
            r == self@.released.contains(key),
    {
        proof {
            use_type_invariant(self);
        }
        contains_key(&self.released, key)
    }

    /// The keys held down, in increasing order.
    pub fn held(&self) -> (r: Vec<u32>)
        ensures
            strictly_sorted(r@),
            r@.to_set() == self@.held,
    {
        proof {
            use_type_invariant(self);
        }
        self.held.clone()
    }

    /// The keys pressed since the last update, in increasing order.
    pub fn pressed(&self) -> (r: Vec<u32>)
        ensures
            strictly_sorted(r@),
            r@.to_set() == self@.pressed,
    {
        proof {
            use_type_invariant(self);
        }
        self.pressed.clone()
    }

    /// The keys released since the last update, in increasing order.
    pub fn released(&self) -> (r: Vec<u32>)
        ensures
            strictly_sorted(r@),
            r@.to_set() == self@.released,
    {
        proof {
            use_type_invariant(self);
        }
        self.released.clone()
    }
}

/// A sequence is empty exactly when its set is.
proof fn set_of_seq_empty(s: Seq<u32>)
    ensures
        (s.len() == 0) == s.to_set().is_empty(),
{
    if s.len() != 0 {
        assert(s.to_set().contains(s[0]));
    } else {
        assert(s.to_set() =~= Set::<u32>::empty());
    }
}

/// A key pressed and then released within one update shows as both pressed and released, and
/// is no longer held; the characters and the other keys are untouched.
pub proof fn lemma_key_press_release(v: KeyBufView, key: u32, other: u32)
    requires
        other != key,
    ensures
        ({
            let events = seq![
                InputEvent::Key { key, pressed: true },
                InputEvent::Key { key, pressed: false },
            ];
            let after = key_steps(key_update(v), events);
            &&& after.pressed.contains(key)
            &&& after.released.contains(key)
            &&& !after.held.contains(key)
            &&& after.chars == Seq::<char>::empty()
            &&& after.held.contains(other) == v.held.contains(other)
            &&& !after.pressed.contains(other)
            &&& !after.released.contains(other)
        }),
{
    let events = seq![
        InputEvent::Key { key, pressed: true },
        InputEvent::Key { key, pressed: false },
    ];
    assert(events.drop_last().drop_last() == Seq::<InputEvent>::empty());
    assert(events.drop_last().last() == InputEvent::Key { key, pressed: true });
    assert(events.last() == InputEvent::Key { key, pressed: false });
    let start = key_update(v);
    assert(key_steps(start, events.drop_last().drop_last()) == start);
    let pressed = key_step(start, InputEvent::Key { key, pressed: true });
    assert(key_steps(start, events.drop_last()) == pressed);
    assert(key_steps(start, events) == key_step(pressed, InputEvent::Key { key, pressed: false }));
}

/// Held keys outlast an update, which forgets the keys pressed and released before it.
pub proof fn lemma_update_keeps_held(v: KeyBufView, key: u32)
    ensures
        key_update(v).held.contains(key) == v.held.contains(key),
        !key_update(v).pressed.contains(key),
        !key_update(v).released.contains(key),
        key_update(key_update(v)) == key_update(v),
{
}


/// One key event changes only that key: a release adds it to the released keys and drops it from
/// the held ones, keeping every other key released, held or pressed as it was; a press adds it to
/// the pressed and held keys, keeping every other key as it was, and leaves the released keys
/// alone.
pub proof fn lemma_key_event_changes_only_its_key(v: KeyBufView, key: u32, pressed: bool, k: u32)
    ensures
        ({
            let after = key_step(v, InputEvent::Key { key, pressed });
            &&& after.chars == v.chars
            &&& pressed ==> {
                &&& after.pressed.contains(k) == (k == key || v.pressed.contains(k))
                &&& after.held.contains(k) == (k == key || v.held.contains(k))
                &&& after.released.contains(k) == v.released.contains(k)
            }
            &&& !pressed ==> {
                &&& after.released.contains(k) == (k == key || v.released.contains(k))
                &&& after.held.contains(k) == (k != key && v.held.contains(k))
                &&& after.pressed.contains(k) == v.pressed.contains(k)
            }
        }),
{
}

/// Within one update, a key once released stays released and a key once pressed stays pressed,
/// whatever events follow; so after a run of events, every key released by one of them is among
/// the released keys.
pub proof fn lemma_released_keys_accumulate(v: KeyBufView, events: Seq<InputEvent>, k: u32)
    ensures
        v.released.contains(k) ==> key_steps(v, events).released.contains(k),
        v.pressed.contains(k) ==> key_steps(v, events).pressed.contains(k),
        (exists|i: int| 0 <= i < events.len() && events[i] == (InputEvent::Key { key: k, pressed: false }))
            ==> key_steps(v, events).released.contains(k),
    decreases events.len(),
{
    if events.len() > 0 {
        lemma_released_keys_accumulate(v, events.drop_last(), k);
        let before = key_steps(v, events.drop_last());
        lemma_key_step_keeps(before, events.last(), k);
        if exists|i: int| 0 <= i < events.len() && events[i] == (InputEvent::Key { key: k, pressed: false }) {
            let i = choose|i: int| 0 <= i < events.len() && events[i] == (InputEvent::Key { key: k, pressed: false });
            if i < events.len() - 1 {
                assert(events.drop_last()[i] == events[i]);
            }
        }
    }
}

/// One event keeps the keys released and pressed so far, and a release of `k` releases it.
proof fn lemma_key_step_keeps(v: KeyBufView, event: InputEvent, k: u32)
    ensures
        v.released.contains(k) ==> key_step(v, event).released.contains(k),
        v.pressed.contains(k) ==> key_step(v, event).pressed.contains(k),
        event == (InputEvent::Key { key: k, pressed: false }) ==> key_step(v, event).released.contains(k),
{
}

} // verus!
