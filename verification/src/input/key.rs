//! A simpler keyboard buffer which keeps key events in arrival order.
use vstd::prelude::*;
use super::InputEvent;

verus! {

/// A keyboard buffer holding typed text and the keys pressed and released, in arrival order.
pub struct KeyBuf {
    char_buf: String,
    pressed_keys: Vec<u32>,
    released_keys: Vec<u32>,
}

/// The abstract state of the simpler keyboard buffer.
pub struct SimpleKeyBufView {
    /// The typed text.
    pub chars: Seq<char>,
    /// The keys pressed, in arrival order.
    pub pressed: Seq<u32>,
    /// The keys released, in arrival order.
    pub released: Seq<u32>,
}

impl View for KeyBuf {
    type V = SimpleKeyBufView;

    closed spec fn view(&self) -> SimpleKeyBufView {
        SimpleKeyBufView {
            chars: self.char_buf@,
            pressed: self.pressed_keys@,
            released: self.released_keys@,
        }
    }
}

impl Default for KeyBuf {
    fn default() -> (r: Self)
        ensures
            r@.chars == Seq::<char>::empty(),
            r@.pressed == Seq::<u32>::empty(),
            r@.released == Seq::<u32>::empty(),
    {
        KeyBuf { char_buf: String::new(), pressed_keys: Vec::new(), released_keys: Vec::new() }
    }
}

/// Whether the vector holds the key.
fn holds(v: &Vec<u32>, key: u32) -> (r: bool)
    ensures
        r == v@.contains(key),
{
    let mut i: usize = 0;
    while i < v.len()
        invariant
            i <= v@.len(),
            forall|j: int| 0 <= j < i ==> #[trigger] v@[j] != key,
        decreases v@.len() - i,
    {
        if v[i] == key {
            proof {
                assert(v@[i as int] == key);
            }
            return true;
        }
        i = i + 1;
    }
    false
}

impl KeyBuf {
    /// Clears the text and the pressed and released keys.
    pub fn clear(&mut self)
        ensures
            final(self)@.chars == Seq::<char>::empty(),
            final(self)@.pressed == Seq::<u32>::empty(),
            final(self)@.released == Seq::<u32>::empty(),
    {
        self.char_buf = String::new();
        self.pressed_keys.clear();
        self.released_keys.clear();
    }

    /// The typed text.
    pub fn char_buf(&self) -> (r: &str)
        ensures
            r@ == self@.chars,
    {
        self.char_buf.as_str()
    }

    /// Accepts a keyboard event; this buffer records nothing from it.
    pub fn handle(&mut self, event: &InputEvent)
        ensures
            final(self)@ == old(self)@,
    {
    }

    /// Whether the key was pressed.
    pub fn is_key_down(&self, key_code: u32) -> (r: bool)
        ensures
            r == self@.pressed.contains(key_code),
    {
        holds(&self.pressed_keys, key_code)
    }

    /// Whether the key was released.
    pub fn was_key_down(&self, key_code: u32) -> (r: bool)
        ensures
            r == self@.released.contains(key_code),
    {
        holds(&self.released_keys, key_code)
    }
}

} // verus!
