//! A single line of typed text with a cursor.
use vstd::prelude::*;
use vstd::string::StrSliceExecFns;
use crate::text::string_of;
use super::key_buf::KeyBuf;
use super::{KEY_BACK, KEY_DELETE, KEY_END, KEY_HOME, KEY_LEFT, KEY_RIGHT};

verus! {

/// The abstract state of a typing buffer: its text and the cursor, counted in characters.
pub struct TypingView {
    /// The characters of the text.
    pub text: Seq<char>,
    /// The number of characters before the cursor.
    pub cursor: nat,
}

/// The text after inserting the typed characters at the cursor.
pub open spec fn typing_insert(v: TypingView, typed: Seq<char>) -> TypingView {
    if typed.len() == 0 {
        v
    } else {
        TypingView {
            text: v.text.take(v.cursor as int) + typed + v.text.skip(v.cursor as int),
            cursor: v.cursor + typed.len(),
        }
    }
}

/// The text after one editing key, the first that applies of: backspace, delete, left, right,
/// home and end.
pub open spec fn typing_edit(v: TypingView, pressed: Set<u32>) -> TypingView {
    if pressed.contains(KEY_BACK) && 0 < v.cursor {
        TypingView { text: v.text.remove(v.cursor - 1), cursor: (v.cursor - 1) as nat }
    } else if pressed.contains(KEY_DELETE) && v.cursor < v.text.len() {
        TypingView { text: v.text.remove(v.cursor as int), cursor: v.cursor }
    } else if pressed.contains(KEY_LEFT) && 0 < v.cursor {
        TypingView { text: v.text, cursor: (v.cursor - 1) as nat }
    } else if pressed.contains(KEY_RIGHT) && v.cursor < v.text.len() {
        TypingView { text: v.text, cursor: v.cursor + 1 }
    } else if pressed.contains(KEY_HOME) {
        TypingView { text: v.text, cursor: 0 }
    } else if pressed.contains(KEY_END) {
        TypingView { text: v.text, cursor: v.text.len() }
    } else {
        v
    }
}

/// Text entry driven by keyboard input.
pub struct Typing {
    buf: String,
    chars: Vec<char>,
    pos: usize,
}

impl View for Typing {
    type V = TypingView;

    closed spec fn view(&self) -> TypingView {
        TypingView { text: self.chars@, cursor: self.pos as nat }
    }
}

impl Default for Typing {
    fn default() -> (r: Self)
        ensures
            r@.text == Seq::<char>::empty(),
            r@.cursor == 0,
    {
        Typing { buf: String::new(), chars: Vec::new(), pos: 0 }
    }
}

/// A copy of the given characters.
fn copy_chars(chars: &Vec<char>) -> (r: Vec<char>)
    ensures
        r@ == chars@,
{
    let mut r: Vec<char> = Vec::new();
    let mut i: usize = 0;
    while i < chars.len()
        invariant
            i <= chars@.len(),
            r@ == chars@.take(i as int),
        decreases chars@.len() - i,
    {
        r.push(chars[i]);
        proof {
            assert(chars@.take(i as int + 1) == chars@.take(i as int).push(chars@[i as int]));
        }
        i = i + 1;
    }
    proof {
        assert(chars@.take(chars@.len() as int) == chars@);
    }
    r
}

impl Typing {
    #[verifier::type_invariant]
    closed spec fn inv(&self) -> bool {
        &&& self.buf@ == self.chars@
        &&& self.pos <= self.chars@.len()
    }

    /// The text before and after the cursor.
    pub fn as_split_str(&self) -> (r: (&str, &str))
        ensures
            r.0@ == self@.text.take(self@.cursor as int),
            r.1@ == self@.text.skip(self@.cursor as int),
            self@.cursor <= self@.text.len(),
    {
        proof {
            use_type_invariant(self);
        }
        let s = self.buf.as_str();
        let len = s.unicode_len();
        (s.substring_char(0, self.pos), s.substring_char(self.pos, len))
    }

    /// The whole text.
    pub fn as_str(&self) -> (r: &str)
        ensures
            r@ == self@.text,
            self@.cursor <= self@.text.len(),
    {
        proof {
            use_type_invariant(self);
        }
        self.buf.as_str()
    }

    /// Owned copies of the text before and after the cursor.
    pub fn to_split_string(&self) -> (r: (String, String))
        ensures
            r.0@ == self@.text.take(self@.cursor as int),
            r.1@ == self@.text.skip(self@.cursor as int),
    {
        let (lhs, rhs) = self.as_split_str();
        (lhs.to_owned(), rhs.to_owned())
    }

    /// Inserts the characters typed since the last update at the cursor, then applies the first
    /// editing key pressed: backspace, delete, left, right, home or end.
    pub fn handle_input(&mut self, input: &KeyBuf)
        ensures
            final(self)@ == typing_edit(typing_insert(old(self)@, input@.chars), input@.pressed),
            final(self)@.cursor <= final(self)@.text.len(),
    {
        proof {
            use_type_invariant(&*self);
        }
        let typed = input.chars();
        let mut chars: Vec<char> = copy_chars(&self.chars);
        let mut pos = self.pos;
        let ghost v0 = TypingView { text: chars@, cursor: pos as nat };
        if typed.len() != 0 {
            let mut next: Vec<char> = Vec::new();
            let mut i: usize = 0;
            while i < pos
                invariant
                    pos <= chars@.len(),
                    i <= pos,
                    next@ == chars@.take(i as int),
                decreases pos - i,
            {
                next.push(chars[i]);
                proof {
                    assert(chars@.take(i as int + 1) == chars@.take(i as int).push(chars@[i as int]));
                }
                i = i + 1;
            }
            let mut j: usize = 0;
            while j < typed.len()
                invariant
                    pos <= chars@.len(),
                    j <= typed@.len(),
                    next@ == chars@.take(pos as int) + typed@.take(j as int),
                decreases typed@.len() - j,
            {
                next.push(typed[j]);
                proof {
                    assert(typed@.take(j as int + 1) == typed@.take(j as int).push(typed@[j as int]));
                }
                j = j + 1;
            }
            proof {
                assert(typed@.take(typed@.len() as int) == typed@);
            }
            let mut k: usize = pos;
            while k < chars.len()
                invariant
                    pos <= k <= chars@.len(),
                    next@ == chars@.take(pos as int) + typed@ + chars@.subrange(pos as int, k as int),
                decreases chars@.len() - k,
            {
                next.push(chars[k]);
                proof {
                    assert(chars@.subrange(pos as int, k as int + 1) == chars@.subrange(pos as int, k as int).push(
                        chars@[k as int],
                    ));
                }
                k = k + 1;
            }
            proof {
                assert(chars@.subrange(pos as int, chars@.len() as int) == chars@.skip(pos as int));
            }
            let total = next.len();
            proof {
                assert(next@.len() == pos + typed@.len() + (chars@.len() - pos));
            }
            pos = pos + typed.len();
            assert(pos <= total);
            chars = next;
        }
        let ghost v1 = TypingView { text: chars@, cursor: pos as nat };
        assert(v1 == typing_insert(v0, typed@));
        if input.is_pressed(KEY_BACK) && 0 < pos {
            chars.remove(pos - 1);
            pos = pos - 1;
        } else if input.is_pressed(KEY_DELETE) && pos < chars.len() {
            chars.remove(pos);
        } else if input.is_pressed(KEY_LEFT) && 0 < pos {
            pos = pos - 1;
        } else if input.is_pressed(KEY_RIGHT) && pos < chars.len() {
            pos = pos + 1;
        } else if input.is_pressed(KEY_HOME) {
            pos = 0;
        } else if input.is_pressed(KEY_END) {
            pos = chars.len();
        }
        let buf = string_of(chars.as_slice());
        *self = Typing { buf, chars, pos };
    }
}

/// Typing a character and then pressing backspace gives back the text and the cursor as they
/// were.
pub proof fn lemma_backspace_undoes_typing(v: TypingView, c: char)
    requires
        v.cursor <= v.text.len(),
    ensures
        typing_edit(typing_insert(v, seq![c]), set![KEY_BACK]) == v,
{
    let after = typing_insert(v, seq![c]);
    assert(after.text.remove(v.cursor as int) =~= v.text);
}

/// Pressing left and then right brings the cursor back where it was, where there is text on
/// both sides of it.
pub proof fn lemma_left_right_returns(v: TypingView)
    requires
        0 < v.cursor <= v.text.len(),
    ensures
        typing_edit(typing_edit(v, set![KEY_LEFT]), set![KEY_RIGHT]) == v,
{
}

} // verus!
