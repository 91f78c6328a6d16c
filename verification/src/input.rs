//! The keypad state: at most one key code is tracked as pressed at any
//! instant, fed asynchronously by the input collaborator.

use vstd::prelude::*;

verus! {

/// Holds the key code currently pressed, if any.
pub struct KeyBoard {
    key: Option<u8>,
}

impl View for KeyBoard {
    type V = Option<u8>;

    /// The currently pressed key code, if any.
    closed spec fn view(&self) -> Option<u8> {
        self.key
    }
}

impl KeyBoard {
    /// A new keypad has no key pressed.
    pub fn new() -> (r: Self)
        ensures
            r@ == None::<u8>,
    {
        KeyBoard { key: None }
    }

    /// The currently pressed key code, if any.
    pub fn get_key_pressed(&self) -> (r: Option<u8>)
        ensures
            r == self@,
    {
        self.key
    }

    /// Replaces the tracked key: a new press overwrites the old one, and
    /// `None` means nothing is pressed.
    pub fn feed_key(&mut self, key: Option<u8>)
        ensures
            final(self)@ == key,
    {
        self.key = key;
    }

    /// Whether exactly the given key code is currently pressed.
    pub fn is_key_pressed(&self, key: u8) -> (r: bool)
        ensures
            r == (self@ == Some(key)),
    {
        match self.key {
            None => false,
            Some(inner) => key == inner,
        }
    }

    /// Whether the given key code is currently up, that is, nothing is
    /// pressed or a different code is pressed.
    pub fn is_key_up(&self, key: u8) -> (r: bool)
        ensures
            r == (self@ != Some(key)),
    {
        match self.key {
            None => true,
            Some(inner) => key != inner,
        }
    }
}

} // verus!
