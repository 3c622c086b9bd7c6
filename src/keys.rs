use vstd::prelude::*;

verus! {

/// The logical symbol of one key press.
#[derive(Debug)]
pub enum Key {
    /// A printable character key.
    Char(char),
    /// Any key that is not a printable character.
    Other,
}

impl Key {
    /// Decodes a key press: its character, or `None` for a key without one.
    pub fn decode(c: Option<char>) -> (k: Key)
        ensures
            c is Some ==> k == Key::Char(c->0),
            c is None ==> k == Key::Other,
    {
        match c {
            Some(ch) => Key::Char(ch),
            None => Key::Other,
        }
    }
}

} // verus!
