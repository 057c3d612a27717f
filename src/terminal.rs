use vstd::prelude::*;

verus! {

/// A cell of the screen, counted from the top left corner.
#[derive(Debug, Default, Clone, Copy, PartialEq, Eq, Structural)]
pub struct Position {
    pub x: usize,
    pub y: usize,
}

/// The extent of the screen or of a region of it.
#[derive(Debug, Default, Clone, Copy, PartialEq, Eq, Structural)]
pub struct Size {
    pub width: usize,
    pub height: usize,
}

/// A key press, as far as the interface tells keys apart.
#[derive(Debug, Clone, Copy, PartialEq, Eq, Structural)]
pub enum Key {
    Char(char),
    Ctrl(char),
    Backspace,
    Left,
    Right,
    Home,
    End,
    Other,
}

} // verus!
