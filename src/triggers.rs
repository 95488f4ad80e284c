use vstd::prelude::*;

use crate::objects::Handle;

verus! {

/// The part of the screen a mouse trigger listens to.
#[derive(Debug)]
pub enum MouseTriggers {
    /// A rectangle, both ends of each range included.
    Region { x_range: (usize, usize), y_range: (usize, usize) },
    /// The box of the node that the handle leads to.
    Object { object_handle: Handle },
    /// A circle; its hit test is not defined yet.
    Radius { x: usize, y: usize, radius: usize },
}

/// A binding from an input event to an action of the application.
#[derive(Debug)]
pub enum Trigger {
    KeyPress(char),
    MouseClick(MouseTriggers),
}

/// A key, as far as triggers tell keys apart.
#[derive(Debug, Clone, Copy, PartialEq, Eq, Structural)]
pub enum KeyInput {
    Char(char),
    Other,
}

/// A mouse action, as far as triggers tell them apart.
#[derive(Debug, Clone, Copy, PartialEq, Eq, Structural)]
pub enum MouseAction {
    Down,
    Other,
}

/// An input event read from the terminal.
#[derive(Debug, Clone, Copy, PartialEq, Eq, Structural)]
pub enum InputEvent {
    Resize { width: u16, height: u16 },
    Key { code: KeyInput },
    Mouse { kind: MouseAction, column: u16, row: u16 },
}

/// Whether the point `(x, y)` lies in the rectangle, ends included.
pub open spec fn in_region(x_range: (usize, usize), y_range: (usize, usize), x: int, y: int) -> bool {
    x_range.0 <= x <= x_range.1 && y_range.0 <= y <= y_range.1
}

/// Whether the point `(x, y)` lies in the box at `position` of `size`,
/// far edges excluded.
pub open spec fn in_box(size: (usize, usize), position: (usize, usize), x: int, y: int) -> bool {
    position.0 <= x < position.0 + size.0 && position.1 <= y < position.1 + size.1
}

/// Whether `(x, y)` lies in the rectangle, ends included.
pub fn region_hit(x_range: (usize, usize), y_range: (usize, usize), x: usize, y: usize) -> (r: bool)
    ensures
        r == in_region(x_range, y_range, x as int, y as int),
{
    x >= x_range.0 && x <= x_range.1 && y >= y_range.0 && y <= y_range.1
}

/// Whether `(x, y)` lies in the box, far edges excluded.
pub fn box_hit(size: (usize, usize), position: (usize, usize), x: usize, y: usize) -> (r: bool)
    ensures
        r == in_box(size, position, x as int, y as int),
{
    x >= position.0 && x - position.0 < size.0 && y >= position.1 && y - position.1 < size.1
}

} // verus!
