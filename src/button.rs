use vstd::prelude::*;

use crate::objects::{HandleReturn, Object, ObjectCommand, ObjectError, Selectable};

verus! {

/// What a button does when it is activated: it takes no arguments and
/// returns nothing.
pub trait Action {
    fn activate(&mut self);
}

/// A one-line label that can hold the focus; when focused it is drawn
/// in reverse video.
pub struct ButtonObject {
    pub text: String,
    pub is_selected: bool,
    pub callback: Box<dyn Action>,
    pub size: (usize, usize),
    pub position: (usize, usize),
}

impl ButtonObject {
    /// An unfocused button labelled `text`, not yet laid out.
    pub fn new(text: &str, callback: Box<dyn Action>) -> (r: ButtonObject)
        ensures
            r.text@ == text@,
            !r.is_selected,
            r.size == (0usize, 0usize),
            r.position == (0usize, 0usize),
    {
        ButtonObject {
            text: text.to_string(),
            is_selected: false,
            callback,
            size: (0, 0),
            position: (0, 0),
        }
    }
}

impl ButtonObject {
    /// Runs the button's action.
    pub fn activate(&mut self)
        ensures
            final(self).text == old(self).text,
            final(self).is_selected == old(self).is_selected,
            final(self).size == old(self).size,
            final(self).position == old(self).position,
    {
        self.callback.activate();
    }
}

impl Object for ButtonObject {
    open spec fn handles(
        &self,
        command: ObjectCommand,
        after: ButtonObject,
        r: Result<HandleReturn, ObjectError>,
    ) -> bool {
        match command {
            ObjectCommand::SetSize(s) => after == ButtonObject { size: s, ..*self } && r
                == Ok::<HandleReturn, ObjectError>(HandleReturn::Empty),
            ObjectCommand::GetSize() => after == *self && r == Ok::<HandleReturn, ObjectError>(
                HandleReturn::Size(self.size),
            ),
            ObjectCommand::SetPosition(p) => after == ButtonObject { position: p, ..*self } && r
                == Ok::<HandleReturn, ObjectError>(HandleReturn::Empty),
            ObjectCommand::GetPosition() => after == *self && r == Ok::<HandleReturn, ObjectError>(
                HandleReturn::Position(self.position),
            ),
            ObjectCommand::SetText(t) => after == ButtonObject { text: t, ..*self } && r
                == Ok::<HandleReturn, ObjectError>(HandleReturn::Empty),
            ObjectCommand::GetSelected() => after == *self && r == Ok::<HandleReturn, ObjectError>(
                HandleReturn::Selected(self.is_selected),
            ),
            ObjectCommand::SetSelected(b) => after == ButtonObject { is_selected: b, ..*self }
                && r == Ok::<HandleReturn, ObjectError>(HandleReturn::Empty),
            _ => after == *self && r == Err::<HandleReturn, ObjectError>(
                ObjectError::UnsupportedCommand,
            ),
        }
    }

    open spec fn selectable(&self) -> bool {
        true
    }

    fn handle(&mut self, command: ObjectCommand) -> (r: Result<HandleReturn, ObjectError>) {
        match command {
            ObjectCommand::SetSize(s) => {
                self.size = s;
                Ok(HandleReturn::Empty)
            },
            ObjectCommand::GetSize() => Ok(HandleReturn::Size(self.size)),
            ObjectCommand::SetPosition(p) => {
                self.position = p;
                Ok(HandleReturn::Empty)
            },
            ObjectCommand::GetPosition() => Ok(HandleReturn::Position(self.position)),
            ObjectCommand::SetText(t) => {
                self.text = t;
                Ok(HandleReturn::Empty)
            },
            ObjectCommand::GetSelected() => Ok(HandleReturn::Selected(self.is_selected)),
            ObjectCommand::SetSelected(b) => {
                self.is_selected = b;
                Ok(HandleReturn::Empty)
            },
            _ => Err(ObjectError::UnsupportedCommand),
        }
    }

    fn is_selectable(&self) -> (r: bool) {
        true
    }
}

impl Selectable for ButtonObject {

}

} // verus!
