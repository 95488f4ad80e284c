use vstd::prelude::*;

use crate::objects::{HandleReturn, Object, ObjectCommand, ObjectError};

verus! {

/// A block of text, wrapped into rows of the width it is given.
pub struct TextObject {
    pub content: String,
    pub size: (usize, usize),
    pub position: (usize, usize),
}

impl TextObject {
    /// A text widget holding `content`, not yet laid out.
    pub fn new(content: &str) -> (r: TextObject)
        ensures
            r.content@ == content@,
            r.size == (0usize, 0usize),
            r.position == (0usize, 0usize),
    {
        TextObject { content: content.to_string(), size: (0, 0), position: (0, 0) }
    }
}

impl Object for TextObject {
    open spec fn handles(
        &self,
        command: ObjectCommand,
        after: TextObject,
        r: Result<HandleReturn, ObjectError>,
    ) -> bool {
        match command {
            ObjectCommand::SetSize(s) => after == TextObject { size: s, ..*self } && r
                == Ok::<HandleReturn, ObjectError>(HandleReturn::Empty),
            ObjectCommand::GetSize() => after == *self && r == Ok::<HandleReturn, ObjectError>(
                HandleReturn::Size(self.size),
            ),
            ObjectCommand::SetPosition(p) => after == TextObject { position: p, ..*self } && r
                == Ok::<HandleReturn, ObjectError>(HandleReturn::Empty),
            ObjectCommand::GetPosition() => after == *self && r == Ok::<HandleReturn, ObjectError>(
                HandleReturn::Position(self.position),
            ),
            ObjectCommand::SetText(t) => after == TextObject { content: t, ..*self } && r
                == Ok::<HandleReturn, ObjectError>(HandleReturn::Empty),
            _ => after == *self && r == Err::<HandleReturn, ObjectError>(
                ObjectError::UnsupportedCommand,
            ),
        }
    }

    open spec fn selectable(&self) -> bool {
        false
    }

    fn handle(&mut self, command: ObjectCommand) -> (r: Result<HandleReturn, ObjectError>) {
        match command {
            ObjectCommand::SetSize(s) => {
                self.size = s;
                Ok(HandleReturn::Empty)
            },
            ObjectCommand::GetSize() => Ok(HandleReturn::Size(self.size)),
            ObjectCommand::SetPosition(p) => {
                self.position = p;
                Ok(HandleReturn::Empty)
            },
            ObjectCommand::GetPosition() => Ok(HandleReturn::Position(self.position)),
            ObjectCommand::SetText(t) => {
                self.content = t;
                Ok(HandleReturn::Empty)
            },
            _ => Err(ObjectError::UnsupportedCommand),
        }
    }

    fn is_selectable(&self) -> (r: bool) {
        false
    }
}

} // verus!
