use vstd::prelude::*;

use crate::objects::{
    copy_path, placed_at, Handle, HandleReturn, Object, ObjectCommand, ObjectError, Widget,
};

verus! {

/// A flow as a command gives it: an axis, or `Toggle`, which flips the
/// axis a container holds.
#[derive(Debug, Clone, Copy, PartialEq, Eq, Structural)]
pub enum FlowDirection {
    Row,
    Column,
    Toggle,
}

/// The axis along which a container lays out its children.
#[derive(Debug, Clone, Copy, PartialEq, Eq, Structural)]
pub enum Flow {
    Row,
    Column,
}

/// The flow a container holds after it is told `f` while holding `current`.
pub open spec fn next_flow(current: Flow, f: FlowDirection) -> Flow {
    match f {
        FlowDirection::Row => Flow::Row,
        FlowDirection::Column => Flow::Column,
        FlowDirection::Toggle => match current {
            Flow::Row => Flow::Column,
            Flow::Column => Flow::Row,
        },
    }
}

/// A held flow as a command value.
pub open spec fn as_direction(f: Flow) -> FlowDirection {
    match f {
        Flow::Row => FlowDirection::Row,
        Flow::Column => FlowDirection::Column,
    }
}

/// The command value that names the axis `f`.
pub fn direction_of(f: Flow) -> (r: FlowDirection)
    ensures
        r == as_direction(f),
{
    match f {
        Flow::Row => FlowDirection::Row,
        Flow::Column => FlowDirection::Column,
    }
}

/// A node that owns an ordered list of children and shares its box among
/// them by weight.
pub struct ContainerObject {
    pub content: Vec<Widget>,
    pub size: (usize, usize),
    pub position: (usize, usize),
    pub spacing: Vec<usize>,
    pub flow: Flow,
    pub index: Vec<usize>,
    pub border: bool,
}

impl ContainerObject {
    /// An empty bordered container with row flow, at the root path.
    pub fn new() -> (r: ContainerObject)
        ensures
            r.content@.len() == 0,
            r.size == (0usize, 0usize),
            r.position == (0usize, 0usize),
            r.spacing@.len() == 0,
            r.flow == Flow::Row,
            r.index@.len() == 0,
            r.border,
    {
        ContainerObject {
            content: Vec::new(),
            size: (0, 0),
            position: (0, 0),
            spacing: Vec::new(),
            flow: Flow::Row,
            index: Vec::new(),
            border: true,
        }
    }

    /// Appends `obj` as the last child.
    pub fn add_object(&mut self, obj: Widget)
        ensures
            *final(self) == (ContainerObject { content: final(self).content, ..*old(self) }),
            final(self).content@ == old(self).content@.push(obj),
    {
        self.content.push(obj);
    }
}

impl Object for ContainerObject {
    open spec fn handles(
        &self,
        command: ObjectCommand,
        after: ContainerObject,
        r: Result<HandleReturn, ObjectError>,
    ) -> bool {
        match command {
            ObjectCommand::SetSize(s) => after == ContainerObject { size: s, ..*self } && r
                == Ok::<HandleReturn, ObjectError>(HandleReturn::Empty),
            ObjectCommand::GetSize() => after == *self && r == Ok::<HandleReturn, ObjectError>(
                HandleReturn::Size(self.size),
            ),
            ObjectCommand::SetPosition(p) => after == ContainerObject { position: p, ..*self }
                && r == Ok::<HandleReturn, ObjectError>(HandleReturn::Empty),
            ObjectCommand::GetPosition() => after == *self && r == Ok::<HandleReturn, ObjectError>(
                HandleReturn::Position(self.position),
            ),
            ObjectCommand::SetSpacing(v) => after == ContainerObject { spacing: v, ..*self } && r
                == Ok::<HandleReturn, ObjectError>(HandleReturn::Empty),
            ObjectCommand::SetFlow(f) => after == ContainerObject {
                flow: next_flow(self.flow, f),
                ..*self
            } && r == Ok::<HandleReturn, ObjectError>(HandleReturn::Empty),
            ObjectCommand::GetFlow() => after == *self && r == Ok::<HandleReturn, ObjectError>(
                HandleReturn::Flow(as_direction(self.flow)),
            ),
            ObjectCommand::SetBorder(b) => after == ContainerObject { border: b, ..*self } && r
                == Ok::<HandleReturn, ObjectError>(HandleReturn::Empty),
            ObjectCommand::SetIndexes(v) => after == ContainerObject { index: v, ..*self } && r
                == Ok::<HandleReturn, ObjectError>(HandleReturn::Empty),
            ObjectCommand::GetObjectCount() => after == *self && r == Ok::<
                HandleReturn,
                ObjectError,
            >(HandleReturn::ObjectCount(self.content@.len() as usize)),
            ObjectCommand::AddObject(w) => {
                let n = self.content@.len();
                &&& after == ContainerObject { content: after.content, ..*self }
                &&& after.content@.len() == n + 1
                &&& after.content@.subrange(0, n as int) == self.content@
                &&& placed_at(w, self.index@.push(n as usize), after.content@[n as int])
                &&& r matches Ok(HandleReturn::ObjectHandle(h))
                &&& h.indexes@ == self.index@.push(n as usize)
            },
            _ => after == *self && r == Err::<HandleReturn, ObjectError>(
                ObjectError::UnsupportedCommand,
            ),
        }
    }

    open spec fn selectable(&self) -> bool {
        false
    }

    fn handle(&mut self, command: ObjectCommand) -> (r: Result<HandleReturn, ObjectError>) {
        match command {
            ObjectCommand::SetSize(s) => {
                self.size = s;
                Ok(HandleReturn::Empty)
            },
            ObjectCommand::GetSize() => Ok(HandleReturn::Size(self.size)),
            ObjectCommand::SetPosition(p) => {
                self.position = p;
                Ok(HandleReturn::Empty)
            },
            ObjectCommand::GetPosition() => Ok(HandleReturn::Position(self.position)),
            ObjectCommand::SetSpacing(v) => {
                self.spacing = v;
                Ok(HandleReturn::Empty)
            },
            ObjectCommand::SetFlow(f) => {
                self.flow = match f {
                    FlowDirection::Row => Flow::Row,
                    FlowDirection::Column => Flow::Column,
                    FlowDirection::Toggle => match self.flow {
                        Flow::Row => Flow::Column,
                        Flow::Column => Flow::Row,
                    },
                };
                Ok(HandleReturn::Empty)
            },
            ObjectCommand::GetFlow() => Ok(HandleReturn::Flow(direction_of(self.flow))),
            ObjectCommand::SetBorder(b) => {
                self.border = b;
                Ok(HandleReturn::Empty)
            },
            ObjectCommand::SetIndexes(v) => {
                self.index = v;
                Ok(HandleReturn::Empty)
            },
            ObjectCommand::GetObjectCount() => Ok(HandleReturn::ObjectCount(self.content.len())),
            ObjectCommand::AddObject(w) => {
                let n = self.content.len();
                let mut indexes = copy_path(&self.index);
                indexes.push(n);
                let mut obj = w;
                match &mut obj {
                    Widget::Container(c) => {
                        c.index = copy_path(&indexes);
                    },
                    _ => {},
                }
                self.add_object(obj);
                assert(self.content@.subrange(0, n as int) =~= old(self).content@);
                Ok(HandleReturn::ObjectHandle(Handle { indexes }))
            },
            _ => Err(ObjectError::UnsupportedCommand),
        }
    }

    fn is_selectable(&self) -> (r: bool) {
        false
    }
}

} // verus!
