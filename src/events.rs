//! What an input event does to the handler, and which triggers it fires.
use vstd::prelude::*;

use crate::button::ButtonObject;
use crate::container::ContainerObject;
use crate::handler::{find, TuiHandler, DEFAULT_HEIGHT, DEFAULT_WIDTH};
use crate::layout::{can_lay_out, laid_out};
use crate::objects::{placed_at, resolve, HandleReturn, Object, ObjectCommand, ObjectError, Widget};
use crate::text::TextObject;
use crate::triggers::{
    box_hit, in_box, in_region, region_hit, InputEvent, KeyInput, MouseAction, MouseTriggers,
    Trigger,
};

verus! {

/// The size and the position of a node.
pub open spec fn box_of(w: Widget) -> ((usize, usize), (usize, usize)) {
    match w {
        Widget::Container(c) => (c.size, c.position),
        Widget::Text(t) => (t.size, t.position),
        Widget::Button(b) => (b.size, b.position),
    }
}

/// `after` is `w` with its size set to `size`.
pub open spec fn resized(w: Widget, size: (usize, usize), after: Widget) -> bool {
    match w {
        Widget::Container(c) => after == Widget::Container(ContainerObject { size: size, ..c }),
        Widget::Text(t) => after == Widget::Text(TextObject { size: size, ..t }),
        Widget::Button(b) => after == Widget::Button(ButtonObject { size: size, ..b }),
    }
}

/// Whether `event` fires trigger `t` in the tree `root`: a key trigger
/// fires on its character; a region trigger on a press inside the region;
/// an object trigger on a press inside the box of its node, and fails
/// where its handle leads nowhere; a radius trigger has no hit test and
/// fails on any mouse event.
pub open spec fn fires(root: Widget, t: Trigger, event: InputEvent) -> Result<bool, ObjectError> {
    match event {
        InputEvent::Key { code } => Ok(t matches Trigger::KeyPress(c) && code == KeyInput::Char(c)),
        InputEvent::Mouse { kind, column, row } => match t {
            Trigger::KeyPress(_) => Ok(false),
            Trigger::MouseClick(MouseTriggers::Region { x_range, y_range }) => Ok(
                kind == MouseAction::Down && in_region(x_range, y_range, column as int, row as int),
            ),
            Trigger::MouseClick(MouseTriggers::Object { object_handle }) => if kind
                != MouseAction::Down {
                Ok(false)
            } else {
                match resolve(root, object_handle.indexes@) {
                    None => Err(ObjectError::LookupFailure),
                    Some(w) => Ok(in_box(box_of(w).0, box_of(w).1, column as int, row as int)),
                }
            },
            Trigger::MouseClick(MouseTriggers::Radius { .. }) => Err(ObjectError::NotImplemented),
        },
        InputEvent::Resize { .. } => Ok(false),
    }
}

/// The indexes, in order, of the triggers of `ts` that `event` fires, or
/// the failure of the first trigger that cannot be tested.
pub open spec fn fired(root: Widget, ts: Seq<Trigger>, event: InputEvent) -> Result<
    Seq<usize>,
    ObjectError,
>
    decreases ts.len(),
{
    if ts.len() == 0 {
        Ok(Seq::empty())
    } else {
        match fired(root, ts.drop_last(), event) {
            Err(e) => Err(e),
            Ok(s) => match fires(root, ts.last(), event) {
                Err(e) => Err(e),
                Ok(hit) => if hit {
                    Ok(s.push((ts.len() - 1) as usize))
                } else {
                    Ok(s)
                },
            },
        }
    }
}

proof fn lemma_fired_failure_stays(root: Widget, ts: Seq<Trigger>, i: int, event: InputEvent)
    requires
        0 <= i <= ts.len(),
        fired(root, ts.subrange(0, i), event) is Err,
    ensures
        fired(root, ts, event) == fired(root, ts.subrange(0, i), event),
    decreases ts.len() - i,
{
    if i < ts.len() {
        assert(ts.subrange(0, i + 1).drop_last() =~= ts.subrange(0, i));
        lemma_fired_failure_stays(root, ts, i + 1, event);
    } else {
        assert(ts.subrange(0, i) =~= ts);
    }
}

/// `w` as `add_object` adds it: a container takes the size of the terminal.
pub open spec fn sized_for(w: Widget, terminal: Option<(usize, usize)>) -> Widget {
    match w {
        Widget::Container(c) => Widget::Container(
            ContainerObject {
                size: match terminal {
                    Some(s) => s,
                    None => (DEFAULT_WIDTH, DEFAULT_HEIGHT),
                },
                ..c
            },
        ),
        _ => w,
    }
}

impl TuiHandler {
    fn trigger_fires(&self, t: &Trigger, event: InputEvent) -> (r: Result<bool, ObjectError>)
        ensures
            r == fires(self.objects, *t, event),
    {
        match event {
            InputEvent::Key { code } => match t {
                Trigger::KeyPress(c) => Ok(
                    match code {
                        KeyInput::Char(pressed) => pressed == *c,
                        KeyInput::Other => false,
                    },
                ),
                _ => Ok(false),
            },
            InputEvent::Mouse { kind, column, row } => {
                let down = match kind {
                    MouseAction::Down => true,
                    MouseAction::Other => false,
                };
                match t {
                    Trigger::KeyPress(_) => Ok(false),
                    Trigger::MouseClick(MouseTriggers::Region { x_range, y_range }) => Ok(
                        down && region_hit(*x_range, *y_range, column as usize, row as usize),
                    ),
                    Trigger::MouseClick(MouseTriggers::Object { object_handle }) => {
                        if !down {
                            return Ok(false);
                        }
                        proof {
                            assert(object_handle.indexes@.subrange(
                                0,
                                object_handle.indexes@.len() as int,
                            ) =~= object_handle.indexes@);
                        }
                        match find(&self.objects, &object_handle.indexes, 0) {
                            Err(e) => Err(e),
                            Ok(w) => {
                                let (size, position) = match w {
                                    Widget::Container(c) => (c.size, c.position),
                                    Widget::Text(x) => (x.size, x.position),
                                    Widget::Button(b) => (b.size, b.position),
                                };
                                Ok(box_hit(size, position, column as usize, row as usize))
                            },
                        }
                    },
                    Trigger::MouseClick(MouseTriggers::Radius { .. }) => Err(
                        ObjectError::NotImplemented,
                    ),
                }
            },
            InputEvent::Resize { .. } => Ok(false),
        }
    }

    /// Registers `trigger` after the others and returns its index.
    pub fn add_trigger(&mut self, trigger: Trigger) -> (r: usize)
        ensures
            *final(self) == (TuiHandler { triggers: final(self).triggers, ..*old(self) }),
            final(self).triggers@ == old(self).triggers@.push(trigger),
            r == old(self).triggers@.len(),
    {
        let r = self.triggers.len();
        self.triggers.push(trigger);
        r
    }

    /// Takes in one input event. A resize records the new terminal size,
    /// gives it to the root and marks the screen for drawing. A key or a
    /// mouse event returns the indexes of the triggers it fires, in the
    /// order they were registered, and marks the screen for drawing where
    /// one fires; where a trigger cannot be tested it returns that failure
    /// and changes nothing.
    pub fn handle_event(&mut self, event: InputEvent) -> (r: Result<Vec<usize>, ObjectError>)
        ensures
            match event {
                InputEvent::Resize { width, height } => {
                    &&& r matches Ok(v) && v@.len() == 0
                    &&& *final(self) == (TuiHandler {
                        objects: final(self).objects,
                        terminal_size: Some((width as usize, height as usize)),
                        changed: true,
                        ..*old(self)
                    })
                    &&& resized(
                        old(self).objects,
                        (width as usize, height as usize),
                        final(self).objects,
                    )
                },
                _ => match fired(old(self).objects, old(self).triggers@, event) {
                    Ok(s) => r matches Ok(v) && v@ == s && *final(self) == (TuiHandler {
                        changed: old(self).changed || s.len() > 0,
                        ..*old(self)
                    }),
                    Err(e) => r == Err::<Vec<usize>, ObjectError>(e) && *final(self)
                        == *old(self),
                },
            },
    {
        match event {
            InputEvent::Resize { width, height } => {
                let size = (width as usize, height as usize);
                self.terminal_size = Some(size);
                let _ = self.objects.handle(ObjectCommand::SetSize(size));
                self.changed = true;
                return Ok(Vec::new());
            },
            _ => {},
        }
        let mut out: Vec<usize> = Vec::new();
        let mut i: usize = 0;
        while i < self.triggers.len()
            invariant
                *self == *old(self),
                i <= self.triggers@.len(),
                fired(self.objects, self.triggers@.subrange(0, i as int), event) == Ok::<
                    Seq<usize>,
                    ObjectError,
                >(out@),
                !(event is Resize),
            decreases self.triggers@.len() - i,
        {
            proof {
                assert(self.triggers@.subrange(0, i + 1).drop_last() =~= self.triggers@.subrange(
                    0,
                    i as int,
                ));
            }
            match self.trigger_fires(&self.triggers[i], event) {
                Err(e) => {
                    proof {
                        lemma_fired_failure_stays(
                            self.objects,
                            self.triggers@,
                            i + 1,
                            event,
                        );
                    }
                    return Err(e);
                },
                Ok(hit) => {
                    if hit {
                        out.push(i);
                    }
                },
            }
            i = i + 1;
        }
        proof {
            assert(self.triggers@.subrange(0, i as int) =~= self.triggers@);
        }
        if out.len() > 0 {
            self.changed = true;
        }
        Ok(out)
    }

    /// Adds `object` as the last child of the root and returns its index; a
    /// container is first given the terminal's size (80 by 24 where it is
    /// not known). Fails with `UnsupportedCommand` where the root is not a
    /// container.
    pub fn add_object(&mut self, object: Widget) -> (r: Result<usize, ObjectError>)
        ensures
            match old(self).objects {
                Widget::Container(c) => {
                    let n = c.content@.len();
                    &&& r == Ok::<usize, ObjectError>(n as usize)
                    &&& *final(self) == (TuiHandler { objects: final(self).objects, ..*old(self) })
                    &&& final(self).objects matches Widget::Container(a)
                    &&& a == ContainerObject { content: a.content, ..c }
                    &&& a.content@.len() == n + 1
                    &&& a.content@.subrange(0, n as int) == c.content@
                    &&& placed_at(
                        sized_for(object, old(self).terminal_size),
                        c.index@.push(n as usize),
                        a.content@[n as int],
                    )
                },
                _ => {
                    &&& r == Err::<usize, ObjectError>(ObjectError::UnsupportedCommand)
                    &&& *final(self) == *old(self)
                },
            },
    {
        if !self.objects.is_container() {
            return Err(ObjectError::UnsupportedCommand);
        }
        let mut object = object;
        match &mut object {
            Widget::Container(c) => {
                c.size = match self.terminal_size {
                    Some(s) => s,
                    None => (DEFAULT_WIDTH, DEFAULT_HEIGHT),
                };
            },
            _ => {},
        }
        match self.objects.handle(ObjectCommand::AddObject(object)) {
            Ok(HandleReturn::ObjectHandle(h)) => {
                let n = h.indexes.len();
                Ok(h.indexes[n - 1])
            },
            _ => Err(ObjectError::UnsupportedCommand),
        }
    }

    /// Lays out the whole tree inside the root's box and marks the screen
    /// for drawing.
    pub fn update_container_sizes(&mut self)
        requires
            old(self).objects matches Widget::Container(c) ==> can_lay_out(c),
        ensures
            match old(self).objects {
                Widget::Container(c) => {
                    &&& *final(self) == (TuiHandler {
                        objects: final(self).objects,
                        changed: true,
                        ..*old(self)
                    })
                    &&& final(self).objects matches Widget::Container(a)
                    &&& laid_out(c, c.size, c.position, a)
                },
                _ => *final(self) == *old(self),
            },
    {
        match &mut self.objects {
            Widget::Container(c) => {
                c.update_sizes();
                self.changed = true;
            },
            _ => {},
        }
    }
}

} // verus!
