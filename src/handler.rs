use vstd::prelude::*;

use crate::button::ButtonObject;
use crate::container::{ContainerObject, Flow};
use crate::objects::{
    copy_path, lemma_replace_leaf, replaced, resolve, Handle, HandleReturn, Object, ObjectCommand,
    ObjectError, Widget,
};
use crate::triggers::Trigger;

verus! {

/// The root of an application: the widget tree, the triggers, the focused
/// node, the terminal size last seen, and whether the screen must be
/// drawn again.
pub struct TuiHandler {
    pub objects: Widget,
    pub triggers: Vec<Trigger>,
    pub selected: Handle,
    pub terminal_size: Option<(usize, usize)>,
    pub changed: bool,
}

/// The width and height used where the terminal does not report its size.
pub const DEFAULT_WIDTH: usize = 80;

pub const DEFAULT_HEIGHT: usize = 24;

/// The terminal's size as `term_size` reports it. Both are counted in
/// cells of a terminal, so neither is zero or beyond a `u16`.
///
/// Relies on `term_size::dimensions`: it asks stdout, stdin and stderr for
/// their window size and returns `None` unless one of them reports a width
/// and a height that are both non-zero.
#[verifier::external_body]
fn terminal_dimensions() -> (r: Option<(usize, usize)>)
    ensures
        r matches Some((w, h)) ==> 1 <= w <= u16::MAX && 1 <= h <= u16::MAX,
{
    term_size::dimensions()
}

/// Whether `w` is a focused button.
pub open spec fn marked(w: Widget) -> bool {
    w matches Widget::Button(b) && b.is_selected
}

/// Whether the node that `p` leads to in `root` is a focused button.
pub open spec fn marked_at(root: Widget, p: Seq<usize>) -> bool {
    resolve(root, p) matches Some(w) && marked(w)
}

/// `after` is `w` with the button at `path` focused (`on`) or not.
pub open spec fn flag_set(w: Widget, path: Seq<usize>, on: bool, after: Widget) -> bool {
    resolve(w, path) matches Some(Widget::Button(b)) && replaced(
        w,
        path,
        Widget::Button(ButtonObject { is_selected: on, ..b }),
        after,
    )
}

/// `after` is `w` with the focus taken from the button at `path`, where
/// `path` still leads to a button; otherwise it is `w`.
pub open spec fn cleared(w: Widget, path: Seq<usize>, after: Widget) -> bool {
    if path.len() > 0 && resolve(w, path) matches Some(Widget::Button(_)) {
        flag_set(w, path, false, after)
    } else {
        after == w
    }
}

/// `after` is `before` once the focus moves from `previous` to `path`.
pub open spec fn moved_focus(
    before: Widget,
    previous: Seq<usize>,
    path: Seq<usize>,
    after: Widget,
) -> bool {
    exists|mid: Widget| cleared(before, previous, mid) && flag_set(mid, path, true, after)
}

/// Exactly the node at the current handle is focused, and no node is
/// where the handle is empty.
pub open spec fn selection_consistent(h: TuiHandler) -> bool {
    forall|q: Seq<usize>|
        #[trigger] marked_at(h.objects, q) <==> (h.selected.indexes@.len() > 0 && q
            == h.selected.indexes@)
}

/// `h` is a fresh handler for a terminal that reported `size`: the root is
/// an empty bordered container with row flow, of that size (80 by 24 where
/// `size` is `None`); there are no triggers, nothing is focused and the
/// screen is due to be drawn.
pub open spec fn is_fresh(h: TuiHandler, size: Option<(usize, usize)>) -> bool {
    &&& h.objects matches Widget::Container(c)
    &&& c.content@.len() == 0
    &&& c.size == match size {
        Some(s) => s,
        None => (DEFAULT_WIDTH, DEFAULT_HEIGHT),
    }
    &&& c.position == (0usize, 0usize)
    &&& c.spacing@.len() == 0
    &&& c.border
    &&& c.index@.len() == 0
    &&& c.flow == Flow::Row
    &&& h.triggers@.len() == 0
    &&& h.selected.indexes@.len() == 0
    &&& h.terminal_size == size
    &&& h.changed
}

pub(crate) fn find<'a>(w: &'a Widget, path: &Vec<usize>, depth: usize) -> (r: Result<&'a Widget, ObjectError>)
    requires
        depth <= path@.len(),
    ensures
        match resolve(*w, path@.subrange(depth as int, path@.len() as int)) {
            Some(x) => r matches Ok(y) && *y == x,
            None => r == Err::<&Widget, ObjectError>(ObjectError::LookupFailure),
        },
    decreases path@.len() - depth,
{
    if depth == path.len() {
        return Ok(w);
    }
    proof {
        assert(path@.subrange(depth as int, path@.len() as int).drop_first() =~= path@.subrange(
            depth + 1,
            path@.len() as int,
        ));
    }
    match w {
        Widget::Container(c) => {
            let i = path[depth];
            if i < c.content.len() {
                find(&c.content[i], path, depth + 1)
            } else {
                Err(ObjectError::LookupFailure)
            }
        },
        _ => Err(ObjectError::LookupFailure),
    }
}

fn command_at(w: &mut Widget, path: &Vec<usize>, depth: usize, command: ObjectCommand) -> (r: Result<
    HandleReturn,
    ObjectError,
>)
    requires
        depth <= path@.len(),
        resolve(*old(w), path@.subrange(depth as int, path@.len() as int)) is Some,
    ensures
        ({
            let p = path@.subrange(depth as int, path@.len() as int);
            let t = resolve(*old(w), p)->Some_0;
            resolve(*final(w), p) matches Some(a) && t.handles(command, a, r) && replaced(
                *old(w),
                p,
                a,
                *final(w),
            )
        }),
    decreases path@.len() - depth,
{
    if depth == path.len() {
        return w.handle(command);
    }
    let ghost p = path@.subrange(depth as int, path@.len() as int);
    proof {
        assert(p.drop_first() =~= path@.subrange(depth + 1, path@.len() as int));
    }
    let i = path[depth];
    match w {
        Widget::Container(c) => command_at(&mut c.content[i], path, depth + 1, command),
        _ => Err(ObjectError::LookupFailure),
    }
}

impl TuiHandler {
    /// A handler whose root container fills the terminal, or 80 by 24
    /// cells where the terminal does not say its size.
    pub fn new() -> (r: TuiHandler)
        ensures
            r.terminal_size matches Some((w, h)) ==> 1 <= w <= u16::MAX && 1 <= h <= u16::MAX,
            is_fresh(r, r.terminal_size),
    {
        let size = terminal_dimensions();
        TuiHandler::from_dimensions(size)
    }

    /// A fresh handler for a terminal that reported `size`.
    pub fn from_dimensions(size: Option<(usize, usize)>) -> (r: TuiHandler)
        ensures
            is_fresh(r, size),
    {
        let mut root = ContainerObject::new();
        root.size = match size {
            Some(s) => s,
            None => (DEFAULT_WIDTH, DEFAULT_HEIGHT),
        };
        TuiHandler {
            objects: Widget::Container(root),
            triggers: Vec::new(),
            selected: Handle { indexes: Vec::new() },
            terminal_size: size,
            changed: true,
        }
    }

    /// The node that `handle` leads to.
    pub fn with(&self, handle: &Handle) -> (r: Result<&Widget, ObjectError>)
        ensures
            match resolve(self.objects, handle.indexes@) {
                Some(x) => r matches Ok(y) && *y == x,
                None => r == Err::<&Widget, ObjectError>(ObjectError::LookupFailure),
            },
    {
        proof {
            assert(handle.indexes@.subrange(0, handle.indexes@.len() as int) =~= handle.indexes@);
        }
        find(&self.objects, &handle.indexes, 0)
    }

    /// Hands `command` to the node that `handle` leads to, and returns its
    /// answer; fails with `LookupFailure`, changing nothing, where there is
    /// no such node.
    pub fn command(&mut self, handle: &Handle, command: ObjectCommand) -> (r: Result<
        HandleReturn,
        ObjectError,
    >)
        ensures
            *final(self) == (TuiHandler { objects: final(self).objects, ..*old(self) }),
            match resolve(old(self).objects, handle.indexes@) {
                Some(t) => resolve(final(self).objects, handle.indexes@) matches Some(a)
                    && t.handles(command, a, r) && replaced(
                    old(self).objects,
                    handle.indexes@,
                    a,
                    final(self).objects,
                ),
                None => r == Err::<HandleReturn, ObjectError>(ObjectError::LookupFailure)
                    && final(self).objects == old(self).objects,
            },
    {
        proof {
            assert(handle.indexes@.subrange(0, handle.indexes@.len() as int) =~= handle.indexes@);
        }
        match find(&self.objects, &handle.indexes, 0) {
            Err(e) => Err(e),
            Ok(_) => command_at(&mut self.objects, &handle.indexes, 0, command),
        }
    }

    /// Moves the focus to the button that `handle` leads to: the button
    /// focused before, if the current handle still leads to one, loses the
    /// focus, and the handle becomes current. Fails, changing nothing, with
    /// `LookupFailure` where the handle leads nowhere and with
    /// `UnsupportedCommand` where it leads to a node that cannot be focused.
    pub fn set_selected(&mut self, handle: &Handle) -> (r: Result<(), ObjectError>)
        ensures
            match resolve(old(self).objects, handle.indexes@) {
                Some(Widget::Button(_)) => {
                    &&& r is Ok
                    &&& *final(self) == (TuiHandler {
                        objects: final(self).objects,
                        selected: final(self).selected,
                        ..*old(self)
                    })
                    &&& final(self).selected.indexes@ == handle.indexes@
                    &&& moved_focus(
                        old(self).objects,
                        old(self).selected.indexes@,
                        handle.indexes@,
                        final(self).objects,
                    )
                },
                Some(_) => r == Err::<(), ObjectError>(ObjectError::UnsupportedCommand)
                    && *final(self) == *old(self),
                None => r == Err::<(), ObjectError>(ObjectError::LookupFailure) && *final(self)
                    == *old(self),
            },
    {
        match self.with(handle) {
            Err(e) => {
                return Err(e);
            },
            Ok(w) => {
                if !w.is_selectable() {
                    return Err(ObjectError::UnsupportedCommand);
                }
            },
        }
        let previous = Handle { indexes: copy_path(&self.selected.indexes) };
        let ghost before = self.objects;
        if previous.indexes.len() > 0 {
            let still_focusable = match self.with(&previous) {
                Ok(w) => w.is_selectable(),
                Err(_) => false,
            };
            if still_focusable {
                let _ = self.command(&previous, ObjectCommand::SetSelected(false));
                proof {
                    let b = resolve(before, previous.indexes@)->Some_0->Button_0;
                    let a = resolve(self.objects, previous.indexes@)->Some_0;
                    assert(a == Widget::Button(ButtonObject { is_selected: false, ..b }));
                    lemma_replace_leaf(before, previous.indexes@, a, self.objects, handle.indexes@);
                }
            }
        }
        let ghost mid = self.objects;
        assert(cleared(before, previous.indexes@, mid));
        let _ = self.command(handle, ObjectCommand::SetSelected(true));
        proof {
            let b = resolve(mid, handle.indexes@)->Some_0->Button_0;
            let a = resolve(self.objects, handle.indexes@)->Some_0;
            assert(a == Widget::Button(ButtonObject { is_selected: true, ..b }));
            assert(flag_set(mid, handle.indexes@, true, self.objects));
        }
        self.selected = Handle { indexes: copy_path(&handle.indexes) };
        Ok(())
    }
}

} // verus!
