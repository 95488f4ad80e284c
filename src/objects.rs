use vstd::prelude::*;

use crate::button::ButtonObject;
use crate::container::{ContainerObject, FlowDirection};
use crate::text::TextObject;

verus! {

/// The path of child indexes that leads from the root container to a node;
/// the empty path is the root itself.
#[derive(Debug, Clone)]
pub struct Handle {
    pub indexes: Vec<usize>,
}

/// A direction in which the focus can move.
#[derive(Debug, Clone, Copy, PartialEq, Eq, Structural)]
pub enum SelectionDirection {
    Up,
    Down,
    Left,
    Right,
}

/// Why a command could not be carried out.
#[derive(Debug, Clone, Copy, PartialEq, Eq, Structural)]
pub enum ObjectError {
    /// A handle does not lead to a node of the tree.
    LookupFailure,
    /// The node does not understand the command.
    UnsupportedCommand,
    /// The request has no defined behaviour yet.
    NotImplemented,
}

/// What a node hands back for a command.
#[derive(Debug)]
pub enum HandleReturn {
    Empty,
    ObjectHandle(Handle),
    Size((usize, usize)),
    Position((usize, usize)),
    Selected(bool),
    ObjectCount(usize),
    Flow(FlowDirection),
}

impl HandleReturn {
    pub fn unwrap_handle(self) -> (r: Handle)
        requires
            self is ObjectHandle,
        ensures
            r == self->ObjectHandle_0,
    {
        match self {
            HandleReturn::ObjectHandle(h) => h,
            _ => unreached(),
        }
    }

    pub fn unwrap_size(self) -> (r: (usize, usize))
        requires
            self is Size,
        ensures
            r == self->Size_0,
    {
        match self {
            HandleReturn::Size(s) => s,
            _ => unreached(),
        }
    }

    pub fn unwrap_position(self) -> (r: (usize, usize))
        requires
            self is Position,
        ensures
            r == self->Position_0,
    {
        match self {
            HandleReturn::Position(p) => p,
            _ => unreached(),
        }
    }

    pub fn unwrap_count(self) -> (r: usize)
        requires
            self is ObjectCount,
        ensures
            r == self->ObjectCount_0,
    {
        match self {
            HandleReturn::ObjectCount(n) => n,
            _ => unreached(),
        }
    }

    pub fn unwrap_flow(self) -> (r: FlowDirection)
        requires
            self is Flow,
        ensures
            r == self->Flow_0,
    {
        match self {
            HandleReturn::Flow(f) => f,
            _ => unreached(),
        }
    }
}

/// A request addressed to one node of the tree.
pub enum ObjectCommand {
    SetText(String),
    SetSpacing(Vec<usize>),
    SetPosition((usize, usize)),
    GetPosition(),
    SetFlow(FlowDirection),
    GetFlow(),
    SetBorder(bool),
    AddObject(Widget),
    SetSize((usize, usize)),
    GetSize(),
    SetIndexes(Vec<usize>),
    SetSelected(bool),
    GetSelected(),
    MoveSelection(SelectionDirection),
    GetObjectCount(),
}

/// What every node of the tree offers: it answers commands, and it says
/// whether it can hold the focus.
pub trait Object: Sized {
    /// `after` and `r` are what handling `command` on `self` leaves and returns.
    spec fn handles(
        &self,
        command: ObjectCommand,
        after: Self,
        r: Result<HandleReturn, ObjectError>,
    ) -> bool;

    spec fn selectable(&self) -> bool;

    fn handle(&mut self, command: ObjectCommand) -> (r: Result<HandleReturn, ObjectError>)
        ensures
            old(self).handles(command, *final(self), r),
    ;

    fn is_selectable(&self) -> (r: bool)
        ensures
            r == self.selectable(),
    ;
}

/// Marks the kinds of node that can hold the focus.
pub trait Selectable {

}

/// A node of the tree.
pub enum Widget {
    Container(ContainerObject),
    Text(TextObject),
    Button(ButtonObject),
}

impl Object for Widget {
    open spec fn handles(
        &self,
        command: ObjectCommand,
        after: Widget,
        r: Result<HandleReturn, ObjectError>,
    ) -> bool {
        match *self {
            Widget::Container(c) => after is Container && c.handles(
                command,
                after->Container_0,
                r,
            ),
            Widget::Text(t) => after is Text && t.handles(command, after->Text_0, r),
            Widget::Button(b) => after is Button && b.handles(command, after->Button_0, r),
        }
    }

    open spec fn selectable(&self) -> bool {
        self is Button
    }

    fn handle(&mut self, command: ObjectCommand) -> (r: Result<HandleReturn, ObjectError>) {
        match self {
            Widget::Container(c) => c.handle(command),
            Widget::Text(t) => t.handle(command),
            Widget::Button(b) => b.handle(command),
        }
    }

    fn is_selectable(&self) -> (r: bool) {
        match self {
            Widget::Button(_) => true,
            _ => false,
        }
    }
}

impl Widget {
    /// Whether this node is a container.
    pub fn is_container(&self) -> (r: bool)
        ensures
            r == self is Container,
    {
        match self {
            Widget::Container(_) => true,
            _ => false,
        }
    }
}

/// The node that `path` leads to from `w`, if any.
pub open spec fn resolve(w: Widget, path: Seq<usize>) -> Option<Widget>
    decreases path.len(),
{
    if path.len() == 0 {
        Some(w)
    } else {
        match w {
            Widget::Container(c) => if path[0] < c.content@.len() {
                resolve(c.content@[path[0] as int], path.drop_first())
            } else {
                None
            },
            _ => None,
        }
    }
}

/// `after` is `before` with the node at `path` replaced by `node`, and
/// nothing else changed.
pub open spec fn replaced(before: Widget, path: Seq<usize>, node: Widget, after: Widget) -> bool
    decreases path.len(),
{
    if path.len() == 0 {
        after == node
    } else {
        &&& before is Container
        &&& after is Container
        &&& {
            let b = before->Container_0;
            let a = after->Container_0;
            let i = path[0] as int;
            &&& i < b.content@.len()
            &&& a == ContainerObject { content: a.content, ..b }
            &&& a.content@.len() == b.content@.len()
            &&& forall|j: int| 0 <= j < b.content@.len() && j != i ==> a.content@[j] == b.content@[j]
            &&& replaced(b.content@[i], path.drop_first(), node, a.content@[i])
        }
    }
}

/// `after` is `w` as it stands once it is told that it sits at `indexes`:
/// a container records the path, other nodes ignore it.
pub open spec fn placed_at(w: Widget, indexes: Seq<usize>, after: Widget) -> bool {
    match w {
        Widget::Container(c) => after is Container && after->Container_0 == ContainerObject {
            index: after->Container_0.index,
            ..c
        } && after->Container_0.index@ == indexes,
        _ => after == w,
    }
}

/// A copy of a path.
pub(crate) fn copy_path(v: &Vec<usize>) -> (r: Vec<usize>)
    ensures
        r@ == v@,
{
    let mut r: Vec<usize> = Vec::new();
    let mut i: usize = 0;
    while i < v.len()
        invariant
            i <= v@.len(),
            r@ == v@.subrange(0, i as int),
        decreases v@.len() - i,
    {
        r.push(v[i]);
        i = i + 1;
        assert(r@ =~= v@.subrange(0, i as int));
    }
    assert(r@ =~= v@);
    r
}

} // verus!

verus! {

/// After a replacement, the path leads to the new node.
pub proof fn lemma_replaced_resolves(w: Widget, p: Seq<usize>, node: Widget, a: Widget)
    requires
        replaced(w, p, node, a),
    ensures
        resolve(a, p) == Some(node),
    decreases p.len(),
{
    if p.len() > 0 {
        let i = p[0] as int;
        lemma_replaced_resolves(
            w->Container_0.content@[i],
            p.drop_first(),
            node,
            a->Container_0.content@[i],
        );
    }
}

/// Following `p` and then `q` is following their concatenation.
pub proof fn lemma_resolve_append(w: Widget, p: Seq<usize>, q: Seq<usize>)
    requires
        resolve(w, p) is Some,
    ensures
        resolve(w, p + q) == resolve(resolve(w, p)->Some_0, q),
    decreases p.len(),
{
    if p.len() > 0 {
        let c = w->Container_0;
        assert((p + q).drop_first() =~= p.drop_first() + q);
        assert((p + q)[0] == p[0]);
        lemma_resolve_append(c.content@[p[0] as int], p.drop_first(), q);
    } else {
        assert(p + q =~= q);
    }
}

/// Whether `w` is a node without children.
pub open spec fn is_leaf(w: Widget) -> bool {
    !(w is Container)
}

/// Replacing a node without children by another such node changes what
/// no other path leads to, but for containers on the way down, which stay
/// containers.
pub proof fn lemma_replace_leaf(w: Widget, p: Seq<usize>, node: Widget, a: Widget, q: Seq<usize>)
    requires
        replaced(w, p, node, a),
        resolve(w, p) matches Some(x) && is_leaf(x),
        is_leaf(node),
    ensures
        q == p ==> resolve(a, q) == Some(node),
        q != p ==> (resolve(a, q) is Some <==> resolve(w, q) is Some),
        q != p ==> (resolve(a, q) matches Some(y) && is_leaf(y)) ==> resolve(a, q) == resolve(w, q),
        q != p ==> (resolve(w, q) matches Some(y) && is_leaf(y)) ==> resolve(a, q) == resolve(w, q),
    decreases p.len(),
{
    if p.len() == 0 {
        if q.len() > 0 {
            assert(q != p);
            assert(resolve(a, q) is None);
            assert(resolve(w, q) is None);
        } else {
            assert(q =~= p);
        }
    } else if q.len() == 0 {
        assert(resolve(a, q) == Some(a));
        assert(resolve(w, q) == Some(w));
    } else {
        let b = w->Container_0;
        let c = a->Container_0;
        let i = p[0] as int;
        if q[0] as int == i {
            assert(resolve(a, q) == resolve(c.content@[i], q.drop_first()));
            assert(resolve(w, q) == resolve(b.content@[i], q.drop_first()));
            lemma_replace_leaf(
                b.content@[i],
                p.drop_first(),
                node,
                c.content@[i],
                q.drop_first(),
            );
            if q != p {
                assert(q.drop_first() != p.drop_first()) by {
                    if q.drop_first() == p.drop_first() {
                        assert(q =~= seq![q[0]] + q.drop_first());
                        assert(p =~= seq![p[0]] + p.drop_first());
                    }
                };
            }
        } else if (q[0] as int) < b.content@.len() {
            assert(c.content@[q[0] as int] == b.content@[q[0] as int]);
            assert(resolve(a, q) == resolve(c.content@[q[0] as int], q.drop_first()));
            assert(resolve(w, q) == resolve(b.content@[q[0] as int], q.drop_first()));
        }
    }
}

} // verus!

verus! {

/// A path that leads somewhere leads, one step short, to a container that
/// holds the node under the last index.
pub proof fn lemma_resolve_parent(w: Widget, p: Seq<usize>)
    requires
        resolve(w, p) is Some,
        p.len() > 0,
    ensures
        resolve(w, p.drop_last()) matches Some(Widget::Container(c)) && (p.last() as int)
            < c.content@.len() && resolve(w, p) == Some(c.content@[p.last() as int]),
    decreases p.len(),
{
    let c = w->Container_0;
    let i = p[0] as int;
    if p.len() > 1 {
        lemma_resolve_parent(c.content@[i], p.drop_first());
        assert(p.drop_last().drop_first() =~= p.drop_first().drop_last());
        assert(p.drop_last()[0] == p[0]);
        assert(p.drop_first().last() == p.last());
        assert(resolve(w, p.drop_last()) == resolve(c.content@[i], p.drop_last().drop_first()));
    } else {
        assert(p.drop_first() =~= Seq::<usize>::empty());
        assert(p.drop_last() =~= Seq::<usize>::empty());
        assert(p.last() == p[0]);
        assert(resolve(w, p) == resolve(c.content@[i], p.drop_first()));
    }
}

} // verus!
