//! Focus navigation: the search for the next button up or down the tree.
use vstd::prelude::*;

use crate::handler::{find, moved_focus, TuiHandler};
use crate::objects::{
    copy_path, lemma_resolve_parent, resolve, Handle, SelectionDirection, Widget,
};

verus! {

/// Whether the focus can rest on the node that `p` leads to.
pub open spec fn focusable_at(root: Widget, p: Seq<usize>) -> bool {
    resolve(root, p) matches Some(Widget::Button(_))
}

/// How many children the container that `p` leads to has, if it is one.
pub open spec fn child_count_at(root: Widget, p: Seq<usize>) -> Option<nat> {
    match resolve(root, p) {
        Some(Widget::Container(c)) => Some(c.content@.len()),
        _ => None,
    }
}

/// `p` without the zero indexes at its end.
pub open spec fn strip_zeros(p: Seq<usize>) -> Seq<usize>
    decreases p.len(),
{
    if p.len() > 0 && p.last() == 0 {
        strip_zeros(p.drop_last())
    } else {
        p
    }
}

/// The path one level up from `parent`'s last index, at the next index:
/// where a search that has run out of children at `parent` goes on.
pub open spec fn climb_down(parent: Seq<usize>) -> Seq<usize> {
    parent.drop_last().push((parent.last() + 1) as usize)
}

/// One move of the search downward from `cur`: `None` ends the search
/// where it is; `Some((p, true))` ends it on the button at `p`;
/// `Some((p, false))` goes on from `p`. It enters a non-empty container at
/// its first child, else steps to the next sibling, else climbs to the
/// parent's next sibling; where `cur` is one past the last child of its
/// parent, it climbs again. It stops only when it would climb past the
/// root. Every node it moves to is tested, so it visits the tree in
/// pre-order.
pub open spec fn step_down(root: Widget, cur: Seq<usize>) -> Option<(Seq<usize>, bool)> {
    let parent = cur.drop_last();
    let idx = cur.last() as int;
    match child_count_at(root, parent) {
        None => None,
        Some(n) => if n <= idx || !(child_count_at(root, cur) matches Some(k) && k > 0) && idx + 1
            >= n {
            if parent.len() == 0 {
                None
            } else {
                Some((climb_down(parent), focusable_at(root, climb_down(parent))))
            }
        } else if child_count_at(root, cur) matches Some(k) && k > 0 {
            Some((cur.push(0usize), focusable_at(root, cur.push(0usize))))
        } else {
            Some((parent.push((idx + 1) as usize), focusable_at(root, parent.push((idx + 1) as usize))))
        },
    }
}

/// One move of the search upward from `cur`, in the terms of `step_down`.
/// It enters a non-empty container at its last child, else steps to the
/// previous sibling, else drops the zero indexes at the end of the path
/// and steps back from the last index that is left. Every node it moves to
/// is tested, so it visits the tree in reverse pre-order (containers are
/// never focused); it stops only at the first child of the root.
pub open spec fn step_up(root: Widget, cur: Seq<usize>) -> Option<(Seq<usize>, bool)> {
    let q = strip_zeros(cur);
    let k = child_count_at(root, cur);
    if !(resolve(root, cur) is Some) {
        None
    } else if k is Some && k->Some_0 > 0 {
        let p = cur.push((k->Some_0 - 1) as usize);
        Some((p, focusable_at(root, p)))
    } else if cur.last() > 0 {
        Some(
            (
                cur.drop_last().push((cur.last() - 1) as usize),
                focusable_at(root, cur.drop_last().push((cur.last() - 1) as usize)),
            ),
        )
    } else if q.len() == 0 {
        None
    } else {
        let p = q.drop_last().push((q.last() - 1) as usize);
        Some((p, focusable_at(root, p)))
    }
}

pub open spec fn step(root: Widget, direction: SelectionDirection, cur: Seq<usize>) -> Option<
    (Seq<usize>, bool),
> {
    match direction {
        SelectionDirection::Down => step_down(root, cur),
        SelectionDirection::Up => step_up(root, cur),
        _ => None,
    }
}

/// Where a search from `cur` ends within `fuel` moves: the button found,
/// or `None` where it stops first.
pub open spec fn movement(
    root: Widget,
    direction: SelectionDirection,
    cur: Seq<usize>,
    fuel: nat,
) -> Option<Seq<usize>>
    decreases fuel,
{
    if fuel == 0 || cur.len() == 0 {
        None
    } else {
        match step(root, direction, cur) {
            None => None,
            Some((p, done)) => if done {
                Some(p)
            } else {
                movement(root, direction, p, (fuel - 1) as nat)
            },
        }
    }
}

proof fn lemma_strip_zeros(p: Seq<usize>)
    ensures
        strip_zeros(p).len() <= p.len(),
        strip_zeros(p) == p.subrange(0, strip_zeros(p).len() as int),
        strip_zeros(p).len() > 0 ==> strip_zeros(p).last() != 0,
    decreases p.len(),
{
    if p.len() > 0 && p.last() == 0 {
        lemma_strip_zeros(p.drop_last());
        assert(p.drop_last().subrange(0, strip_zeros(p).len() as int) =~= p.subrange(
            0,
            strip_zeros(p).len() as int,
        ));
    } else {
        assert(p.subrange(0, p.len() as int) =~= p);
    }
}

impl TuiHandler {
    fn count_at(&self, path: &Vec<usize>) -> (r: Option<usize>)
        ensures
            match child_count_at(self.objects, path@) {
                Some(n) => r == Some(n as usize) && n <= usize::MAX,
                None => r is None,
            },
    {
        proof {
            assert(path@.subrange(0, path@.len() as int) =~= path@);
        }
        match find(&self.objects, path, 0) {
            Ok(Widget::Container(c)) => Some(c.content.len()),
            _ => None,
        }
    }

    fn focusable(&self, path: &Vec<usize>) -> (r: bool)
        ensures
            r == focusable_at(self.objects, path@),
    {
        proof {
            assert(path@.subrange(0, path@.len() as int) =~= path@);
        }
        match find(&self.objects, path, 0) {
            Ok(Widget::Button(_)) => true,
            _ => false,
        }
    }

    fn step_down(&self, cur: &Vec<usize>) -> (r: Option<(Vec<usize>, bool)>)
        requires
            cur@.len() > 0,
        ensures
            match step_down(self.objects, cur@) {
                None => r is None,
                Some((p, done)) => r matches Some((v, d)) && v@ == p && d == done,
            },
    {
        let mut parent = copy_path(cur);
        let idx = parent.pop().unwrap();
        let n = match self.count_at(&parent) {
            None => {
                return None;
            },
            Some(n) => n,
        };
        if idx < n {
            let k = self.count_at(cur);
            if k.is_some() && k.unwrap() > 0 {
                let mut p = copy_path(cur);
                p.push(0);
                let done = self.focusable(&p);
                return Some((p, done));
            }
            if idx + 1 < n {
                let mut p = copy_path(&parent);
                p.push(idx + 1);
                let done = self.focusable(&p);
                return Some((p, done));
            }
        }
        if parent.len() == 0 {
            return None;
        }
        proof {
            lemma_resolve_parent(self.objects, parent@);
            let c = resolve(self.objects, parent@.drop_last())->Some_0->Container_0;
            assert(c.content.len() == c.content@.len());
        }
        let mut p = copy_path(&parent);
        let last = p.pop().unwrap();
        p.push(last + 1);
        let done = self.focusable(&p);
        Some((p, done))
    }

    fn step_up(&self, cur: &Vec<usize>) -> (r: Option<(Vec<usize>, bool)>)
        requires
            cur@.len() > 0,
        ensures
            match step_up(self.objects, cur@) {
                None => r is None,
                Some((p, done)) => r matches Some((v, d)) && v@ == p && d == done,
            },
    {
        proof {
            assert(cur@.subrange(0, cur@.len() as int) =~= cur@);
        }
        if find(&self.objects, cur, 0).is_err() {
            return None;
        }
        let k = self.count_at(cur);
        if k.is_some() && k.unwrap() > 0 {
            let mut p = copy_path(cur);
            p.push(k.unwrap() - 1);
            let done = self.focusable(&p);
            return Some((p, done));
        }
        let idx = cur[cur.len() - 1];
        if idx > 0 {
            let mut p = copy_path(cur);
            p.pop();
            p.push(idx - 1);
            let done = self.focusable(&p);
            return Some((p, done));
        }
        let mut q = copy_path(cur);
        while q.len() > 0 && q[q.len() - 1] == 0
            invariant
                strip_zeros(q@) == strip_zeros(cur@),
            decreases q@.len(),
        {
            q.pop();
        }
        proof {
            lemma_strip_zeros(cur@);
        }
        if q.len() == 0 {
            return None;
        }
        let last = q.pop().unwrap();
        q.push(last - 1);
        let done = self.focusable(&q);
        Some((q, done))
    }

    /// Moves the focus to the next button in `direction`, searching as
    /// `movement` describes; where the search stops before it finds one,
    /// nothing changes. `Left` and `Right` do nothing. Down finds the first
    /// button after the focus in pre-order, Up the last one before it; a
    /// button reached by climbing out of a container is found too. The
    /// search is given `usize::MAX` moves: each move goes to a place it has
    /// not been, forward in pre-order going down and backward going up, so
    /// no tree that fits in memory exhausts them.
    pub fn selectable_movement(&mut self, direction: SelectionDirection)
        ensures
            match movement(
                old(self).objects,
                direction,
                old(self).selected.indexes@,
                usize::MAX as nat,
            ) {
                None => *final(self) == *old(self),
                Some(p) => {
                    &&& *final(self) == (TuiHandler {
                        objects: final(self).objects,
                        selected: final(self).selected,
                        ..*old(self)
                    })
                    &&& final(self).selected.indexes@ == p
                    &&& moved_focus(
                        old(self).objects,
                        old(self).selected.indexes@,
                        p,
                        final(self).objects,
                    )
                },
            },
    {
        let mut cur = copy_path(&self.selected.indexes);
        let mut fuel: usize = usize::MAX;
        loop
            invariant
                *self == *old(self),
                movement(self.objects, direction, self.selected.indexes@, usize::MAX as nat)
                    == movement(self.objects, direction, cur@, fuel as nat),
            decreases fuel,
        {
            if fuel == 0 || cur.len() == 0 {
                return;
            }
            let next = match direction {
                SelectionDirection::Down => self.step_down(&cur),
                SelectionDirection::Up => self.step_up(&cur),
                _ => None,
            };
            match next {
                None => {
                    return;
                },
                Some((p, done)) => {
                    if done {
                        let target = Handle { indexes: p };
                        let _ = self.set_selected(&target);
                        return;
                    }
                    cur = p;
                    fuel = fuel - 1;
                },
            }
        }
    }
}

} // verus!
