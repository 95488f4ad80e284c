//! Properties that relate several operations of the library.
use vstd::arithmetic::div_mod::lemma_fundamental_div_mod;
use vstd::prelude::*;

use crate::container::{ContainerObject, Flow};
use crate::events::box_of;
use crate::layout::{
    child_laid_out, laid_out, lemma_ones_sum, lemma_shares, lemma_weight_sum_nonneg,
    lemma_weight_sum_prefix, lemma_weight_sum_step, padded_spacing, weight_sum,
};
use crate::navigation::{movement, step_down, strip_zeros};

use crate::handler::{
    cleared, flag_set, is_fresh, marked_at, moved_focus, selection_consistent, TuiHandler,
};
use crate::objects::{
    lemma_replace_leaf, lemma_replaced_resolves, lemma_resolve_append, lemma_resolve_parent,
    placed_at, replaced,
    resolve, HandleReturn, Object, ObjectCommand, ObjectError, SelectionDirection, Widget,
};

verus! {

/// Replacing a button by another button at `p` changes whether a button is
/// focused at `p` only.
proof fn lemma_marks_after_flag(w: Widget, p: Seq<usize>, on: bool, a: Widget, q: Seq<usize>)
    requires
        flag_set(w, p, on, a),
    ensures
        marked_at(a, q) == if q == p {
            on
        } else {
            marked_at(w, q)
        },
{
    let b = resolve(w, p)->Some_0->Button_0;
    let node = Widget::Button(crate::button::ButtonObject { is_selected: on, ..b });
    lemma_replace_leaf(w, p, node, a, q);
}

/// A fresh handler focuses no node.
pub proof fn lemma_fresh_has_no_focus(h: TuiHandler, size: Option<(usize, usize)>)
    requires
        is_fresh(h, size),
    ensures
        selection_consistent(h),
{
    assert forall|q: Seq<usize>| #[trigger] marked_at(h.objects, q) == false by {
        if q.len() > 0 {
            assert(resolve(h.objects, q) is None);
        }
    }
}

/// Moving the focus keeps the selection consistent: where exactly the node
/// at the current handle was focused (or none, with an empty handle),
/// afterwards exactly the node at the new handle is focused.
pub proof fn lemma_focus_stays_single(before: TuiHandler, path: Seq<usize>, after: TuiHandler)
    requires
        before.objects is Container,
        selection_consistent(before),
        resolve(before.objects, path) matches Some(Widget::Button(_)),
        after.selected.indexes@ == path,
        moved_focus(before.objects, before.selected.indexes@, path, after.objects),
    ensures
        selection_consistent(after),
        marked_at(after.objects, path),
{
    let prev = before.selected.indexes@;
    let mid = choose|mid: Widget|
        cleared(before.objects, prev, mid) && flag_set(mid, path, true, after.objects);
    assert forall|q: Seq<usize>|
        #[trigger] marked_at(after.objects, q) <==> (after.selected.indexes@.len() > 0 && q
            == after.selected.indexes@) by {
        lemma_marks_after_flag(mid, path, true, after.objects, q);
        if prev.len() > 0 && resolve(before.objects, prev) matches Some(Widget::Button(_)) {
            lemma_marks_after_flag(before.objects, prev, false, mid, q);
        }
        assert(marked_at(before.objects, q) <==> (prev.len() > 0 && q == prev));
        if prev.len() > 0 {
            assert(marked_at(before.objects, prev));
        }
    }
    lemma_marks_after_flag(mid, path, true, after.objects, path);
}

/// Once `AddObject` is handled by the container at `p` (which records `p`
/// as its own path), the handle it returns leads to the node just added.
pub proof fn lemma_added_object_resolves(
    before: Widget,
    p: Seq<usize>,
    w: Widget,
    a: Widget,
    after: Widget,
    r: Result<HandleReturn, ObjectError>,
)
    requires
        resolve(before, p) matches Some(Widget::Container(c)) && c.index@ == p,
        resolve(before, p)->Some_0.handles(ObjectCommand::AddObject(w), a, r),
        replaced(before, p, a, after),
    ensures
        r matches Ok(HandleReturn::ObjectHandle(h)) && resolve(after, h.indexes@) matches Some(x)
            && placed_at(w, h.indexes@, x),
{
    let c = resolve(before, p)->Some_0->Container_0;
    let n = c.content.len();
    let h = r->Ok_0->ObjectHandle_0;
    let last = seq![n];
    lemma_replaced_resolves(before, p, a, after);
    lemma_resolve_append(after, p, last);
    assert(h.indexes@ =~= p + last);
    assert(last[0] == n && last.len() == 1);
    assert(last.drop_first() =~= Seq::<usize>::empty());
    assert(a is Container);
    assert(resolve(a, last) == resolve(a->Container_0.content@[n as int], last.drop_first()));
}

} // verus!

verus! {

/// The sum of the widths of `ws`.
pub open spec fn widths(ws: Seq<Widget>) -> int
    decreases ws.len(),
{
    if ws.len() == 0 {
        0
    } else {
        widths(ws.drop_last()) + box_of(ws.last()).0.0
    }
}

proof fn lemma_row_partial_widths(
    before: ContainerObject,
    size: (usize, usize),
    position: (usize, usize),
    after: ContainerObject,
    k: int,
)
    requires
        laid_out(before, size, position, after),
        !before.border,
        before.flow != Flow::Column,
        0 <= k <= before.content@.len(),
        weight_sum(after.spacing@) > 0,
    ensures
        ({
            let s = weight_sum(after.spacing@);
            let p = weight_sum(after.spacing@.subrange(0, k));
            let f = widths(after.content@.subrange(0, k));
            &&& s * f <= p * size.0
            &&& s * f >= p * size.0 - k * (s - 1)
        }),
    decreases k,
{
    let weights = after.spacing@;
    let s = weight_sum(weights);
    if k == 0 {
        assert(after.content@.subrange(0, 0) =~= Seq::<Widget>::empty());
        assert(weights.subrange(0, 0) =~= Seq::<usize>::empty());
    } else {
        let i = k - 1;
        lemma_row_partial_widths(before, size, position, after, i);
        lemma_weight_sum_step(weights, i);
        assert(after.content@.subrange(0, k).drop_last() =~= after.content@.subrange(0, i));
        assert(child_laid_out(
            weights,
            before.flow,
            before.border,
            size,
            position,
            i,
            before.content@[i],
            after.content@[i],
        ));
        let share = weights[i] * size.0 / s;
        lemma_fundamental_div_mod(weights[i] * size.0, s);
        assert(0 <= weights[i] * size.0) by (nonlinear_arith)
            requires
                0 <= weights[i],
                0 <= size.0,
        ;
        assert(0 <= share && share <= size.0) by {
            lemma_weight_sum_prefix(weights, i);
            lemma_weight_sum_prefix(weights, k);
            lemma_shares(0, weights[i] as int, size.0 as int, s);
        }
        assert(box_of(after.content@[i]).0.0 == share);
        let p0 = weight_sum(weights.subrange(0, i));
        let f0 = widths(after.content@.subrange(0, i));
        let w = weights[i] as int;
        let m = (w * size.0) % s;
        assert(s * (f0 + share) <= (p0 + w) * size.0 && s * (f0 + share) >= (p0 + w) * size.0 - k * (
        s - 1)) by (nonlinear_arith)
            requires
                s * f0 <= p0 * size.0,
                s * f0 >= p0 * size.0 - i * (s - 1),
                w * size.0 == s * share + m,
                0 <= m < s,
                k == i + 1,
        ;
    }
}

/// With no border and a row flow, the widths that the layout gives the
/// children of a container fill its width but for at most one cell per
/// child, and never exceed it.
pub proof fn lemma_row_extents_fill(
    before: ContainerObject,
    size: (usize, usize),
    position: (usize, usize),
    after: ContainerObject,
)
    requires
        laid_out(before, size, position, after),
        !before.border,
        before.flow != Flow::Column,
        before.content@.len() > 0,
    ensures
        size.0 - before.content@.len() <= widths(after.content@) <= size.0,
{
    let n = before.content@.len();
    let weights = after.spacing@;
    let padded = padded_spacing(before.spacing@, n);
    lemma_weight_sum_nonneg(padded);
    if weight_sum(padded) == 0 {
        lemma_ones_sum(n);
    }
    let s = weight_sum(weights);
    lemma_row_partial_widths(before, size, position, after, n as int);
    assert(after.content@.subrange(0, n as int) =~= after.content@);
    assert(weights.subrange(0, n as int) =~= weights);
    let f = widths(after.content@);
    let e = size.0 as int;
    let k = n as int;
    assert(f <= e) by (nonlinear_arith)
        requires
            s * f <= s * e,
            s > 0,
    ;
    assert(f >= e - k) by (nonlinear_arith)
        requires
            s * f >= s * e - k * (s - 1),
            s > 0,
            k > 0,
    ;
}

/// Moving up from the first child of the root, where that child is a
/// button, finds nothing: the focus stays where it is.
pub proof fn lemma_up_from_first_child(root: Widget, fuel: nat)
    requires
        resolve(root, seq![0usize]) matches Some(Widget::Button(_)),
    ensures
        movement(root, SelectionDirection::Up, seq![0usize], fuel) is None,
{
    let cur = seq![0usize];
    assert(cur.drop_last() =~= Seq::<usize>::empty());
    assert(strip_zeros(cur.drop_last()) =~= Seq::<usize>::empty());
    assert(cur.last() == 0);
    assert(strip_zeros(cur) == strip_zeros(cur.drop_last()));
}

} // verus!

verus! {

/// Where the focus sits on a button whose next sibling is a button too,
/// moving down reaches that sibling, and moving up from there comes back.
pub proof fn lemma_down_up_round_trip(root: Widget, parent: Seq<usize>, i: usize, fuel: nat)
    requires
        fuel > 0,
        i < usize::MAX,
        resolve(root, parent.push(i)) matches Some(Widget::Button(_)),
        resolve(root, parent.push((i + 1) as usize)) matches Some(Widget::Button(_)),
    ensures
        movement(root, SelectionDirection::Down, parent.push(i), fuel) == Some(
            parent.push((i + 1) as usize),
        ),
        movement(root, SelectionDirection::Up, parent.push((i + 1) as usize), fuel) == Some(
            parent.push(i),
        ),
{
    let here = parent.push(i);
    let next = parent.push((i + 1) as usize);
    lemma_resolve_parent(root, next);
    assert(here.drop_last() =~= parent);
    assert(next.drop_last() =~= parent);
    assert(here.last() == i);
    assert(next.last() == i + 1);
}

} // verus!

verus! {

/// A downward move from a place inside a container ends the search only
/// where that container is the root: below it, a search that runs out of
/// children climbs on.
pub proof fn lemma_down_stops_only_at_root(root: Widget, cur: Seq<usize>)
    requires
        cur.len() > 0,
        resolve(root, cur.drop_last()) matches Some(Widget::Container(_)),
        step_down(root, cur) is None,
    ensures
        cur.len() == 1,
{
}

} // verus!
