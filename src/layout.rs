//! The proportional layout engine: a container shares its box among its
//! children by weight, then each child container does the same.
use vstd::arithmetic::div_mod::lemma_fundamental_div_mod;
use vstd::prelude::*;

use crate::button::ButtonObject;
use crate::container::{ContainerObject, Flow};
use crate::objects::Widget;
use crate::text::TextObject;

verus! {

/// The sum of a list of weights.
pub open spec fn weight_sum(s: Seq<usize>) -> int
    decreases s.len(),
{
    if s.len() == 0 {
        0
    } else {
        weight_sum(s.drop_last()) + s.last()
    }
}

/// `spacing` fitted to `n` children: an empty list counts as `[1]`, a
/// short one repeats its last weight, a long one is cut.
pub open spec fn padded_spacing(spacing: Seq<usize>, n: nat) -> Seq<usize> {
    let s = if spacing.len() == 0 {
        seq![1usize]
    } else {
        spacing
    };
    if n <= s.len() {
        s.subrange(0, n as int)
    } else {
        s + Seq::new((n - s.len()) as nat, |_i: int| s.last())
    }
}

/// The weights that a container with `n` children lays out by: the padded
/// spacing, or all ones where those weights sum to zero.
pub open spec fn normalized_spacing(spacing: Seq<usize>, n: nat) -> Seq<usize> {
    let p = padded_spacing(spacing, n);
    if weight_sum(p) == 0 {
        Seq::new(n, |_i: int| 1usize)
    } else {
        p
    }
}

/// `x - y`, or zero where that is negative.
pub open spec fn monus(x: int, y: int) -> int {
    if x > y {
        x - y
    } else {
        0
    }
}

/// The size and position of child `i` of a container whose box is
/// `size`/`position`, laid out by `weights`. Each share is truncated
/// toward zero; a border insets every child by one cell, and every child
/// but the last then overlaps the next by one cell along the flow.
pub open spec fn child_box(
    weights: Seq<usize>,
    flow: Flow,
    border: bool,
    size: (usize, usize),
    position: (usize, usize),
    i: int,
) -> ((int, int), (int, int)) {
    let n = weights.len();
    let total = weight_sum(weights);
    let b: int = if border {
        1
    } else {
        0
    };
    let column = flow == Flow::Column;
    let extent: int = if column {
        size.1 as int
    } else {
        size.0 as int
    };
    let cross: int = if column {
        size.0 as int
    } else {
        size.1 as int
    };
    let share = weights[i] * extent / total;
    let offset = weight_sum(weights.subrange(0, i)) * extent / total;
    let along = monus(share, 2 * b) + if border && n > 1 && i != n - 1 {
        1int
    } else {
        0int
    };
    let across = monus(cross, 2 * b);
    let w = if column {
        across
    } else {
        along
    };
    let h = if column {
        along
    } else {
        across
    };
    let x = if column {
        position.0 + b
    } else {
        position.0 + offset + b
    };
    let y = if column {
        position.1 + offset + b
    } else {
        position.1 + b
    };
    let h2 = if y + h + 1 + b == position.1 + size.1 {
        h + 1
    } else {
        h
    };
    ((w, h2), (x, y))
}

/// `after` is the container `before`, given the box `size`/`position`, with
/// its spacing normalized and every descendant laid out.
pub open spec fn laid_out(
    before: ContainerObject,
    size: (usize, usize),
    position: (usize, usize),
    after: ContainerObject,
) -> bool
    decreases before,
{
    let n = before.content@.len();
    let weights = normalized_spacing(before.spacing@, n);
    &&& after == ContainerObject {
        content: after.content,
        spacing: after.spacing,
        size: size,
        position: position,
        ..before
    }
    &&& after.spacing@ == weights
    &&& after.content@.len() == n
    &&& forall|i: int|
        0 <= i < n ==> child_laid_out(
            weights,
            before.flow,
            before.border,
            size,
            position,
            i,
            #[trigger] before.content@[i],
            after.content@[i],
        )
}

/// `after` is child `i`, `before`, once it is given its box and, if it is a
/// container, laid out in turn.
pub open spec fn child_laid_out(
    weights: Seq<usize>,
    flow: Flow,
    border: bool,
    size: (usize, usize),
    position: (usize, usize),
    i: int,
    before: Widget,
    after: Widget,
) -> bool
    decreases before,
{
    let (sz, pos) = child_box(weights, flow, border, size, position, i);
    let csize = (sz.0 as usize, sz.1 as usize);
    let cpos = (pos.0 as usize, pos.1 as usize);
    match before {
        Widget::Container(c) => after is Container && laid_out(c, csize, cpos, after->Container_0),
        Widget::Text(t) => after == Widget::Text(TextObject { size: csize, position: cpos, ..t }),
        Widget::Button(bt) => after == Widget::Button(
            ButtonObject { size: csize, position: cpos, ..bt },
        ),
    }
}

/// Every container in `w` has weights whose sum fits in a machine word,
/// and `w` nests containers at most `depth` deep.
pub open spec fn fits_within(w: Widget, depth: nat) -> bool
    decreases w,
{
    match w {
        Widget::Container(c) => {
            &&& depth >= 1
            &&& weight_sum(normalized_spacing(c.spacing@, c.content@.len())) <= usize::MAX
            &&& forall|i: int|
                0 <= i < c.content@.len() ==> fits_within(#[trigger] c.content@[i], (depth - 1) as nat)
        },
        _ => true,
    }
}

/// The container can be laid out without any number leaving a machine
/// word: its weight sums fit, and its box stays four cells per level of
/// nesting clear of the largest word.
pub open spec fn layout_fits(c: ContainerObject, depth: nat) -> bool {
    &&& fits_within(Widget::Container(c), depth)
    &&& c.position.0 + c.size.0 + 4 * depth <= usize::MAX
    &&& c.position.1 + c.size.1 + 4 * depth <= usize::MAX
}

pub open spec fn can_lay_out(c: ContainerObject) -> bool {
    exists|depth: nat| layout_fits(c, depth)
}

} // verus!

verus! {

pub(crate) proof fn lemma_weight_sum_step(s: Seq<usize>, i: int)
    requires
        0 <= i < s.len(),
    ensures
        weight_sum(s.subrange(0, i + 1)) == weight_sum(s.subrange(0, i)) + s[i],
{
    assert(s.subrange(0, i + 1).drop_last() =~= s.subrange(0, i));
}

pub(crate) proof fn lemma_weight_sum_prefix(s: Seq<usize>, i: int)
    requires
        0 <= i <= s.len(),
    ensures
        0 <= weight_sum(s.subrange(0, i)) <= weight_sum(s),
    decreases s.len() - i,
{
    if i == s.len() {
        assert(s.subrange(0, i) =~= s);
        lemma_weight_sum_nonneg(s);
    } else {
        lemma_weight_sum_prefix(s, i + 1);
        lemma_weight_sum_step(s, i);
        lemma_weight_sum_nonneg(s.subrange(0, i));
    }
}

pub(crate) proof fn lemma_weight_sum_nonneg(s: Seq<usize>)
    ensures
        weight_sum(s) >= 0,
    decreases s.len(),
{
    if s.len() > 0 {
        lemma_weight_sum_nonneg(s.drop_last());
    }
}

/// Two truncated shares of one extent never add up to more than it.
pub(crate) proof fn lemma_shares(a: int, c: int, e: int, s: int)
    requires
        0 <= a,
        0 <= c,
        a + c <= s,
        0 < s,
        0 <= e,
    ensures
        0 <= a * e / s,
        0 <= c * e / s,
        a * e / s + c * e / s <= e,
{
    lemma_fundamental_div_mod(a * e, s);
    lemma_fundamental_div_mod(c * e, s);
    let q1 = a * e / s;
    let q2 = c * e / s;
    assert(0 <= a * e) by (nonlinear_arith)
        requires
            0 <= a,
            0 <= e,
    ;
    assert(0 <= c * e) by (nonlinear_arith)
        requires
            0 <= c,
            0 <= e,
    ;
    assert(0 <= q1) by (nonlinear_arith)
        requires
            a * e == s * q1 + (a * e) % s,
            (a * e) % s < s,
            0 <= a * e,
            0 < s,
    ;
    assert(0 <= q2) by (nonlinear_arith)
        requires
            c * e == s * q2 + (c * e) % s,
            (c * e) % s < s,
            0 <= c * e,
            0 < s,
    ;
    assert(q1 + q2 <= e) by (nonlinear_arith)
        requires
            s * q1 <= a * e,
            s * q2 <= c * e,
            a + c <= s,
            0 < s,
            0 <= e,
    ;
}

proof fn lemma_word_product(a: int, e: int)
    requires
        0 <= a <= usize::MAX,
        0 <= e <= usize::MAX,
    ensures
        a * e <= u128::MAX,
{
    assert(a * e <= usize::MAX * usize::MAX) by (nonlinear_arith)
        requires
            0 <= a <= usize::MAX,
            0 <= e <= usize::MAX,
    ;
}

/// The box of child `i`, as `child_box` gives it, where `prefix` and
/// `total` are the sums of the weights before `i` and of all of them.
fn compute_child_box(
    weights: &Vec<usize>,
    flow: Flow,
    border: bool,
    size: (usize, usize),
    position: (usize, usize),
    i: usize,
    prefix: usize,
    total: usize,
) -> (r: ((usize, usize), (usize, usize)))
    requires
        i < weights@.len(),
        total == weight_sum(weights@),
        total > 0,
        prefix == weight_sum(weights@.subrange(0, i as int)),
        position.0 + size.0 + 4 <= usize::MAX,
        position.1 + size.1 + 4 <= usize::MAX,
    ensures
        ({
            let (sz, pos) = child_box(weights@, flow, border, size, position, i as int);
            &&& r.0.0 == sz.0
            &&& r.0.1 == sz.1
            &&& r.1.0 == pos.0
            &&& r.1.1 == pos.1
        }),
        r.1.0 + r.0.0 <= position.0 + size.0 + 3,
        r.1.1 + r.0.1 <= position.1 + size.1 + 3,
{
    let n = weights.len();
    proof {
        lemma_weight_sum_prefix(weights@, i as int);
        lemma_weight_sum_prefix(weights@, i as int + 1);
        lemma_weight_sum_step(weights@, i as int);
    }
    let column = match flow {
        Flow::Column => true,
        _ => false,
    };
    let b: usize = if border {
        1
    } else {
        0
    };
    let extent: usize = if column {
        size.1
    } else {
        size.0
    };
    let cross: usize = if column {
        size.0
    } else {
        size.1
    };
    let wi = weights[i];
    proof {
        lemma_word_product(wi as int, extent as int);
        lemma_word_product(prefix as int, extent as int);
        lemma_shares(prefix as int, wi as int, extent as int, total as int);
    }
    let share_wide: u128 = (wi as u128) * (extent as u128) / (total as u128);
    let offset_wide: u128 = (prefix as u128) * (extent as u128) / (total as u128);
    let share: usize = share_wide as usize;
    let offset: usize = offset_wide as usize;
    let mut along: usize = if share > 2 * b {
        share - 2 * b
    } else {
        0
    };
    if border && n > 1 && i != n - 1 {
        along = along + 1;
    }
    let across: usize = if cross > 2 * b {
        cross - 2 * b
    } else {
        0
    };
    let w: usize = if column {
        across
    } else {
        along
    };
    let h: usize = if column {
        along
    } else {
        across
    };
    let x: usize = if column {
        position.0 + b
    } else {
        position.0 + offset + b
    };
    let y: usize = if column {
        position.1 + offset + b
    } else {
        position.1 + b
    };
    let h2: usize = if y + h + 1 + b == position.1 + size.1 {
        h + 1
    } else {
        h
    };
    ((w, h2), (x, y))
}

} // verus!

verus! {

pub(crate) proof fn lemma_ones_sum(n: nat)
    ensures
        weight_sum(Seq::new(n, |_i: int| 1usize)) == n,
    decreases n,
{
    if n > 0 {
        lemma_ones_sum((n - 1) as nat);
        assert(Seq::new(n, |_i: int| 1usize).drop_last() =~= Seq::new((n - 1) as nat, |_i: int| 1usize));
    }
}

impl ContainerObject {
    /// Fits `spacing` to the number of children, as `normalized_spacing`
    /// says, and returns the sum of the weights.
    fn normalize_spacing(&mut self) -> (total: usize)
        requires
            weight_sum(normalized_spacing(old(self).spacing@, old(self).content@.len())) <= usize::MAX,
        ensures
            *final(self) == (ContainerObject { spacing: final(self).spacing, ..*old(self) }),
            final(self).spacing@ == normalized_spacing(old(self).spacing@, old(self).content@.len()),
            total == weight_sum(final(self).spacing@),
    {
        let n = self.content.len();
        if self.spacing.len() == 0 {
            self.spacing.push(1);
        }
        let ghost s = self.spacing@;
        assert(s =~= if old(self).spacing@.len() == 0 {
            seq![1usize]
        } else {
            old(self).spacing@
        });
        let last = self.spacing[self.spacing.len() - 1];
        if n <= self.spacing.len() {
            self.spacing.truncate(n);
        } else {
            while self.spacing.len() < n
                invariant
                    s.len() < n,
                    last == s.last(),
                    s.len() <= self.spacing@.len() <= n,
                    self.spacing@ =~= s + Seq::new((self.spacing@.len() - s.len()) as nat, |_i: int| last),
                    *self == (ContainerObject { spacing: self.spacing, ..*old(self) }),
                    n == self.content@.len(),
                decreases n - self.spacing@.len(),
            {
                self.spacing.push(last);
            }
        }
        assert(self.spacing@ =~= padded_spacing(old(self).spacing@, n as nat));
        let ghost padded = self.spacing@;
        assert(weight_sum(padded) <= usize::MAX);
        let mut total: usize = 0;
        let mut i: usize = 0;
        while i < self.spacing.len()
            invariant
                self.spacing@ == padded,
                weight_sum(padded) <= usize::MAX,
                i <= padded.len(),
                total == weight_sum(padded.subrange(0, i as int)),
            decreases padded.len() - i,
        {
            proof {
                lemma_weight_sum_step(padded, i as int);
                lemma_weight_sum_prefix(padded, i as int + 1);
            }
            total = total + self.spacing[i];
            i = i + 1;
        }
        assert(padded.subrange(0, padded.len() as int) =~= padded);
        if total == 0 {
            let mut ones: Vec<usize> = Vec::new();
            let mut k: usize = 0;
            while k < n
                invariant
                    k <= n,
                    ones@ =~= Seq::new(k as nat, |_i: int| 1usize),
                decreases n - k,
            {
                ones.push(1);
                k = k + 1;
            }
            self.spacing = ones;
            proof {
                lemma_ones_sum(n as nat);
            }
            total = n;
        }
        total
    }

    /// Gives this container the box `size`/`position`, then lays out its
    /// children and, below them, the whole subtree.
    fn lay_out(&mut self, size: (usize, usize), position: (usize, usize), Ghost(depth): Ghost<nat>)
        requires
            fits_within(Widget::Container(*old(self)), depth),
            position.0 + size.0 + 4 * depth <= usize::MAX,
            position.1 + size.1 + 4 * depth <= usize::MAX,
        ensures
            laid_out(*old(self), size, position, *final(self)),
        decreases *old(self),
    {
        self.size = size;
        self.position = position;
        let total = self.normalize_spacing();
        let n = self.content.len();
        let ghost weights = self.spacing@;
        let ghost frame = *self;
        let mut prefix: usize = 0;
        let mut i: usize = 0;
        while i < n
            invariant
                n == self.content@.len(),
                n == old(self).content@.len(),
                depth >= 1,
                position.0 + size.0 + 4 * depth <= usize::MAX,
                position.1 + size.1 + 4 * depth <= usize::MAX,
                forall|j: int|
                    0 <= j < n ==> fits_within(
                        #[trigger] old(self).content@[j],
                        (depth - 1) as nat,
                    ),
                weights == normalized_spacing(old(self).spacing@, n as nat),
                *self == (ContainerObject { content: self.content, ..frame }),
                frame == (ContainerObject {
                    spacing: frame.spacing,
                    size: size,
                    position: position,
                    ..*old(self)
                }),
                frame.spacing@ == weights,
                i <= n,
                total == weight_sum(weights),
                prefix == weight_sum(weights.subrange(0, i as int)),
                forall|j: int|
                    0 <= j < i ==> child_laid_out(
                        weights,
                        frame.flow,
                        frame.border,
                        size,
                        position,
                        j,
                        #[trigger] old(self).content@[j],
                        self.content@[j],
                    ),
                forall|j: int| i <= j < n ==> self.content@[j] == old(self).content@[j],
            decreases n - i,
        {
            proof {
                if total == 0 {
                    lemma_ones_sum(n as nat);
                }
                lemma_weight_sum_step(weights, i as int);
                lemma_weight_sum_prefix(weights, i as int + 1);
            }
            let cb = compute_child_box(
                &self.spacing,
                self.flow,
                self.border,
                size,
                position,
                i,
                prefix,
                total,
            );
            let ghost child = old(self).content@[i as int];
            proof {
                assert(decreases_to!(*old(self) => old(self).content));
                assert(decreases_to!(old(self).content => old(self).content[i as int]));
                if let Widget::Container(c) = child {
                    assert(decreases_to!(child => c));
                }
            }
            match &mut self.content[i] {
                Widget::Container(c) => {
                    c.lay_out(cb.0, cb.1, Ghost((depth - 1) as nat));
                },
                Widget::Text(t) => {
                    t.size = cb.0;
                    t.position = cb.1;
                },
                Widget::Button(b) => {
                    b.size = cb.0;
                    b.position = cb.1;
                },
            }
            prefix = prefix + self.spacing[i];
            i = i + 1;
        }
    }

    /// Lays out the children of this container inside its own box, then
    /// each child container inside the box it was given, down the tree.
    pub fn update_sizes(&mut self)
        requires
            can_lay_out(*old(self)),
        ensures
            laid_out(*old(self), old(self).size, old(self).position, *final(self)),
    {
        let ghost depth = choose|d: nat| layout_fits(*old(self), d);
        let size = self.size;
        let position = self.position;
        self.lay_out(size, position, Ghost(depth));
    }
}

} // verus!

verus! {

/// A tree that fits within some depth fits within any greater one.
proof fn lemma_fits_deeper(w: Widget, d1: nat, d2: nat)
    requires
        fits_within(w, d1),
        d1 <= d2,
    ensures
        fits_within(w, d2),
    decreases w,
{
    if let Widget::Container(c) = w {
        assert forall|i: int| 0 <= i < c.content@.len() implies fits_within(
            #[trigger] c.content@[i],
            (d2 - 1) as nat,
        ) by {
            assert(decreases_to!(w => c));
            assert(decreases_to!(c => c.content));
            assert(decreases_to!(c.content => c.content[i]));
            lemma_fits_deeper(c.content@[i], (d1 - 1) as nat, (d2 - 1) as nat);
        }
    }
}

/// Weight `j` of `padded_spacing(spacing, n)`.
fn padded_weight(spacing: &Vec<usize>, n: usize, j: usize) -> (r: usize)
    requires
        j < n,
    ensures
        r == padded_spacing(spacing@, n as nat)[j as int],
{
    if spacing.len() == 0 {
        1
    } else if j < spacing.len() {
        spacing[j]
    } else {
        spacing[spacing.len() - 1]
    }
}

/// Whether the weights of a container with `n` children sum to a machine
/// word once normalized.
fn weights_fit(spacing: &Vec<usize>, n: usize) -> (r: bool)
    ensures
        r == (weight_sum(normalized_spacing(spacing@, n as nat)) <= usize::MAX),
{
    let ghost padded = padded_spacing(spacing@, n as nat);
    let mut total: usize = 0;
    let mut j: usize = 0;
    while j < n
        invariant
            j <= n,
            padded == padded_spacing(spacing@, n as nat),
            padded.len() == n,
            total == weight_sum(padded.subrange(0, j as int)),
        decreases n - j,
    {
        proof {
            lemma_weight_sum_step(padded, j as int);
        }
        let w = padded_weight(spacing, n, j);
        if w > usize::MAX - total {
            proof {
                lemma_weight_sum_prefix(padded, j + 1);
            }
            return false;
        }
        total = total + w;
        j = j + 1;
    }
    proof {
        assert(padded.subrange(0, n as int) =~= padded);
        lemma_ones_sum(n as nat);
    }
    true
}

/// Whether `w` nests containers at most `depth` deep with weights that fit.
fn fits_exec(w: &Widget, depth: usize) -> (r: bool)
    ensures
        r == fits_within(*w, depth as nat),
    decreases *w, 1nat,
{
    match w {
        Widget::Container(c) => {
            proof {
                assert(decreases_to!(*w => *c));
            }
            container_fits(c, depth)
        },
        _ => true,
    }
}

/// Whether the container `c` nests containers at most `depth` deep with
/// weights that fit.
fn container_fits(c: &ContainerObject, depth: usize) -> (r: bool)
    ensures
        r == fits_within(Widget::Container(*c), depth as nat),
    decreases *c, 0nat,
{
    if depth == 0 || !weights_fit(&c.spacing, c.content.len()) {
        return false;
    }
    let mut i: usize = 0;
    while i < c.content.len()
        invariant
            i <= c.content@.len(),
            depth >= 1,
            forall|j: int| 0 <= j < i ==> fits_within(#[trigger] c.content@[j], (depth - 1) as nat),
        decreases c.content@.len() - i,
    {
        proof {
            assert(decreases_to!(*c => c.content));
            assert(decreases_to!(c.content => c.content[i as int]));
        }
        if !fits_exec(&c.content[i], depth - 1) {
            assert(!fits_within(c.content@[i as int], (depth - 1) as nat));
            return false;
        }
        i = i + 1;
    }
    true
}

impl ContainerObject {
    /// Whether `update_sizes` may be called: every weight sum of the tree
    /// fits in a machine word, and the root's box leaves four cells per
    /// level of nesting below the largest word.
    pub fn can_update_sizes(&self) -> (r: bool)
        ensures
            r == can_lay_out(*self),
    {
        let x = self.position.0 as u128 + self.size.0 as u128;
        let y = self.position.1 as u128 + self.size.1 as u128;
        let far = if x > y {
            x
        } else {
            y
        };
        if far > usize::MAX as u128 {
            proof {
                assert(forall|d: nat| !layout_fits(*self, d));
            }
            return false;
        }
        let depth = ((usize::MAX as u128 - far) / 4) as usize;
        let r = container_fits(self, depth);
        proof {
            if r {
                assert(layout_fits(*self, depth as nat));
            } else {
                assert forall|d: nat| !layout_fits(*self, d) by {
                    if layout_fits(*self, d) {
                        lemma_fits_deeper(Widget::Container(*self), d, depth as nat);
                    }
                }
            }
        }
        r
    }
}

} // verus!
