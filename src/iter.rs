//! Iterators over the cells of a view, in row-major order of the view's own
//! frame. Each can be split into two iterators over disjoint halves of what
//! is left, which is how fork-join consumers divide the work.
use std::collections::VecDeque;

use vstd::prelude::*;

use vstd::arithmetic::div_mod::lemma_fundamental_div_mod;
use vstd::arithmetic::mul::lemma_mul_inequality;

use crate::overlap::OverhangLayout;
use crate::{clamp, row_major};

verus! {

/// A double-ended cursor over a sequence of cells that can also be split.
///
/// `values()` is what is left to traverse, front to back; `value_of` reads
/// the cell value an item stands for.
pub trait PixelProducer: Sized {
    type Item;

    type Value;

    /// Well-formedness of the cursor.
    spec fn inv(&self) -> bool;

    /// The values still to be produced, in order.
    spec fn values(&self) -> Seq<Self::Value>;

    /// The value an item stands for.
    spec fn value_of(item: Self::Item) -> Self::Value;

    /// How many items are left.
    fn len(&self) -> (r: usize)
        requires
            self.inv(),
        ensures
            r == self.values().len(),
    ;

    /// Takes the first item left, if any.
    fn next(&mut self) -> (r: Option<Self::Item>)
        requires
            old(self).inv(),
        ensures
            final(self).inv(),
            old(self).values().len() == 0 ==> r.is_none() && final(self).values() == old(
                self,
            ).values(),
            old(self).values().len() > 0 ==> r.is_some() && Self::value_of(r.unwrap()) == old(
                self,
            ).values()[0] && final(self).values() == old(self).values().drop_first(),
    ;

    /// Takes the last item left, if any.
    fn next_back(&mut self) -> (r: Option<Self::Item>)
        requires
            old(self).inv(),
        ensures
            final(self).inv(),
            old(self).values().len() == 0 ==> r.is_none() && final(self).values() == old(
                self,
            ).values(),
            old(self).values().len() > 0 ==> r.is_some() && Self::value_of(r.unwrap()) == old(
                self,
            ).values().last() && final(self).values() == old(self).values().drop_last(),
    ;

    /// Splits what is left into its first `index` items and the rest.
    /// Traversing the first part and then the second gives exactly what
    /// traversing the whole would have.
    fn split_at(self, index: usize) -> (r: (Self, Self))
        requires
            self.inv(),
            index <= self.values().len(),
        ensures
            r.0.inv(),
            r.1.inv(),
            r.0.values() == self.values().take(index as int),
            r.1.values() == self.values().skip(index as int),
            r.0.values() + r.1.values() == self.values(),
    ;
}

/// Where the `i`-th cell, in row-major order, of a view `width` cells wide
/// whose left edge is column `offset_x` lies in storage with rows of
/// `base_width` cells. The row count is folded into `i`: the view's row `r`
/// starts at `i == r * width`.
pub open spec fn cell_index(base_width: int, offset_x: int, width: int, i: int) -> int {
    row_major(offset_x + i % width, i / width, base_width)
}

/// Every index of `[start, end)` names a cell of `len` cells of storage.
pub open spec fn cells_in_storage(
    base_width: int,
    offset_x: int,
    width: int,
    start: int,
    end: int,
    len: int,
) -> bool {
    forall|i: int|
        start <= i < end ==> 0 <= #[trigger] cell_index(base_width, offset_x, width, i) < len
}

/// Read-only iterator over the cells `[start, end)`, in row-major order, of
/// a view `width` cells wide whose left edge is column `offset_x` of storage
/// with rows of `base_width` cells.
pub struct Iter<'a, T> {
    data: &'a [T],
    base_width: usize,
    offset_x: usize,
    width: usize,
    start: usize,
    end: usize,
}

impl<'a, T> Iter<'a, T> {
    /// An iterator over `range` of the view's row-major positions.
    pub fn new(
        data: &'a [T],
        base_width: usize,
        offset_x: usize,
        width: usize,
        range: core::ops::Range<usize>,
    ) -> (r: Self)
        requires
            range.start <= range.end,
            range.start < range.end ==> width > 0,
            cells_in_storage(
                base_width as int,
                offset_x as int,
                width as int,
                range.start as int,
                range.end as int,
                data@.len() as int,
            ),
        ensures
            r.inv(),
            r.values() == Seq::new(
                (range.end - range.start) as nat,
                |k: int|
                    data@[cell_index(
                        base_width as int,
                        offset_x as int,
                        width as int,
                        range.start + k,
                    )],
            ),
    {
        Iter { data, base_width, offset_x, width, start: range.start, end: range.end }
    }

    closed spec fn index_at(&self, i: int) -> int {
        cell_index(self.base_width as int, self.offset_x as int, self.width as int, i)
    }

    /// Storage index of the position `i`, which has a cell.
    fn locate(&self, i: usize) -> (r: usize)
        requires
            self.inv(),
            self.start <= i < self.end,
        ensures
            r == self.index_at(i as int),
            r < self.data@.len(),
    {
        let y = i / self.width;
        let x = i % self.width;
        proof {
            assert(self.data@.len() == self.data.len());
            assert(0 <= self.index_at(i as int) < self.data@.len());
            assert(0 <= y * self.base_width) by (nonlinear_arith)
                requires
                    0 <= y,
                    0 <= self.base_width,
            ;
        }
        y * self.base_width + self.offset_x + x
    }
}

impl<'a, T> PixelProducer for Iter<'a, T> {
    type Item = &'a T;

    type Value = T;

    closed spec fn inv(&self) -> bool {
        &&& self.start <= self.end
        &&& self.start < self.end ==> self.width > 0
        &&& cells_in_storage(
            self.base_width as int,
            self.offset_x as int,
            self.width as int,
            self.start as int,
            self.end as int,
            self.data@.len() as int,
        )
    }

    closed spec fn values(&self) -> Seq<T> {
        Seq::new((self.end - self.start) as nat, |k: int| self.data@[self.index_at(self.start + k)])
    }

    open spec fn value_of(item: &'a T) -> T {
        *item
    }

    fn len(&self) -> (r: usize) {
        self.end - self.start
    }

    fn next(&mut self) -> (r: Option<&'a T>) {
        if self.start == self.end {
            return None;
        }
        let idx = self.locate(self.start);
        self.start = self.start + 1;
        proof {
            assert(self.values() =~= old(self).values().drop_first());
        }
        Some(&self.data[idx])
    }

    fn next_back(&mut self) -> (r: Option<&'a T>) {
        if self.start == self.end {
            return None;
        }
        let idx = self.locate(self.end - 1);
        self.end = self.end - 1;
        proof {
            assert(self.values() =~= old(self).values().drop_last());
        }
        Some(&self.data[idx])
    }

    fn split_at(self, index: usize) -> (r: (Self, Self)) {
        let mid = self.start + index;
        let left = Iter {
            data: self.data,
            base_width: self.base_width,
            offset_x: self.offset_x,
            width: self.width,
            start: self.start,
            end: mid,
        };
        let right = Iter {
            data: self.data,
            base_width: self.base_width,
            offset_x: self.offset_x,
            width: self.width,
            start: mid,
            end: self.end,
        };
        proof {
            assert(left.values() =~= self.values().take(index as int));
            assert(right.values() =~= self.values().skip(index as int));
            assert(left.values() + right.values() =~= self.values());
        }
        (left, right)
    }
}

/// Positions of a view's row-major enumeration lie in increasing order in
/// storage.
pub proof fn lemma_cell_index_increasing(base_width: int, offset_x: int, width: int, i: int, j: int)
    requires
        0 < width,
        0 <= offset_x,
        offset_x + width <= base_width,
        0 <= i < j,
    ensures
        cell_index(base_width, offset_x, width, i) < cell_index(base_width, offset_x, width, j),
{
    lemma_fundamental_div_mod(i, width);
    lemma_fundamental_div_mod(j, width);
    let qi = i / width;
    let qj = j / width;
    vstd::arithmetic::div_mod::lemma_div_is_ordered(i, j, width);
    if qi < qj {
        lemma_mul_inequality(qi + 1, qj, base_width);
        assert((qi + 1) * base_width == qi * base_width + base_width) by (nonlinear_arith);
    } else {
        assert(qi * width == qj * width);
    }
}

/// Mutable iterator over the cells `[start, end)`, in row-major order, of a
/// view `width` cells wide whose left edge is column `offset_x` of storage
/// with rows of `base_width` cells. `rest` is the part of the storage that
/// starts at the first cell left, at storage index `base`; cells already
/// produced are no longer reachable from it.
pub struct IterMut<'a, T> {
    rest: &'a mut [T],
    base: usize,
    base_width: usize,
    offset_x: usize,
    width: usize,
    start: usize,
    end: usize,
}

impl<'a, T> IterMut<'a, T> {
    /// The storage still reachable, starting at the first cell left.
    closed spec fn rest_view(&self) -> Seq<T> {
        self.rest@
    }

    closed spec fn index_at(&self, i: int) -> int {
        cell_index(self.base_width as int, self.offset_x as int, self.width as int, i)
    }

    /// An iterator over `range` of the view's row-major positions.
    pub fn new(
        data: &'a mut [T],
        base_width: usize,
        offset_x: usize,
        width: usize,
        range: core::ops::Range<usize>,
    ) -> (r: Self)
        requires
            range.start <= range.end,
            range.start < range.end ==> width > 0,
            offset_x + width <= base_width,
            cells_in_storage(
                base_width as int,
                offset_x as int,
                width as int,
                range.start as int,
                range.end as int,
                old(data)@.len() as int,
            ),
        ensures
            r.inv(),
            r.values() == Seq::new(
                (range.end - range.start) as nat,
                |k: int|
                    old(data)@[cell_index(
                        base_width as int,
                        offset_x as int,
                        width as int,
                        range.start + k,
                    )],
            ),
    {
        if range.start == range.end {
            let r = IterMut {
                rest: data,
                base: 0,
                base_width,
                offset_x,
                width,
                start: range.start,
                end: range.end,
            };
            proof {
                assert(r.values() =~= Seq::<T>::empty());
            }
            return r;
        }
        let y = range.start / width;
        let x = range.start % width;
        let n = data.len();
        proof {
            assert(0 <= cell_index(base_width as int, offset_x as int, width as int, range.start as int) < n);
            assert(0 <= y * base_width) by (nonlinear_arith)
                requires
                    0 <= y,
                    0 <= base_width,
            ;
        }
        let base = y * base_width + offset_x + x;
        let (_, rest) = data.split_at_mut(base);
        let r = IterMut { rest, base, base_width, offset_x, width, start: range.start, end: range.end };
        proof {
            assert forall|k: int| 0 <= k < r.values().len() implies r.values()[k] == old(data)@[cell_index(
                base_width as int,
                offset_x as int,
                width as int,
                range.start + k,
            )] by {
                if k > 0 {
                    lemma_cell_index_increasing(base_width as int, offset_x as int, width as int, range.start as int, range.start + k);
                }
            }
            assert(r.values() =~= Seq::new(
                (range.end - range.start) as nat,
                |k: int|
                    old(data)@[cell_index(
                        base_width as int,
                        offset_x as int,
                        width as int,
                        range.start + k,
                    )],
            ));
            if range.start + 1 < range.end {
                lemma_cell_index_increasing(base_width as int, offset_x as int, width as int, range.start as int, range.end - 1);
            }
        }
        r
    }

    /// Storage index of the position `i`, which has a cell.
    fn locate(&self, i: usize) -> (r: usize)
        requires
            self.inv(),
            self.start <= i < self.end,
        ensures
            r == self.index_at(i as int),
            self.base <= r < self.base + self.rest_view().len(),
    {
        proof {
            if self.start < i {
                lemma_cell_index_increasing(self.base_width as int, self.offset_x as int, self.width as int, self.start as int, i as int);
            }
            if i < self.end - 1 {
                lemma_cell_index_increasing(self.base_width as int, self.offset_x as int, self.width as int, i as int, self.end - 1);
            }
            assert(0 <= (i / self.width) * self.base_width) by (nonlinear_arith)
                requires
                    0 <= i / self.width,
                    0 <= self.base_width,
            ;
        }
        proof {
            assert(self.rest@.len() == self.rest.len());
        }
        let y = i / self.width;
        let x = i % self.width;
        y * self.base_width + self.offset_x + x
    }
}

impl<'a, T> PixelProducer for IterMut<'a, T> {
    type Item = &'a mut T;

    type Value = T;

    closed spec fn inv(&self) -> bool {
        &&& self.start <= self.end
        &&& self.start < self.end ==> {
            &&& self.width > 0
            &&& self.offset_x + self.width <= self.base_width
            &&& self.base == self.index_at(self.start as int)
            &&& self.index_at(self.end - 1) < self.base + self.rest@.len()
            &&& self.base + self.rest@.len() <= usize::MAX
        }
    }

    closed spec fn values(&self) -> Seq<T> {
        Seq::new(
            (self.end - self.start) as nat,
            |k: int| self.rest@[self.index_at(self.start + k) - self.base],
        )
    }

    open spec fn value_of(item: &'a mut T) -> T {
        *item
    }

    fn len(&self) -> (r: usize) {
        self.end - self.start
    }

    fn next(&mut self) -> (r: Option<&'a mut T>) {
        if self.start == self.end {
            return None;
        }
        let next_base = if self.start + 1 < self.end {
            self.locate(self.start + 1)
        } else {
            self.base + 1
        };
        proof {
            if self.start + 1 < self.end {
                lemma_cell_index_increasing(self.base_width as int, self.offset_x as int, self.width as int, self.start as int, self.start + 1);
            }
        }
        let mut rest: &'a mut [T] = &mut [];
        core::mem::swap(&mut rest, &mut self.rest);
        let ghost before = rest@;
        let (head, tail) = rest.split_at_mut(1);
        let (_, after) = tail.split_at_mut(next_base - self.base - 1);
        self.rest = after;
        let ghost old_base = self.base;
        self.base = next_base;
        self.start = self.start + 1;
        proof {
            let s1 = self.start as int;
            assert forall|k: int| 0 <= k < self.values().len() implies self.values()[k] == old(
                self,
            ).values()[k + 1] by {
                if k > 0 {
                    lemma_cell_index_increasing(self.base_width as int, self.offset_x as int, self.width as int, s1, s1 + k);
                }
                if s1 + k < self.end - 1 {
                    lemma_cell_index_increasing(self.base_width as int, self.offset_x as int, self.width as int, s1 + k, self.end - 1);
                }
            }
            assert(self.values() =~= old(self).values().drop_first());
        }
        head.first_mut()
    }

    fn next_back(&mut self) -> (r: Option<&'a mut T>) {
        if self.start == self.end {
            return None;
        }
        let last = self.locate(self.end - 1);
        let mut rest: &'a mut [T] = &mut [];
        core::mem::swap(&mut rest, &mut self.rest);
        let (front, back) = rest.split_at_mut(last - self.base);
        self.rest = front;
        self.end = self.end - 1;
        proof {
            assert forall|k: int| 0 <= k < self.values().len() implies self.values()[k] == old(self).values().drop_last()[k] by {
                if k > 0 {
                    lemma_cell_index_increasing(self.base_width as int, self.offset_x as int, self.width as int, self.start as int, self.start + k);
                }
                lemma_cell_index_increasing(self.base_width as int, self.offset_x as int, self.width as int, self.start + k, self.end as int);
            }
            assert(self.values() =~= old(self).values().drop_last());
            if self.start < self.end {
                lemma_cell_index_increasing(self.base_width as int, self.offset_x as int, self.width as int, self.end - 1, self.end as int);
            }
        }
        back.first_mut()
    }

    fn split_at(self, index: usize) -> (r: (Self, Self)) {
        let mid = self.start + index;
        let ghost whole = self;
        let cut = if mid < self.end {
            self.locate(mid) - self.base
        } else {
            self.rest.len()
        };
        let right_base = if mid < self.end {
            self.base + cut
        } else {
            0
        };
        let IterMut { rest, base, base_width, offset_x, width, start, end } = self;
        let (front, back) = rest.split_at_mut(cut);
        let left = IterMut { rest: front, base, base_width, offset_x, width, start, end: mid };
        let right = IterMut { rest: back, base: right_base, base_width, offset_x, width, start: mid, end };
        proof {
            if start < mid {
                if start + 1 < mid {
                    lemma_cell_index_increasing(base_width as int, offset_x as int, width as int, start as int, mid - 1);
                }
                if mid < end {
                    lemma_cell_index_increasing(base_width as int, offset_x as int, width as int, mid - 1, mid as int);
                }
            }
            assert forall|k: int| 0 <= k < left.values().len() implies left.values()[k] == whole.values().take(index as int)[k] by {
                if k > 0 {
                    lemma_cell_index_increasing(base_width as int, offset_x as int, width as int, start as int, start + k);
                }
                if mid < end {
                    lemma_cell_index_increasing(base_width as int, offset_x as int, width as int, start + k, mid as int);
                } else if start + k < end - 1 {
                    lemma_cell_index_increasing(base_width as int, offset_x as int, width as int, start + k, end - 1);
                }
            }
            assert(left.values() =~= whole.values().take(index as int));
            assert forall|k: int| 0 <= k < right.values().len() implies right.values()[k] == whole.values().skip(index as int)[k] by {
                if k > 0 {
                    lemma_cell_index_increasing(base_width as int, offset_x as int, width as int, mid as int, mid + k);
                }
                if start < mid {
                    lemma_cell_index_increasing(base_width as int, offset_x as int, width as int, start as int, mid as int);
                }
                if mid + k < end - 1 {
                    lemma_cell_index_increasing(base_width as int, offset_x as int, width as int, mid + k, end - 1);
                }
            }
            assert(right.values() =~= whole.values().skip(index as int));
            assert(left.values() + right.values() =~= whole.values());
        }
        (left, right)
    }
}

/// Iterator that owns the cells it produces, in storage order.
pub struct IntoIter<T> {
    items: VecDeque<T>,
}

impl<T> IntoIter<T> {
    /// An iterator producing the cells of `data` in order.
    pub fn new(data: Vec<T>) -> (r: Self)
        ensures
            r.values() == data@,
    {
        let mut data = data;
        let ghost all = data@;
        let mut items: VecDeque<T> = VecDeque::new();
        while data.len() > 0
            invariant
                data@ + items@ == all,
            decreases data@.len(),
        {
            let item = data.pop().unwrap();
            items.push_front(item);
            proof {
                assert(data@ + items@ =~= all);
            }
        }
        proof {
            assert(items@ =~= all);
        }
        IntoIter { items }
    }
}

impl<T> PixelProducer for IntoIter<T> {
    type Item = T;

    type Value = T;

    open spec fn inv(&self) -> bool {
        true
    }

    closed spec fn values(&self) -> Seq<T> {
        self.items@
    }

    open spec fn value_of(item: T) -> T {
        item
    }

    fn len(&self) -> (r: usize) {
        self.items.len()
    }

    fn next(&mut self) -> (r: Option<T>) {
        let r = self.items.pop_front();
        proof {
            if r.is_some() {
                assert(self.items@ =~= old(self).values().drop_first());
            }
        }
        r
    }

    fn next_back(&mut self) -> (r: Option<T>) {
        let r = self.items.pop_back();
        proof {
            if r.is_some() {
                assert(self.items@ =~= old(self).values().drop_last());
            }
        }
        r
    }

    fn split_at(self, index: usize) -> (r: (Self, Self)) {
        let mut items = self.items;
        let right = items.split_off(index);
        let r = (IntoIter { items }, IntoIter { items: right });
        proof {
            assert(r.0.values() + r.1.values() =~= self.values());
        }
        r
    }
}

/// With `to == w * q + c` and `0 <= c < w`, the row `q` of position `to`
/// lies below `row` exactly when `to` lies below the start of `row`.
proof fn lemma_row_of(to: int, w: int, q: int, c: int, row: int)
    requires
        w > 0,
        to == w * q + c,
        0 <= c < w,
    ensures
        q < row <==> to < row * w,
{
    if q < row {
        lemma_mul_inequality(q + 1, row, w);
        assert((q + 1) * w == w * q + w) by (nonlinear_arith);
    } else {
        lemma_mul_inequality(row, q, w);
        assert(q * w == w * q) by (nonlinear_arith);
    }
}

/// Iterator over every position of a `width x height` window, of which only
/// a `valid_width x valid_height` rectangle has cells: `iter` produces the
/// rectangle's cells in row-major order, and each position outside the
/// rectangle yields `None`. Its range is `[start, end)` of the window's
/// row-major positions.
pub struct IterOverhang<I> {
    iter: I,
    layout: OverhangLayout,
    start: usize,
    end: usize,
}

impl<I> IterOverhang<I> {
    /// Where the rectangle with cells lies in the window.
    pub closed spec fn layout_spec(&self) -> OverhangLayout {
        self.layout
    }

    /// The first position left.
    pub closed spec fn start_spec(&self) -> int {
        self.start as int
    }

    /// One past the last position left.
    pub closed spec fn end_spec(&self) -> int {
        self.end as int
    }

    /// The iterator over the rectangle's cells.
    pub closed spec fn inner(&self) -> I {
        self.iter
    }

    /// An iterator over all `width * height` positions of a window whose
    /// cells, `iter`, form the `iter_width x iter_height` rectangle at
    /// `(offset_x, offset_y)`.
    pub fn new(
        iter: I,
        iter_width: usize,
        iter_height: usize,
        offset_x: usize,
        offset_y: usize,
        width: usize,
        height: usize,
    ) -> (r: Self)
        requires
            (OverhangLayout {
                valid_width: iter_width,
                valid_height: iter_height,
                offset_x,
                offset_y,
                width,
                height,
            }).wf(),
        ensures
            r.layout_spec() == (OverhangLayout {
                valid_width: iter_width,
                valid_height: iter_height,
                offset_x,
                offset_y,
                width,
                height,
            }),
            r.inner() == iter,
            r.start_spec() == 0,
            r.end_spec() == width * height,
    {
        let layout = OverhangLayout {
            valid_width: iter_width,
            valid_height: iter_height,
            offset_x,
            offset_y,
            width,
            height,
        };
        IterOverhang { iter, layout, start: 0, end: width * height }
    }

    /// How many positions of `range` lie in the rectangle.
    pub fn count_in_rect(&self, range: core::ops::Range<usize>) -> (r: usize)
        requires
            self.layout_spec().wf(),
            range.start <= range.end <= self.layout_spec().width * self.layout_spec().height,
        ensures
            r == self.layout_spec().count_before(range.end as int) - self.layout_spec().count_before(
                range.start as int,
            ),
    {
        proof {
            self.layout.lemma_count_monotonic(range.start as int, range.end as int);
        }
        self.count_in_rect_from_0(range.end) - self.count_in_rect_from_0(range.start)
    }

    /// How many of the positions `[0, to)` lie in the rectangle, computed in
    /// closed form from the rows and columns that `to` reaches.
    pub fn count_in_rect_from_0(&self, to: usize) -> (r: usize)
        requires
            self.layout_spec().wf(),
            to <= self.layout_spec().width * self.layout_spec().height,
        ensures
            r == self.layout_spec().count_before(to as int),
    {
        let l = self.layout;
        if l.valid_width == 0 || l.valid_height == 0 {
            proof {
                l.lemma_count_empty(to as int);
            }
            return 0;
        }
        let ghost w = l.width as int;
        let ghost h = l.height as int;
        let ghost ox = l.offset_x as int;
        let ghost oy = l.offset_y as int;
        let ghost iw = l.valid_width as int;
        let ghost ih = l.valid_height as int;
        proof {
            l.lemma_count_closed(to as int);
            lemma_fundamental_div_mod(to as int, w);
            lemma_mul_inequality(oy + ih, h, w);
            lemma_mul_inequality(ih, h, w);
            lemma_mul_inequality(iw, w, ih);
            assert(h * w == w * h) by (nonlinear_arith);
            assert(ih * w == w * ih) by (nonlinear_arith);
            assert((oy + ih) * w == oy * w + ih * w) by (nonlinear_arith);
            assert((oy + ih - 1) * w == oy * w + ih * w - w) by (nonlinear_arith);
            assert(0 <= oy * w) by (nonlinear_arith)
                requires
                    0 <= oy,
                    0 <= w,
            ;
        }
        let q = to / l.width;
        let c = to % l.width;
        proof {
            lemma_row_of(to as int, w, q as int, c as int, oy + 1);
            lemma_row_of(to as int, w, q as int, c as int, oy);
            lemma_row_of(to as int, w, q as int, c as int, oy + ih - 1);
            lemma_row_of(to as int, w, q as int, c as int, oy + ih);
            lemma_mul_inequality(oy + 1, h, w);
            assert((oy + 1) * w == oy * w + w) by (nonlinear_arith);
            assert(w * q == q * w) by (nonlinear_arith);
        }
        if to <= l.offset_y * l.width + l.offset_x {
            proof {
                assert(clamp(q - oy, 0, ih) * iw == 0) by (nonlinear_arith)
                    requires
                        clamp(q - oy, 0, ih) == 0,
                ;
            }
            return 0;
        }
        if (l.offset_y + l.valid_height - 1) * l.width + l.offset_x + l.valid_width - 1 < to {
            proof {
                assert((ih - 1) * iw + iw == ih * iw) by (nonlinear_arith);
                assert(iw * ih == ih * iw) by (nonlinear_arith);
            }
            return l.valid_width * l.valid_height;
        }
        proof {
            lemma_mul_inequality(q - oy + 1, ih, iw);
            assert((q - oy + 1) * iw == (q - oy) * iw + iw) by (nonlinear_arith);
            assert(0 <= (q - oy) * iw) by (nonlinear_arith)
                requires
                    0 <= q - oy,
                    0 <= iw,
            ;
        }
        if c <= l.offset_x {
            (q - l.offset_y) * l.valid_width
        } else if l.offset_x + l.valid_width - 1 < c {
            (q - l.offset_y + 1) * l.valid_width
        } else {
            (q - l.offset_y) * l.valid_width + (c - l.offset_x)
        }
    }
}

impl<I: PixelProducer> IterOverhang<I> {
    /// Whether the position `i` of the window lies in the rectangle with
    /// cells.
    fn in_rect_at(&self, i: usize) -> (r: bool)
        requires
            self.layout.width > 0,
        ensures
            r == self.layout.in_rect(i as int),
    {
        let x = i % self.layout.width;
        let y = i / self.layout.width;
        self.layout.offset_x <= x && x - self.layout.offset_x < self.layout.valid_width
            && self.layout.offset_y <= y && y - self.layout.offset_y < self.layout.valid_height
    }

    /// A fresh iterator over the whole window, whose inner iterator holds
    /// one value per cell of the rectangle, yields at each position the next
    /// inner value when the position lies in the rectangle.
    pub proof fn lemma_whole_window(&self)
        requires
            self.layout_spec().wf(),
            self.start_spec() == 0,
            self.end_spec() == self.layout_spec().width * self.layout_spec().height,
            self.inner().inv(),
            self.inner().values().len() == self.layout_spec().count_before(self.end_spec()),
        ensures
            self.inv(),
            self.values() == Seq::new(
                (self.layout_spec().width * self.layout_spec().height) as nat,
                |k: int|
                    if self.layout_spec().in_rect(k) {
                        Some(self.inner().values()[self.layout_spec().count_before(k) as int])
                    } else {
                        None
                    },
            ),
    {
        assert(self.values() =~= Seq::new(
            (self.layout_spec().width * self.layout_spec().height) as nat,
            |k: int|
                if self.layout_spec().in_rect(k) {
                    Some(self.inner().values()[self.layout_spec().count_before(k) as int])
                } else {
                    None
                },
        ));
    }

    /// The width is positive when any position is left.
    proof fn lemma_width_positive(&self)
        requires
            self.start < self.end <= self.layout.width * self.layout.height,
        ensures
            self.layout.width > 0,
    {
        if self.layout.width == 0 {
            assert(self.layout.width * self.layout.height == 0) by (nonlinear_arith)
                requires
                    self.layout.width == 0,
            ;
        }
    }
}

impl<I: PixelProducer> PixelProducer for IterOverhang<I> {
    type Item = Option<I::Item>;

    type Value = Option<I::Value>;

    closed spec fn inv(&self) -> bool {
        &&& self.layout.wf()
        &&& self.start <= self.end <= self.layout.width * self.layout.height
        &&& self.iter.inv()
        &&& self.iter.values().len() == self.layout.count_before(self.end as int)
            - self.layout.count_before(self.start as int)
    }

    closed spec fn values(&self) -> Seq<Option<I::Value>> {
        Seq::new(
            (self.end - self.start) as nat,
            |k: int|
                if self.layout.in_rect(self.start + k) {
                    Some(
                        self.iter.values()[self.layout.count_before(self.start + k)
                            - self.layout.count_before(self.start as int)],
                    )
                } else {
                    None
                },
        )
    }

    open spec fn value_of(item: Option<I::Item>) -> Option<I::Value> {
        match item {
            Some(i) => Some(I::value_of(i)),
            None => None,
        }
    }

    fn len(&self) -> (r: usize) {
        self.end - self.start
    }

    fn next(&mut self) -> (r: Option<Option<I::Item>>) {
        if self.start == self.end {
            return None;
        }
        proof {
            self.lemma_width_positive();
            self.layout.lemma_count_monotonic(self.start + 1, self.end as int);
        }
        let present = self.in_rect_at(self.start);
        self.start = self.start + 1;
        let item = if present {
            self.iter.next()
        } else {
            None
        };
        proof {
            let l = self.layout;
            let s0 = old(self).start as int;
            assert forall|k: int| 0 <= k < self.values().len() implies self.values()[k] == old(
                self,
            ).values().drop_first()[k] by {
                l.lemma_count_monotonic(s0 + 1 + k + 1, self.end as int);
                l.lemma_count_monotonic(s0 + 1, s0 + 1 + k);
            }
            assert(self.values() =~= old(self).values().drop_first());
        }
        Some(item)
    }

    fn next_back(&mut self) -> (r: Option<Option<I::Item>>) {
        if self.start == self.end {
            return None;
        }
        proof {
            self.lemma_width_positive();
            self.layout.lemma_count_monotonic(self.start as int, self.end - 1);
        }
        let present = self.in_rect_at(self.end - 1);
        self.end = self.end - 1;
        let item = if present {
            self.iter.next_back()
        } else {
            None
        };
        proof {
            let l = self.layout;
            let s0 = self.start as int;
            assert forall|k: int| 0 <= k < self.values().len() implies self.values()[k] == old(
                self,
            ).values().drop_last()[k] by {
                l.lemma_count_monotonic(s0 + k + 1, self.end as int);
                l.lemma_count_monotonic(s0, s0 + k);
            }
            assert(self.values() =~= old(self).values().drop_last());
        }
        Some(item)
    }

    fn split_at(self, index: usize) -> (r: (Self, Self)) {
        let mid = self.start + index;
        let inner_index = self.count_in_rect(self.start..mid);
        proof {
            self.layout.lemma_count_monotonic(self.start as int, mid as int);
            self.layout.lemma_count_monotonic(mid as int, self.end as int);
        }
        let ghost whole = self;
        let IterOverhang { iter, layout, start, end } = self;
        let (iter_left, iter_right) = iter.split_at(inner_index);
        let left = IterOverhang { iter: iter_left, layout, start, end: mid };
        let right = IterOverhang { iter: iter_right, layout, start: mid, end };
        proof {
            assert forall|k: int| 0 <= k < left.values().len() implies left.values()[k]
                == whole.values().take(index as int)[k] by {
                layout.lemma_count_monotonic(start + k + 1, mid as int);
                layout.lemma_count_monotonic(start as int, start + k);
            }
            assert(left.values() =~= whole.values().take(index as int));
            assert forall|k: int| 0 <= k < right.values().len() implies right.values()[k]
                == whole.values().skip(index as int)[k] by {
                layout.lemma_count_monotonic(mid + k + 1, end as int);
                layout.lemma_count_monotonic(mid as int, mid + k);
            }
            assert(right.values() =~= whole.values().skip(index as int));
            assert(left.values() + right.values() =~= whole.values());
        }
        (left, right)
    }
}

} // verus!
