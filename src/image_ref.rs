//! Non-owning windows into a buffer's storage.
//!
//! A view records the storage's row stride and its own absolute origin, so a
//! view of a view addresses the storage directly, however deep the nesting.
use vstd::prelude::*;

use vstd::arithmetic::div_mod::{lemma_fundamental_div_mod, lemma_fundamental_div_mod_converse};
use vstd::arithmetic::mul::lemma_mul_inequality;

use crate::iter::{cell_index, cells_in_storage, Iter, IterMut, IterOverhang, PixelProducer};
use crate::pixel_iter::{PixIter, SerializePixIter};
use crate::{
    clamp, logical_order, logical_order_overhang, row_major, AreaView, AreaViewMut,
    IntoPixelIterator, IntoSerializedPixelIterator, ReadPixel, Rectangle, WritePixel,
};

verus! {

/// A read-only `roi_width x roi_height` window whose top-left cell is
/// `(roi_x, roi_y)` of row-major storage with rows of `base_width` cells.
pub struct ImageRef<'a, T> {
    pub(crate) base_width: usize,
    pub(crate) data: &'a [T],
    pub(crate) roi_x: usize,
    pub(crate) roi_y: usize,
    pub(crate) roi_width: usize,
    pub(crate) roi_height: usize,
}

/// The window lies inside storage of `len` cells with rows of `base_width`.
pub open spec fn window_fits(
    base_width: int,
    len: int,
    roi_x: int,
    roi_y: int,
    roi_width: int,
    roi_height: int,
) -> bool {
    &&& roi_x + roi_width <= base_width
    &&& roi_y + roi_height <= usize::MAX
    &&& base_width * (roi_y + roi_height) <= len
}

/// A window inside a fitting window fits too.
pub proof fn lemma_sub_window_fits(
    base_width: int,
    len: int,
    roi_x: int,
    roi_y: int,
    roi_width: int,
    roi_height: int,
    x: int,
    y: int,
    w: int,
    h: int,
)
    requires
        0 <= base_width,
        window_fits(base_width, len, roi_x, roi_y, roi_width, roi_height),
        0 <= x,
        0 <= y,
        0 <= w,
        0 <= h,
        x + w <= roi_width,
        y + h <= roi_height,
    ensures
        window_fits(base_width, len, roi_x + x, roi_y + y, w, h),
{
    vstd::arithmetic::mul::lemma_mul_inequality(roi_y + y + h, roi_y + roi_height, base_width);
    vstd::arithmetic::mul::lemma_mul_is_commutative(roi_y + y + h, base_width);
    vstd::arithmetic::mul::lemma_mul_is_commutative(roi_y + roi_height, base_width);
}

/// A cell of a fitting window lies inside the storage.
pub proof fn lemma_window_cell(
    base_width: int,
    len: int,
    roi_x: int,
    roi_y: int,
    roi_width: int,
    roi_height: int,
    x: int,
    y: int,
)
    requires
        0 <= roi_x,
        0 <= roi_y,
        window_fits(base_width, len, roi_x, roi_y, roi_width, roi_height),
        0 <= x < roi_width,
        0 <= y < roi_height,
    ensures
        0 <= row_major(roi_x + x, roi_y + y, base_width) < len,
{
    crate::physical_image::lemma_cell_in_bounds(
        roi_x + x,
        roi_y + y,
        base_width,
        roi_y + roi_height,
    );
}

impl<'a, T> ImageRef<'a, T> {
    pub(crate) fn new(
        base_width: usize,
        data: &'a [T],
        roi_x: usize,
        roi_y: usize,
        roi_width: usize,
        roi_height: usize,
    ) -> (r: Self)
        requires
            window_fits(
                base_width as int,
                data@.len() as int,
                roi_x as int,
                roi_y as int,
                roi_width as int,
                roi_height as int,
            ),
        ensures
            r.inv(),
            r.width_spec() == roi_width,
            r.height_spec() == roi_height,
            forall|a: int, b: int|
                #![trigger r.pixel(a, b)]
                0 <= a < roi_width && 0 <= b < roi_height ==> r.pixel(a, b) == data@[row_major(
                    roi_x + a,
                    roi_y + b,
                    base_width as int,
                )],
            r.base_width == base_width,
            r.data@ == data@,
            r.roi_x == roi_x,
            r.roi_y == roi_y,
            r.roi_width == roi_width,
            r.roi_height == roi_height,
    {
        ImageRef { base_width, data, roi_x, roi_y, roi_width, roi_height }
    }
}

impl<'a, T> ReadPixel for ImageRef<'a, T> {
    type Item = T;

    closed spec fn inv(&self) -> bool {
        window_fits(
            self.base_width as int,
            self.data@.len() as int,
            self.roi_x as int,
            self.roi_y as int,
            self.roi_width as int,
            self.roi_height as int,
        )
    }

    closed spec fn width_spec(&self) -> usize {
        self.roi_width
    }

    closed spec fn height_spec(&self) -> usize {
        self.roi_height
    }

    open spec fn valid_rect_spec(&self) -> Rectangle {
        Rectangle { x: 0, y: 0, w: self.width_spec(), h: self.height_spec() }
    }

    closed spec fn pixel(&self, x: int, y: int) -> T {
        self.data@[row_major(self.roi_x + x, self.roi_y + y, self.base_width as int)]
    }

    fn width(&self) -> (r: usize) {
        self.roi_width
    }

    fn height(&self) -> (r: usize) {
        self.roi_height
    }

    fn valid_rect(&self) -> (r: Rectangle) {
        Rectangle { x: 0, y: 0, w: self.roi_width, h: self.roi_height }
    }

    fn get_unchecked(&self, x: usize, y: usize) -> (r: &T) {
        proof {
            assert(self.data@.len() == self.data.len());
            lemma_window_cell(
                self.base_width as int,
                self.data@.len() as int,
                self.roi_x as int,
                self.roi_y as int,
                self.roi_width as int,
                self.roi_height as int,
                x as int,
                y as int,
            );
        }
        &self.data[(self.roi_y + y) * self.base_width + self.roi_x + x]
    }
}

/// Where the requested span `[x, x + w)` meets `[0, limit)`: the start and
/// length of the meeting part, and how far into the request it begins.
pub(crate) fn overhang_span(x: isize, w: usize, limit: usize) -> (r: (usize, usize, usize))
    ensures
        r.0 == clamp(x as int, 0, limit as int),
        r.1 == clamp(x + w, 0, limit as int) - clamp(x as int, 0, limit as int),
        r.2 == (if x < 0 {
            -x
        } else {
            0
        }),
{
    let lo: i128 = x as i128;
    let hi: i128 = lo + w as i128;
    let lim: i128 = limit as i128;
    let s: i128 = if lo < 0 {
        0
    } else if lo > lim {
        lim
    } else {
        lo
    };
    let e: i128 = if hi < 0 {
        0
    } else if hi > lim {
        lim
    } else {
        hi
    };
    let off: i128 = if lo < 0 {
        -lo
    } else {
        0
    };
    (s as usize, (e - s) as usize, off as usize)
}

/// Facts about `overhang_span`: a non-empty meeting part lies inside the
/// request, and then `start - offset == x`.
pub proof fn lemma_overhang_span(x: int, w: int, limit: int, start: int, len: int, offset: int)
    requires
        0 <= w,
        0 <= limit,
        start == clamp(x, 0, limit),
        len == clamp(x + w, 0, limit) - clamp(x, 0, limit),
        offset == (if x < 0 {
            -x
        } else {
            0
        }),
    ensures
        0 <= len,
        len > 0 ==> offset + len <= w && start - offset == x,
{
}

/// A window of an image that may reach past its valid area: the valid part
/// is `valid_ref`, placed at `(valid_offset_x, valid_offset_y)` of this
/// `width x height` window.
pub struct ImageRefOverhang<'a, T> {
    pub(crate) valid_ref: ImageRef<'a, T>,
    pub(crate) valid_offset_x: usize,
    pub(crate) valid_offset_y: usize,
    pub(crate) width: usize,
    pub(crate) height: usize,
}

impl<'a, T> ImageRefOverhang<'a, T> {
    pub(crate) fn new(
        valid_ref: ImageRef<'a, T>,
        valid_offset_x: usize,
        valid_offset_y: usize,
        width: usize,
        height: usize,
    ) -> (r: Self)
        requires
            valid_ref.inv(),
            valid_ref.width_spec() > 0 && valid_ref.height_spec() > 0 ==> valid_offset_x
                + valid_ref.width_spec() <= width && valid_offset_y + valid_ref.height_spec()
                <= height,
        ensures
            r.inv(),
            r.width_spec() == width,
            r.height_spec() == height,
            r.valid_rect_spec() == (Rectangle {
                x: valid_offset_x,
                y: valid_offset_y,
                w: valid_ref.width_spec(),
                h: valid_ref.height_spec(),
            }),
            forall|a: int, b: int|
                #![trigger r.pixel(a, b)]
                r.pixel(a, b) == valid_ref.pixel(a - valid_offset_x, b - valid_offset_y),
    {
        ImageRefOverhang { valid_ref, valid_offset_x, valid_offset_y, width, height }
    }
}

impl<'a, T> ReadPixel for ImageRefOverhang<'a, T> {
    type Item = T;

    closed spec fn inv(&self) -> bool {
        &&& self.valid_ref.inv()
        &&& self.valid_ref.roi_width > 0 && self.valid_ref.roi_height > 0 ==> self.valid_offset_x
            + self.valid_ref.roi_width <= self.width && self.valid_offset_y
            + self.valid_ref.roi_height <= self.height
    }

    closed spec fn width_spec(&self) -> usize {
        self.width
    }

    closed spec fn height_spec(&self) -> usize {
        self.height
    }

    closed spec fn valid_rect_spec(&self) -> Rectangle {
        Rectangle {
            x: self.valid_offset_x,
            y: self.valid_offset_y,
            w: self.valid_ref.roi_width,
            h: self.valid_ref.roi_height,
        }
    }

    closed spec fn pixel(&self, x: int, y: int) -> T {
        self.valid_ref.pixel(x - self.valid_offset_x, y - self.valid_offset_y)
    }

    fn width(&self) -> (r: usize) {
        self.width
    }

    fn height(&self) -> (r: usize) {
        self.height
    }

    fn valid_rect(&self) -> (r: Rectangle) {
        Rectangle {
            x: self.valid_offset_x,
            y: self.valid_offset_y,
            w: self.valid_ref.roi_width,
            h: self.valid_ref.roi_height,
        }
    }

    fn get_unchecked(&self, x: usize, y: usize) -> (r: &T) {
        self.valid_ref.get_unchecked(x - self.valid_offset_x, y - self.valid_offset_y)
    }
}

impl<'a, T> AreaView for ImageRef<'a, T> {
    closed spec fn view_is_valid_spec(&self, x: int, y: int, w: int, h: int) -> bool {
        x + w <= self.roi_width && y + h <= self.roi_height
    }

    fn view_is_valid(&self, x: usize, y: usize, w: usize, h: usize) -> (r: bool) {
        w <= self.roi_width && x <= self.roi_width - w && h <= self.roi_height && y
            <= self.roi_height - h
    }

    fn view_unchecked(&self, x: usize, y: usize, w: usize, h: usize) -> (r: ImageRef<'_, T>) {
        proof {
            lemma_sub_window_fits(
                self.base_width as int,
                self.data@.len() as int,
                self.roi_x as int,
                self.roi_y as int,
                self.roi_width as int,
                self.roi_height as int,
                x as int,
                y as int,
                w as int,
                h as int,
            );
        }
        ImageRef::new(self.base_width, self.data, self.roi_x + x, self.roi_y + y, w, h)
    }

    fn view_overhang(&self, x: isize, y: isize, w: usize, h: usize) -> (r: ImageRefOverhang<'_, T>) {
        let whole = ImageRef::new(
            self.base_width,
            self.data,
            self.roi_x,
            self.roi_y,
            self.roi_width,
            self.roi_height,
        );
        whole.into_overhang(x, y, w, h)
    }
}

impl<'a, T> ImageRef<'a, T> {
    /// The `w x h` window of this view whose top-left cell is `(x, y)`,
    /// which may reach past this view's edges.
    pub fn into_overhang(self, x: isize, y: isize, w: usize, h: usize) -> (r: ImageRefOverhang<'a, T>)
        requires
            self.inv(),
        ensures
            r.inv(),
            r.width_spec() == w,
            r.height_spec() == h,
            forall|a: int, b: int|
                #![trigger r.valid_rect_spec().contains_spec(a, b)]
                r.valid_rect_spec().contains_spec(a, b) <==> (0 <= a < w && 0 <= b < h
                    && self.valid_rect_spec().contains_spec(x + a, y + b)),
            forall|a: int, b: int|
                #![trigger r.pixel(a, b)]
                r.valid_rect_spec().contains_spec(a, b) ==> r.pixel(a, b) == self.pixel(x + a, y + b),
    {
        let (valid_x, valid_width, offset_x) = overhang_span(x, w, self.roi_width);
        let (valid_y, valid_height, offset_y) = overhang_span(y, h, self.roi_height);
        proof {
            lemma_overhang_span(x as int, w as int, self.roi_width as int, valid_x as int, valid_width as int, offset_x as int);
            lemma_overhang_span(y as int, h as int, self.roi_height as int, valid_y as int, valid_height as int, offset_y as int);
            lemma_sub_window_fits(
                self.base_width as int,
                self.data@.len() as int,
                self.roi_x as int,
                self.roi_y as int,
                self.roi_width as int,
                self.roi_height as int,
                valid_x as int,
                valid_y as int,
                valid_width as int,
                valid_height as int,
            );
        }
        let inner = ImageRef::new(
            self.base_width,
            self.data,
            self.roi_x + valid_x,
            self.roi_y + valid_y,
            valid_width,
            valid_height,
        );
        ImageRefOverhang::new(inner, offset_x, offset_y, w, h)
    }
}

impl<'a, T> AreaView for ImageRefOverhang<'a, T> {
    closed spec fn view_is_valid_spec(&self, x: int, y: int, w: int, h: int) -> bool {
        &&& self.valid_offset_x <= x
        &&& x - self.valid_offset_x + w <= self.valid_ref.roi_width
        &&& self.valid_offset_y <= y
        &&& y - self.valid_offset_y + h <= self.valid_ref.roi_height
    }

    fn view_is_valid(&self, x: usize, y: usize, w: usize, h: usize) -> (r: bool) {
        x >= self.valid_offset_x && self.valid_ref.view_is_valid(
            x - self.valid_offset_x,
            0,
            w,
            0,
        ) && y >= self.valid_offset_y && self.valid_ref.view_is_valid(
            0,
            y - self.valid_offset_y,
            0,
            h,
        )
    }

    fn view_unchecked(&self, x: usize, y: usize, w: usize, h: usize) -> (r: ImageRef<'_, T>) {
        self.valid_ref.view_unchecked(x - self.valid_offset_x, y - self.valid_offset_y, w, h)
    }

    fn view_overhang(&self, x: isize, y: isize, w: usize, h: usize) -> (r: ImageRefOverhang<'_, T>) {
        let nx = (x as i128 - self.valid_offset_x as i128) as isize;
        let ny = (y as i128 - self.valid_offset_y as i128) as isize;
        self.valid_ref.view_overhang(nx, ny, w, h)
    }
}

/// The rank `k` of a `w x h` window at `(roi_x, roi_y)`, counted from
/// `roi_y * w`, names the window's cell `(k % w, k / w)`, and every rank
/// names a cell of the storage.
pub proof fn lemma_window_positions(
    base_width: int,
    len: int,
    roi_x: int,
    roi_y: int,
    w: int,
    h: int,
)
    requires
        0 <= roi_x,
        0 <= roi_y,
        0 < w,
        0 <= h,
        window_fits(base_width, len, roi_x, roi_y, w, h),
    ensures
        forall|k: int|
            0 <= k < w * h ==> #[trigger] cell_index(base_width, roi_x, w, roi_y * w + k)
                == row_major(roi_x + k % w, roi_y + k / w, base_width) && 0 <= k / w < h,
        cells_in_storage(base_width, roi_x, w, roi_y * w, roi_y * w + w * h, len),
{
    assert forall|k: int| 0 <= k < w * h implies #[trigger] cell_index(
        base_width,
        roi_x,
        w,
        roi_y * w + k,
    ) == row_major(roi_x + k % w, roi_y + k / w, base_width) && 0 <= k / w < h && 0 <= cell_index(
        base_width,
        roi_x,
        w,
        roi_y * w + k,
    ) < len by {
        lemma_fundamental_div_mod(k, w);
        let q = k / w;
        let c = k % w;
        if q >= h {
            lemma_mul_inequality(h, q, w);
            assert(q * w == w * q) by (nonlinear_arith);
            assert(h * w == w * h) by (nonlinear_arith);
        }
        vstd::arithmetic::div_mod::lemma_div_pos_is_pos(k, w);
        assert(roi_y * w + k == w * (roi_y + q) + c) by (nonlinear_arith)
            requires
                k == w * q + c,
        ;
        lemma_fundamental_div_mod_converse(roi_y * w + k, w, roi_y + q, c);
        lemma_window_cell(base_width, len, roi_x, roi_y, w, h, c, q);
    }
    assert forall|i: int| roi_y * w <= i < roi_y * w + w * h implies 0 <= #[trigger] cell_index(
        base_width,
        roi_x,
        w,
        i,
    ) < len by {
        let k = i - roi_y * w;
        assert(i == roi_y * w + k);
    }
}

impl<'a, T> ImageRef<'a, T> {
    /// An iterator over the cells of this view in row-major order.
    fn cells_iter(&self) -> (r: Iter<'a, T>)
        requires
            self.inv(),
        ensures
            r.inv(),
            r.values() == logical_order(self),
    {
        if self.roi_width == 0 {
            let r = Iter::new(self.data, self.base_width, self.roi_x, self.roi_width, 0..0);
            proof {
                assert(r.values() =~= logical_order(self));
            }
            return r;
        }
        proof {
            lemma_window_positions(
                self.base_width as int,
                self.data@.len() as int,
                self.roi_x as int,
                self.roi_y as int,
                self.roi_width as int,
                self.roi_height as int,
            );
            lemma_mul_inequality(self.roi_y + self.roi_height, self.roi_y + self.roi_height, self.roi_width as int);
            lemma_mul_inequality(self.roi_width as int, self.base_width as int, self.roi_y + self.roi_height);
            assert((self.roi_y + self.roi_height) * self.roi_width == self.roi_y * self.roi_width
                + self.roi_width * self.roi_height) by (nonlinear_arith);
            assert(self.base_width * (self.roi_y + self.roi_height) == (self.roi_y + self.roi_height)
                * self.base_width) by (nonlinear_arith);
            assert(0 <= self.roi_y * self.roi_width) by (nonlinear_arith)
                requires
                    0 <= self.roi_y,
                    0 <= self.roi_width,
            ;
            assert(0 <= self.roi_width * self.roi_height) by (nonlinear_arith)
                requires
                    0 <= self.roi_height,
                    0 <= self.roi_width,
            ;
        }
        proof {
            assert(self.data@.len() == self.data.len());
        }
        let offset = self.roi_y * self.roi_width;
        let r = Iter::new(
            self.data,
            self.base_width,
            self.roi_x,
            self.roi_width,
            offset..offset + self.roi_width * self.roi_height,
        );
        proof {
            assert(r.values() =~= logical_order(self));
        }
        r
    }

    /// The cells of this view in row-major order, for parallel consumption.
    pub fn pix_iter(&self) -> (r: PixIter<Iter<'a, T>>)
        requires
            self.inv(),
        ensures
            r.width_spec() == self.width_spec(),
            r.height_spec() == self.height_spec(),
            r.inner().inv(),
            r.inner().values() == logical_order(self),
    {
        PixIter::new(self.cells_iter(), self.roi_width, self.roi_height)
    }

    /// The cells of this view in row-major order, for sequential consumption.
    pub fn pix_iter_serialized(&self) -> (r: SerializePixIter<Iter<'a, T>>)
        requires
            self.inv(),
        ensures
            r.width_spec() == self.width_spec(),
            r.height_spec() == self.height_spec(),
            r.inner().inv(),
            r.inner().values() == logical_order(self),
    {
        SerializePixIter::new(self.cells_iter(), self.roi_width, self.roi_height)
    }


}

/// A fresh iterator over every position of an overhanging window `q`, whose
/// inner iterator produces the valid cells of `q` in row-major order, yields
/// the window's positions in row-major order.
proof fn lemma_positions_in_order<Q: ReadPixel, I: PixelProducer<Value = Q::Item>>(
    q: &Q,
    r: &IterOverhang<I>,
)
    requires
        r.layout_spec().wf(),
        r.layout_spec().width == q.width_spec(),
        r.layout_spec().height == q.height_spec(),
        q.valid_rect_spec() == (Rectangle {
            x: r.layout_spec().offset_x,
            y: r.layout_spec().offset_y,
            w: r.layout_spec().valid_width,
            h: r.layout_spec().valid_height,
        }),
        r.start_spec() == 0,
        r.end_spec() == q.width_spec() * q.height_spec(),
        r.inner().inv(),
        r.inner().values() == Seq::new(
            (r.layout_spec().valid_width * r.layout_spec().valid_height) as nat,
            |k: int|
                q.pixel(
                    r.layout_spec().offset_x + k % (r.layout_spec().valid_width as int),
                    r.layout_spec().offset_y + k / (r.layout_spec().valid_width as int),
                ),
        ),
    ensures
        r.inv(),
        r.values() == logical_order_overhang(q),
{
    let l = r.layout_spec();
    let w = l.width as int;
    let vw = l.valid_width as int;
    let vh = l.valid_height as int;
    let ox = l.offset_x as int;
    let oy = l.offset_y as int;
    if vw == 0 || vh == 0 {
        l.lemma_count_empty(w * l.height);
        assert(vw * vh == 0) by (nonlinear_arith)
            requires
                vw == 0 || vh == 0,
        ;
    } else {
        l.lemma_count_closed(w * l.height);
        assert(w * l.height == l.height * w) by (nonlinear_arith);
        lemma_fundamental_div_mod_converse(w * l.height, w, l.height as int, 0);
        assert(vh * vw == vw * vh) by (nonlinear_arith);
    }
    r.lemma_whole_window();
    assert forall|k: int| 0 <= k < r.values().len() implies r.values()[k]
        == logical_order_overhang(q)[k] by {
        if l.in_rect(k) {
            l.lemma_count_closed(k);
            let x = k % w;
            let y = k / w;
            let rank = l.count_before(k) as int;
            assert(rank == (y - oy) * vw + (x - ox));
            assert(rank == vw * (y - oy) + (x - ox)) by (nonlinear_arith)
                requires
                    rank == (y - oy) * vw + (x - ox),
            ;
            lemma_fundamental_div_mod_converse(rank, vw, y - oy, x - ox);
            lemma_mul_inequality(y - oy + 1, vh, vw);
            assert((y - oy + 1) * vw == (y - oy) * vw + vw) by (nonlinear_arith);
            assert(vh * vw == vw * vh) by (nonlinear_arith);
        }
    }
    assert(r.values() =~= logical_order_overhang(q));
}

impl<'a, T> ImageRefOverhang<'a, T> {
    /// An iterator over every position of this window in row-major order.
    fn positions_iter(&self) -> (r: IterOverhang<Iter<'a, T>>)
        requires
            self.inv(),
            self.width * self.height <= usize::MAX,
        ensures
            r.inv(),
            r.values() == logical_order_overhang(self),
    {
        let inner = self.valid_ref.cells_iter();
        let r = IterOverhang::new(
            inner,
            self.valid_ref.roi_width,
            self.valid_ref.roi_height,
            self.valid_offset_x,
            self.valid_offset_y,
            self.width,
            self.height,
        );
        proof {
            assert(r.inner().values() =~= Seq::new(
                (self.valid_ref.roi_width * self.valid_ref.roi_height) as nat,
                |k: int|
                    self.pixel(
                        self.valid_offset_x + k % (self.valid_ref.roi_width as int),
                        self.valid_offset_y + k / (self.valid_ref.roi_width as int),
                    ),
            ));
            lemma_positions_in_order(self, &r);
        }
        r
    }

    /// Every position of this window in row-major order, for parallel
    /// consumption: its cell where it is valid, `None` elsewhere.
    pub fn pix_iter(&self) -> (r: PixIter<IterOverhang<Iter<'a, T>>>)
        requires
            self.inv(),
            self.width_spec() * self.height_spec() <= usize::MAX,
        ensures
            r.width_spec() == self.width_spec(),
            r.height_spec() == self.height_spec(),
            r.inner().inv(),
            r.inner().values() == logical_order_overhang(self),
    {
        PixIter::new(self.positions_iter(), self.width, self.height)
    }

    /// Every position of this window in row-major order, for sequential
    /// consumption: its cell where it is valid, `None` elsewhere.
    pub fn pix_iter_serialized(&self) -> (r: SerializePixIter<IterOverhang<Iter<'a, T>>>)
        requires
            self.inv(),
            self.width_spec() * self.height_spec() <= usize::MAX,
        ensures
            r.width_spec() == self.width_spec(),
            r.height_spec() == self.height_spec(),
            r.inner().inv(),
            r.inner().values() == logical_order_overhang(self),
    {
        SerializePixIter::new(self.positions_iter(), self.width, self.height)
    }
}


/// A mutable `roi_width x roi_height` window whose top-left cell is
/// `(roi_x, roi_y)` of row-major storage with rows of `base_width` cells.
pub struct ImageRefMut<'a, T> {
    pub(crate) base_width: usize,
    pub(crate) data: &'a mut [T],
    pub(crate) roi_x: usize,
    pub(crate) roi_y: usize,
    pub(crate) roi_width: usize,
    pub(crate) roi_height: usize,
}

impl<'a, T> ImageRefMut<'a, T> {
    pub(crate) fn new(
        base_width: usize,
        data: &'a mut [T],
        roi_x: usize,
        roi_y: usize,
        roi_width: usize,
        roi_height: usize,
    ) -> (r: Self)
        requires
            window_fits(
                base_width as int,
                old(data)@.len() as int,
                roi_x as int,
                roi_y as int,
                roi_width as int,
                roi_height as int,
            ),
        ensures
            r.inv(),
            r.width_spec() == roi_width,
            r.height_spec() == roi_height,
            forall|a: int, b: int|
                #![trigger r.pixel(a, b)]
                0 <= a < roi_width && 0 <= b < roi_height ==> r.pixel(a, b) == old(data)@[row_major(
                    roi_x + a,
                    roi_y + b,
                    base_width as int,
                )],
            r.backing()@ == old(data)@,
            final(r.backing())@ == final(data)@,
            forall|a: int, b: int|
                #![trigger r.storage_index(a, b)]
                r.storage_index(a, b) == row_major(roi_x + a, roi_y + b, base_width as int),
    {
        ImageRefMut { base_width, data, roi_x, roi_y, roi_width, roi_height }
    }

    /// The `w x h` window of this view whose top-left cell is `(x, y)`,
    /// which may reach past this view's edges.
    pub fn into_overhang_mut(self, x: isize, y: isize, w: usize, h: usize) -> (r:
        ImageRefOverhangMut<'a, T>)
        requires
            self.inv(),
        ensures
            r.inv(),
            r.width_spec() == w,
            r.height_spec() == h,
            forall|a: int, b: int|
                #![trigger r.valid_rect_spec().contains_spec(a, b)]
                r.valid_rect_spec().contains_spec(a, b) <==> (0 <= a < w && 0 <= b < h
                    && self.valid_rect_spec().contains_spec(x + a, y + b)),
            forall|a: int, b: int|
                #![trigger r.pixel(a, b)]
                r.valid_rect_spec().contains_spec(a, b) ==> r.pixel(a, b) == self.pixel(x + a, y + b),
            r.backing()@ == self.backing()@,
            final(r.backing())@ == final(self.backing())@,
            forall|a: int, b: int|
                #![trigger r.storage_index(a, b)]
                r.valid_rect_spec().contains_spec(a, b) ==> r.storage_index(a, b)
                    == self.storage_index(x + a, y + b),
    {
        let (valid_x, valid_width, offset_x) = overhang_span(x, w, self.roi_width);
        let (valid_y, valid_height, offset_y) = overhang_span(y, h, self.roi_height);
        proof {
            lemma_overhang_span(x as int, w as int, self.roi_width as int, valid_x as int, valid_width as int, offset_x as int);
            lemma_overhang_span(y as int, h as int, self.roi_height as int, valid_y as int, valid_height as int, offset_y as int);
            lemma_sub_window_fits(
                self.base_width as int,
                self.data@.len() as int,
                self.roi_x as int,
                self.roi_y as int,
                self.roi_width as int,
                self.roi_height as int,
                valid_x as int,
                valid_y as int,
                valid_width as int,
                valid_height as int,
            );
        }
        let inner = ImageRefMut::new(
            self.base_width,
            self.data,
            self.roi_x + valid_x,
            self.roi_y + valid_y,
            valid_width,
            valid_height,
        );
        ImageRefOverhangMut::new(inner, offset_x, offset_y, w, h)
    }
}

impl<'a, T> ReadPixel for ImageRefMut<'a, T> {
    type Item = T;

    closed spec fn inv(&self) -> bool {
        window_fits(
            self.base_width as int,
            self.data@.len() as int,
            self.roi_x as int,
            self.roi_y as int,
            self.roi_width as int,
            self.roi_height as int,
        )
    }

    closed spec fn width_spec(&self) -> usize {
        self.roi_width
    }

    closed spec fn height_spec(&self) -> usize {
        self.roi_height
    }

    open spec fn valid_rect_spec(&self) -> Rectangle {
        Rectangle { x: 0, y: 0, w: self.width_spec(), h: self.height_spec() }
    }

    closed spec fn pixel(&self, x: int, y: int) -> T {
        self.data@[row_major(self.roi_x + x, self.roi_y + y, self.base_width as int)]
    }

    fn width(&self) -> (r: usize) {
        self.roi_width
    }

    fn height(&self) -> (r: usize) {
        self.roi_height
    }

    fn valid_rect(&self) -> (r: Rectangle) {
        Rectangle { x: 0, y: 0, w: self.roi_width, h: self.roi_height }
    }

    fn get_unchecked(&self, x: usize, y: usize) -> (r: &T) {
        proof {
            assert(self.data@.len() == self.data.len());
            lemma_window_cell(
                self.base_width as int,
                self.data@.len() as int,
                self.roi_x as int,
                self.roi_y as int,
                self.roi_width as int,
                self.roi_height as int,
                x as int,
                y as int,
            );
        }
        &self.data[(self.roi_y + y) * self.base_width + self.roi_x + x]
    }
}

impl<'a, T> WritePixel for ImageRefMut<'a, T> {
    open spec fn storage(&self) -> Seq<T> {
        self.backing()@
    }

    closed spec fn storage_index(&self, x: int, y: int) -> int {
        row_major(self.roi_x + x, self.roi_y + y, self.base_width as int)
    }

    proof fn lemma_storage(&self) {
        assert forall|x: int, y: int|
            #![trigger self.storage_index(x, y)]
            self.valid_rect_spec().contains_spec(x, y) implies 0 <= self.storage_index(x, y)
                < self.storage().len() by {
            lemma_window_cell(
                self.base_width as int,
                self.data@.len() as int,
                self.roi_x as int,
                self.roi_y as int,
                self.roi_width as int,
                self.roi_height as int,
                x,
                y,
            );
        }
    }

    closed spec fn same_frame(&self, other: &Self) -> bool {
        &&& self.base_width == other.base_width
        &&& self.roi_x == other.roi_x
        &&& self.roi_y == other.roi_y
        &&& self.roi_width == other.roi_width
        &&& self.roi_height == other.roi_height
    }

    fn get_unchecked_mut(&mut self, x: usize, y: usize) -> (r: &mut T) {
        let n = self.data.len();
        proof {
            lemma_window_cell(
                self.base_width as int,
                self.data@.len() as int,
                self.roi_x as int,
                self.roi_y as int,
                self.roi_width as int,
                self.roi_height as int,
                x as int,
                y as int,
            );
        }
        let i = (self.roi_y + y) * self.base_width + self.roi_x + x;
        proof {
            assert forall|a: int, b: int|
                0 <= a < self.roi_width && 0 <= b < self.roi_height && (a != x || b != y) implies #[trigger] row_major(self.roi_x + a, self.roi_y + b, self.base_width as int) != i && 0 <= row_major(self.roi_x + a, self.roi_y + b, self.base_width as int) < n by {
                crate::physical_image::lemma_cells_distinct(
                    self.roi_x + a,
                    self.roi_y + b,
                    self.roi_x + x,
                    self.roi_y + y,
                    self.base_width as int,
                );
                lemma_window_cell(
                    self.base_width as int,
                    self.data@.len() as int,
                    self.roi_x as int,
                    self.roi_y as int,
                    self.roi_width as int,
                    self.roi_height as int,
                    a,
                    b,
                );
            }
        }
        &mut self.data[i]
    }
}

impl<'a, T> AreaView for ImageRefMut<'a, T> {
    closed spec fn view_is_valid_spec(&self, x: int, y: int, w: int, h: int) -> bool {
        x + w <= self.roi_width && y + h <= self.roi_height
    }

    fn view_is_valid(&self, x: usize, y: usize, w: usize, h: usize) -> (r: bool) {
        w <= self.roi_width && x <= self.roi_width - w && h <= self.roi_height && y
            <= self.roi_height - h
    }

    fn view_unchecked(&self, x: usize, y: usize, w: usize, h: usize) -> (r: ImageRef<'_, T>) {
        proof {
            lemma_sub_window_fits(
                self.base_width as int,
                self.data@.len() as int,
                self.roi_x as int,
                self.roi_y as int,
                self.roi_width as int,
                self.roi_height as int,
                x as int,
                y as int,
                w as int,
                h as int,
            );
        }
        ImageRef::new(self.base_width, &*self.data, self.roi_x + x, self.roi_y + y, w, h)
    }

    fn view_overhang(&self, x: isize, y: isize, w: usize, h: usize) -> (r: ImageRefOverhang<'_, T>) {
        let whole = ImageRef::new(
            self.base_width,
            &*self.data,
            self.roi_x,
            self.roi_y,
            self.roi_width,
            self.roi_height,
        );
        whole.into_overhang(x, y, w, h)
    }
}

impl<'a, T> AreaViewMut for ImageRefMut<'a, T> {
    fn view_unchecked_mut(&mut self, x: usize, y: usize, w: usize, h: usize) -> (r: ImageRefMut<
        '_,
        T,
    >) {
        proof {
            lemma_sub_window_fits(
                self.base_width as int,
                self.data@.len() as int,
                self.roi_x as int,
                self.roi_y as int,
                self.roi_width as int,
                self.roi_height as int,
                x as int,
                y as int,
                w as int,
                h as int,
            );
        }
        ImageRefMut::new(self.base_width, &mut *self.data, self.roi_x + x, self.roi_y + y, w, h)
    }

    fn view_overhang_mut(&mut self, x: isize, y: isize, w: usize, h: usize) -> (r:
        ImageRefOverhangMut<'_, T>) {
        let whole = ImageRefMut::new(
            self.base_width,
            &mut *self.data,
            self.roi_x,
            self.roi_y,
            self.roi_width,
            self.roi_height,
        );
        whole.into_overhang_mut(x, y, w, h)
    }
}

/// A mutable window of an image that may reach past its valid area: the
/// valid part is `valid_ref`, placed at `(valid_offset_x, valid_offset_y)`
/// of this `width x height` window.
pub struct ImageRefOverhangMut<'a, T> {
    pub(crate) valid_ref: ImageRefMut<'a, T>,
    pub(crate) valid_offset_x: usize,
    pub(crate) valid_offset_y: usize,
    pub(crate) width: usize,
    pub(crate) height: usize,
}

impl<'a, T> ImageRefOverhangMut<'a, T> {
    pub(crate) fn new(
        valid_ref: ImageRefMut<'a, T>,
        valid_offset_x: usize,
        valid_offset_y: usize,
        width: usize,
        height: usize,
    ) -> (r: Self)
        requires
            valid_ref.inv(),
            valid_ref.width_spec() > 0 && valid_ref.height_spec() > 0 ==> valid_offset_x
                + valid_ref.width_spec() <= width && valid_offset_y + valid_ref.height_spec()
                <= height,
        ensures
            r.inv(),
            r.width_spec() == width,
            r.height_spec() == height,
            r.valid_rect_spec() == (Rectangle {
                x: valid_offset_x,
                y: valid_offset_y,
                w: valid_ref.width_spec(),
                h: valid_ref.height_spec(),
            }),
            forall|a: int, b: int|
                #![trigger r.pixel(a, b)]
                r.pixel(a, b) == valid_ref.pixel(a - valid_offset_x, b - valid_offset_y),
            r.backing()@ == valid_ref.backing()@,
            final(r.backing())@ == final(valid_ref.backing())@,
            forall|a: int, b: int|
                #![trigger r.storage_index(a, b)]
                r.storage_index(a, b) == valid_ref.storage_index(a - valid_offset_x, b - valid_offset_y),
    {
        ImageRefOverhangMut { valid_ref, valid_offset_x, valid_offset_y, width, height }
    }
}

impl<'a, T> ReadPixel for ImageRefOverhangMut<'a, T> {
    type Item = T;

    closed spec fn inv(&self) -> bool {
        &&& self.valid_ref.inv()
        &&& self.valid_ref.roi_width > 0 && self.valid_ref.roi_height > 0 ==> self.valid_offset_x
            + self.valid_ref.roi_width <= self.width && self.valid_offset_y
            + self.valid_ref.roi_height <= self.height
    }

    closed spec fn width_spec(&self) -> usize {
        self.width
    }

    closed spec fn height_spec(&self) -> usize {
        self.height
    }

    closed spec fn valid_rect_spec(&self) -> Rectangle {
        Rectangle {
            x: self.valid_offset_x,
            y: self.valid_offset_y,
            w: self.valid_ref.roi_width,
            h: self.valid_ref.roi_height,
        }
    }

    closed spec fn pixel(&self, x: int, y: int) -> T {
        self.valid_ref.pixel(x - self.valid_offset_x, y - self.valid_offset_y)
    }

    fn width(&self) -> (r: usize) {
        self.width
    }

    fn height(&self) -> (r: usize) {
        self.height
    }

    fn valid_rect(&self) -> (r: Rectangle) {
        Rectangle {
            x: self.valid_offset_x,
            y: self.valid_offset_y,
            w: self.valid_ref.roi_width,
            h: self.valid_ref.roi_height,
        }
    }

    fn get_unchecked(&self, x: usize, y: usize) -> (r: &T) {
        self.valid_ref.get_unchecked(x - self.valid_offset_x, y - self.valid_offset_y)
    }
}

impl<'a, T> WritePixel for ImageRefOverhangMut<'a, T> {
    open spec fn storage(&self) -> Seq<T> {
        self.backing()@
    }

    closed spec fn storage_index(&self, x: int, y: int) -> int {
        self.valid_ref.storage_index(x - self.valid_offset_x, y - self.valid_offset_y)
    }

    proof fn lemma_storage(&self) {
        self.valid_ref.lemma_storage();
        assert forall|x: int, y: int|
            #![trigger self.storage_index(x, y)]
            self.valid_rect_spec().contains_spec(x, y) implies 0 <= self.storage_index(x, y)
                < self.storage().len() && self.pixel(x, y) == self.storage()[self.storage_index(
                x,
                y,
            )] by {
            assert(self.valid_ref.valid_rect_spec().contains_spec(
                x - self.valid_offset_x,
                y - self.valid_offset_y,
            ));
        }
    }

    closed spec fn same_frame(&self, other: &Self) -> bool {
        &&& self.valid_ref.same_frame(&other.valid_ref)
        &&& self.valid_offset_x == other.valid_offset_x
        &&& self.valid_offset_y == other.valid_offset_y
        &&& self.width == other.width
        &&& self.height == other.height
    }

    fn get_unchecked_mut(&mut self, x: usize, y: usize) -> (r: &mut T) {
        self.valid_ref.get_unchecked_mut(x - self.valid_offset_x, y - self.valid_offset_y)
    }
}

impl<'a, T> AreaView for ImageRefOverhangMut<'a, T> {
    closed spec fn view_is_valid_spec(&self, x: int, y: int, w: int, h: int) -> bool {
        &&& self.valid_offset_x <= x
        &&& x - self.valid_offset_x + w <= self.valid_ref.roi_width
        &&& self.valid_offset_y <= y
        &&& y - self.valid_offset_y + h <= self.valid_ref.roi_height
    }

    fn view_is_valid(&self, x: usize, y: usize, w: usize, h: usize) -> (r: bool) {
        x >= self.valid_offset_x && self.valid_ref.view_is_valid(
            x - self.valid_offset_x,
            0,
            w,
            0,
        ) && y >= self.valid_offset_y && self.valid_ref.view_is_valid(
            0,
            y - self.valid_offset_y,
            0,
            h,
        )
    }

    fn view_unchecked(&self, x: usize, y: usize, w: usize, h: usize) -> (r: ImageRef<'_, T>) {
        self.valid_ref.view_unchecked(x - self.valid_offset_x, y - self.valid_offset_y, w, h)
    }

    fn view_overhang(&self, x: isize, y: isize, w: usize, h: usize) -> (r: ImageRefOverhang<'_, T>) {
        let nx = (x as i128 - self.valid_offset_x as i128) as isize;
        let ny = (y as i128 - self.valid_offset_y as i128) as isize;
        self.valid_ref.view_overhang(nx, ny, w, h)
    }
}

impl<'a, T> AreaViewMut for ImageRefOverhangMut<'a, T> {
    fn view_unchecked_mut(&mut self, x: usize, y: usize, w: usize, h: usize) -> (r: ImageRefMut<
        '_,
        T,
    >) {
        self.valid_ref.view_unchecked_mut(x - self.valid_offset_x, y - self.valid_offset_y, w, h)
    }

    fn view_overhang_mut(&mut self, x: isize, y: isize, w: usize, h: usize) -> (r:
        ImageRefOverhangMut<'_, T>) {
        let nx = (x as i128 - self.valid_offset_x as i128) as isize;
        let ny = (y as i128 - self.valid_offset_y as i128) as isize;
        self.valid_ref.view_overhang_mut(nx, ny, w, h)
    }
}


impl<'a, T> ImageRefMut<'a, T> {
    /// A read-only view of the same window.
    fn shared(&self) -> (r: ImageRef<'_, T>)
        requires
            self.inv(),
        ensures
            r.inv(),
            r.width_spec() == self.width_spec(),
            r.height_spec() == self.height_spec(),
            forall|a: int, b: int| #[trigger] r.pixel(a, b) == self.pixel(a, b),
    {
        ImageRef {
            base_width: self.base_width,
            data: &*self.data,
            roi_x: self.roi_x,
            roi_y: self.roi_y,
            roi_width: self.roi_width,
            roi_height: self.roi_height,
        }
    }

    /// Gives up the view for a mutable iterator over its cells in row-major
    /// order.
    fn into_cells_iter_mut(self) -> (r: IterMut<'a, T>)
        requires
            self.inv(),
        ensures
            r.inv(),
            r.values() == logical_order(&self),
    {
        let ghost me = self;
        if self.roi_width == 0 {
            let r = IterMut::new(self.data, self.base_width, self.roi_x, self.roi_width, 0..0);
            proof {
                assert(r.values() =~= logical_order(&me));
            }
            return r;
        }
        proof {
            lemma_window_positions(
                self.base_width as int,
                self.data@.len() as int,
                self.roi_x as int,
                self.roi_y as int,
                self.roi_width as int,
                self.roi_height as int,
            );
            lemma_mul_inequality(self.roi_width as int, self.base_width as int, self.roi_y + self.roi_height);
            assert((self.roi_y + self.roi_height) * self.roi_width == self.roi_y * self.roi_width
                + self.roi_width * self.roi_height) by (nonlinear_arith);
            assert(self.base_width * (self.roi_y + self.roi_height) == (self.roi_y + self.roi_height)
                * self.base_width) by (nonlinear_arith);
            assert(0 <= self.roi_y * self.roi_width) by (nonlinear_arith)
                requires
                    0 <= self.roi_y,
                    0 <= self.roi_width,
            ;
            assert(0 <= self.roi_width * self.roi_height) by (nonlinear_arith)
                requires
                    0 <= self.roi_height,
                    0 <= self.roi_width,
            ;
        }
        proof {
            assert(self.data@.len() == self.data.len());
        }
        let offset = self.roi_y * self.roi_width;
        let end = offset + self.roi_width * self.roi_height;
        let r = IterMut::new(self.data, self.base_width, self.roi_x, self.roi_width, offset..end);
        proof {
            assert(r.values() =~= logical_order(&me));
        }
        r
    }

    /// The cells of this view in row-major order, for parallel consumption.
    pub fn pix_iter(&self) -> (r: PixIter<Iter<'_, T>>)
        requires
            self.inv(),
        ensures
            r.width_spec() == self.width_spec(),
            r.height_spec() == self.height_spec(),
            r.inner().inv(),
            r.inner().values() == logical_order(self),
    {
        let v = self.shared();
        let r = v.cells_iter();
        proof {
            assert(logical_order(&v) =~= logical_order(self));
        }
        PixIter::new(r, self.roi_width, self.roi_height)
    }

    /// The cells of this view in row-major order, for sequential consumption.
    pub fn pix_iter_serialized(&self) -> (r: SerializePixIter<Iter<'_, T>>)
        requires
            self.inv(),
        ensures
            r.width_spec() == self.width_spec(),
            r.height_spec() == self.height_spec(),
            r.inner().inv(),
            r.inner().values() == logical_order(self),
    {
        let v = self.shared();
        let r = v.cells_iter();
        proof {
            assert(logical_order(&v) =~= logical_order(self));
        }
        SerializePixIter::new(r, self.roi_width, self.roi_height)
    }



    /// A view of the same window that borrows this one.
    fn reborrow(&mut self) -> (r: ImageRefMut<'_, T>)
        requires
            old(self).inv(),
        ensures
            final(r.data)@ == final(self).data@,
            r.data@ == old(self).data@,
            r.inv(),
            r.width_spec() == old(self).width_spec(),
            r.height_spec() == old(self).height_spec(),
            forall|a: int, b: int| #[trigger] r.pixel(a, b) == old(self).pixel(a, b),
    {
        ImageRefMut {
            base_width: self.base_width,
            data: &mut *self.data,
            roi_x: self.roi_x,
            roi_y: self.roi_y,
            roi_width: self.roi_width,
            roi_height: self.roi_height,
        }
    }

    /// The mutable cells of this view in row-major order, for parallel
    /// consumption.
    pub fn pix_iter_mut(&mut self) -> (r: PixIter<IterMut<'_, T>>)
        requires
            old(self).inv(),
        ensures
            r.width_spec() == old(self).width_spec(),
            r.height_spec() == old(self).height_spec(),
            r.inner().inv(),
            r.inner().values() == logical_order(&*old(self)),
    {
        let v = self.reborrow();
        proof {
            assert(logical_order(&v) =~= logical_order(&*old(self)));
        }
        let (w, h) = (v.roi_width, v.roi_height);
        PixIter::new(v.into_cells_iter_mut(), w, h)
    }

    /// The mutable cells of this view in row-major order, for sequential
    /// consumption.
    pub fn pix_iter_serialized_mut(&mut self) -> (r: SerializePixIter<IterMut<'_, T>>)
        requires
            old(self).inv(),
        ensures
            r.width_spec() == old(self).width_spec(),
            r.height_spec() == old(self).height_spec(),
            r.inner().inv(),
            r.inner().values() == logical_order(&*old(self)),
    {
        let v = self.reborrow();
        proof {
            assert(logical_order(&v) =~= logical_order(&*old(self)));
        }
        let (w, h) = (v.roi_width, v.roi_height);
        SerializePixIter::new(v.into_cells_iter_mut(), w, h)
    }
}


impl<'a, T> ImageRefOverhang<'a, T> {

}

impl<'a, T> ImageRefOverhangMut<'a, T> {
    /// A read-only view of the same window.
    fn shared(&self) -> (r: ImageRefOverhang<'_, T>)
        requires
            self.inv(),
        ensures
            r.inv(),
            r.width_spec() == self.width_spec(),
            r.height_spec() == self.height_spec(),
            logical_order_overhang(&r) == logical_order_overhang(self),
    {
        let r = ImageRefOverhang::new(
            self.valid_ref.shared(),
            self.valid_offset_x,
            self.valid_offset_y,
            self.width,
            self.height,
        );
        proof {
            assert(logical_order_overhang(&r) =~= logical_order_overhang(self));
        }
        r
    }

    /// Gives up the view for a mutable iterator over every position of it
    /// in row-major order.
    fn into_positions_iter_mut(self) -> (r: IterOverhang<IterMut<'a, T>>)
        requires
            self.inv(),
            self.width * self.height <= usize::MAX,
        ensures
            r.inv(),
            r.values() == logical_order_overhang(&self),
    {
        let ghost me = self;
        let ImageRefOverhangMut { valid_ref, valid_offset_x, valid_offset_y, width, height } = self;
        let (vw, vh) = (valid_ref.roi_width, valid_ref.roi_height);
        let inner = valid_ref.into_cells_iter_mut();
        let r = IterOverhang::new(inner, vw, vh, valid_offset_x, valid_offset_y, width, height);
        proof {
            assert(r.inner().values() =~= Seq::new(
                (vw * vh) as nat,
                |k: int|
                    me.pixel(valid_offset_x + k % (vw as int), valid_offset_y + k / (vw as int)),
            ));
            lemma_positions_in_order(&me, &r);
        }
        r
    }

    /// Every position of this window in row-major order, for parallel
    /// consumption: its cell where it is valid, `None` elsewhere.
    pub fn pix_iter(&self) -> (r: PixIter<IterOverhang<Iter<'_, T>>>)
        requires
            self.inv(),
            self.width_spec() * self.height_spec() <= usize::MAX,
        ensures
            r.width_spec() == self.width_spec(),
            r.height_spec() == self.height_spec(),
            r.inner().inv(),
            r.inner().values() == logical_order_overhang(self),
    {
        self.shared().into_pix_iter()
    }

    /// Every position of this window in row-major order, for sequential
    /// consumption: its cell where it is valid, `None` elsewhere.
    pub fn pix_iter_serialized(&self) -> (r: SerializePixIter<IterOverhang<Iter<'_, T>>>)
        requires
            self.inv(),
            self.width_spec() * self.height_spec() <= usize::MAX,
        ensures
            r.width_spec() == self.width_spec(),
            r.height_spec() == self.height_spec(),
            r.inner().inv(),
            r.inner().values() == logical_order_overhang(self),
    {
        self.shared().into_pix_iter_serialized()
    }



    /// A view of the same window that borrows this one.
    fn reborrow(&mut self) -> (r: ImageRefOverhangMut<'_, T>)
        requires
            old(self).inv(),
        ensures
            r.inv(),
            r.width_spec() == old(self).width_spec(),
            r.height_spec() == old(self).height_spec(),
            logical_order_overhang(&r) == logical_order_overhang(&*old(self)),
    {
        let r = ImageRefOverhangMut::new(
            self.valid_ref.reborrow(),
            self.valid_offset_x,
            self.valid_offset_y,
            self.width,
            self.height,
        );
        proof {
            assert(logical_order_overhang(&r) =~= logical_order_overhang(&*old(self)));
        }
        r
    }

    /// Every mutable position of this window in row-major order, for
    /// parallel consumption.
    pub fn pix_iter_mut(&mut self) -> (r: PixIter<IterOverhang<IterMut<'_, T>>>)
        requires
            old(self).inv(),
            old(self).width_spec() * old(self).height_spec() <= usize::MAX,
        ensures
            r.width_spec() == old(self).width_spec(),
            r.height_spec() == old(self).height_spec(),
            r.inner().inv(),
            r.inner().values() == logical_order_overhang(&*old(self)),
    {
        self.reborrow().into_pix_iter()
    }

    /// Every mutable position of this window in row-major order, for
    /// sequential consumption.
    pub fn pix_iter_serialized_mut(&mut self) -> (r: SerializePixIter<IterOverhang<IterMut<'_, T>>>)
        requires
            old(self).inv(),
            old(self).width_spec() * old(self).height_spec() <= usize::MAX,
        ensures
            r.width_spec() == old(self).width_spec(),
            r.height_spec() == old(self).height_spec(),
            r.inner().inv(),
            r.inner().values() == logical_order_overhang(&*old(self)),
    {
        self.reborrow().into_pix_iter_serialized()
    }
}


impl<'a, T> ImageRefOverhang<'a, T> {
    /// The view of the valid part.
    pub closed spec fn inner(&self) -> ImageRef<'a, T> {
        self.valid_ref
    }

    /// Where the valid part starts in this window.
    pub closed spec fn offset(&self) -> (usize, usize) {
        (self.valid_offset_x, self.valid_offset_y)
    }

    /// The valid area is the inner view's rectangle moved by the offset, and
    /// a cell in it is the inner view's cell at the position moved back.
    pub proof fn lemma_shifted_inner(&self)
        requires
            self.inv(),
        ensures
            self.inner().inv(),
            self.valid_rect_spec() == (Rectangle {
                x: self.offset().0,
                y: self.offset().1,
                w: self.inner().width_spec(),
                h: self.inner().height_spec(),
            }),
            forall|a: int, b: int|
                #![trigger self.pixel(a, b)]
                self.valid_rect_spec().contains_spec(a, b) ==> self.inner().valid_rect_spec().contains_spec(
                    a - self.offset().0,
                    b - self.offset().1,
                ) && self.pixel(a, b) == self.inner().pixel(a - self.offset().0, b - self.offset().1),
    {
    }
}

impl<'a, T> ImageRefOverhangMut<'a, T> {
    /// The mutable view of the valid part.
    pub closed spec fn inner(&self) -> ImageRefMut<'a, T> {
        self.valid_ref
    }

    /// Where the valid part starts in this window.
    pub closed spec fn offset(&self) -> (usize, usize) {
        (self.valid_offset_x, self.valid_offset_y)
    }

    /// The valid area is the inner view's rectangle moved by the offset, and
    /// a cell in it is the inner view's cell at the position moved back.
    pub proof fn lemma_shifted_inner(&self)
        requires
            self.inv(),
        ensures
            self.inner().inv(),
            self.valid_rect_spec() == (Rectangle {
                x: self.offset().0,
                y: self.offset().1,
                w: self.inner().width_spec(),
                h: self.inner().height_spec(),
            }),
            forall|a: int, b: int|
                #![trigger self.pixel(a, b)]
                self.valid_rect_spec().contains_spec(a, b) ==> self.inner().valid_rect_spec().contains_spec(
                    a - self.offset().0,
                    b - self.offset().1,
                ) && self.pixel(a, b) == self.inner().pixel(a - self.offset().0, b - self.offset().1),
    {
    }
}


impl<'a, T> IntoPixelIterator for ImageRef<'a, T> {
    type Iter = Iter<'a, T>;

    open spec fn pixel_values(&self) -> Seq<T> {
        logical_order(self)
    }

    fn into_pix_iter(self) -> (r: PixIter<Iter<'a, T>>) {
        self.pix_iter()
    }
}

impl<'a, T> IntoSerializedPixelIterator for ImageRef<'a, T> {
    fn into_pix_iter_serialized(self) -> (r: SerializePixIter<Iter<'a, T>>) {
        self.pix_iter_serialized()
    }
}

impl<'a, T> IntoPixelIterator for ImageRefMut<'a, T> {
    type Iter = IterMut<'a, T>;

    open spec fn pixel_values(&self) -> Seq<T> {
        logical_order(self)
    }

    fn into_pix_iter(self) -> (r: PixIter<IterMut<'a, T>>) {
        let (w, h) = (self.roi_width, self.roi_height);
        PixIter::new(self.into_cells_iter_mut(), w, h)
    }
}

impl<'a, T> IntoSerializedPixelIterator for ImageRefMut<'a, T> {
    fn into_pix_iter_serialized(self) -> (r: SerializePixIter<IterMut<'a, T>>) {
        let (w, h) = (self.roi_width, self.roi_height);
        SerializePixIter::new(self.into_cells_iter_mut(), w, h)
    }
}

impl<'a, T> IntoPixelIterator for ImageRefOverhang<'a, T> {
    type Iter = IterOverhang<Iter<'a, T>>;

    open spec fn pixel_values(&self) -> Seq<Option<T>> {
        logical_order_overhang(self)
    }

    fn into_pix_iter(self) -> (r: PixIter<IterOverhang<Iter<'a, T>>>) {
        PixIter::new(self.positions_iter(), self.width, self.height)
    }
}

impl<'a, T> IntoSerializedPixelIterator for ImageRefOverhang<'a, T> {
    fn into_pix_iter_serialized(self) -> (r: SerializePixIter<IterOverhang<Iter<'a, T>>>) {
        SerializePixIter::new(self.positions_iter(), self.width, self.height)
    }
}

impl<'a, T> IntoPixelIterator for ImageRefOverhangMut<'a, T> {
    type Iter = IterOverhang<IterMut<'a, T>>;

    open spec fn pixel_values(&self) -> Seq<Option<T>> {
        logical_order_overhang(self)
    }

    fn into_pix_iter(self) -> (r: PixIter<IterOverhang<IterMut<'a, T>>>) {
        let (w, h) = (self.width, self.height);
        PixIter::new(self.into_positions_iter_mut(), w, h)
    }
}

impl<'a, T> IntoSerializedPixelIterator for ImageRefOverhangMut<'a, T> {
    fn into_pix_iter_serialized(self) -> (r: SerializePixIter<IterOverhang<IterMut<'a, T>>>) {
        let (w, h) = (self.width, self.height);
        SerializePixIter::new(self.into_positions_iter_mut(), w, h)
    }
}


impl<'a, T> ImageRefMut<'a, T> {
    /// The storage this view writes to.
    pub closed spec fn backing(&self) -> &'a mut [T] {
        self.data
    }

    /// Once the view is no longer used, its storage holds what it will hold
    /// when the borrow ends.
    pub proof fn lemma_settled(&self)
        requires
            has_resolved(*self),
        ensures
            final(self.backing())@ == self.backing()@,
    {
    }
}

impl<'a, T> ImageRefOverhangMut<'a, T> {
    /// The storage this view writes to.
    pub closed spec fn backing(&self) -> &'a mut [T] {
        self.valid_ref.data
    }

    /// Once the view is no longer used, its storage holds what it will hold
    /// when the borrow ends.
    pub proof fn lemma_settled(&self)
        requires
            has_resolved(*self),
        ensures
            final(self.backing())@ == self.backing()@,
    {
    }
}

} // verus!
