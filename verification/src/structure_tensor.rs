//! Gradient sums of a character cell, kept per quadrant.
use vstd::prelude::*;

verus! {

/// Gradient sums over a set of pixels.
#[derive(Clone, Copy, Debug, PartialEq, Eq, Structural)]
pub struct StructureTensor {
    /// How many pixels the sums are meant to range over.
    pub pixels: u32,
    /// Sum of `gx * gx`.
    pub gx_squared: i64,
    /// Sum of `gx * gy`.
    pub gxgy: i64,
    /// Sum of `gy * gy`.
    pub gy_squared: i64,
}

/// The gradient sums of the four quadrants of one cell.
#[derive(Clone, Copy, Debug, PartialEq, Eq, Structural)]
pub struct CellStructureTensors {
    pub cell_w: u32,
    pub cell_h: u32,
    /// Top left quadrant.
    pub tl: StructureTensor,
    /// Top right quadrant.
    pub tr: StructureTensor,
    /// Bottom left quadrant.
    pub bl: StructureTensor,
    /// Bottom right quadrant.
    pub br: StructureTensor,
}

/// A cell size that splits into four equal quadrants whose pixel count fits.
pub open spec fn valid_cell(cell_w: u32, cell_h: u32) -> bool {
    &&& cell_w % 2 == 0
    &&& cell_h % 2 == 0
    &&& (cell_w / 2) * (cell_h / 2) <= u32::MAX
}

/// Sum of `f(x, y)` over the columns `x1..x2` of row `y`.
pub open spec fn row_sum(f: spec_fn(int, int) -> int, y: int, x1: int, x2: int) -> int
    decreases x2 - x1,
{
    if x2 <= x1 {
        0
    } else {
        row_sum(f, y, x1, x2 - 1) + f(x2 - 1, y)
    }
}

/// Sum of `f(x, y)` over the rectangle of columns `x1..x2` and rows `y1..y2`.
pub open spec fn area_sum(
    f: spec_fn(int, int) -> int,
    x1: int,
    y1: int,
    x2: int,
    y2: int,
) -> int
    decreases y2 - y1,
{
    if y2 <= y1 {
        0
    } else {
        area_sum(f, x1, y1, x2, y2 - 1) + row_sum(f, y2 - 1, x1, x2)
    }
}

impl StructureTensor {
    /// Both sums of squares and the mixed sum leave room for one more product.
    pub open spec fn has_room(self) -> bool {
        &&& i64::MIN + 0x4000_0000 <= self.gx_squared <= i64::MAX - 0x4000_0000
        &&& i64::MIN + 0x4000_0000 <= self.gxgy <= i64::MAX - 0x4000_0000
        &&& i64::MIN + 0x4000_0000 <= self.gy_squared <= i64::MAX - 0x4000_0000
    }

    /// The tensor of no pixel yet.
    pub open spec fn zero(pixels: u32) -> Self {
        StructureTensor { pixels, gx_squared: 0, gxgy: 0, gy_squared: 0 }
    }

    /// This tensor with the products of one gradient added.
    pub open spec fn plus(self, gx: int, gy: int) -> Self {
        StructureTensor {
            pixels: self.pixels,
            gx_squared: (self.gx_squared + gx * gx) as i64,
            gxgy: (self.gxgy + gx * gy) as i64,
            gy_squared: (self.gy_squared + gy * gy) as i64,
        }
    }

    /// The three sums are those of the gradients `gx`, `gy` over a rectangle.
    pub open spec fn sums(
        self,
        gx: spec_fn(int, int) -> int,
        gy: spec_fn(int, int) -> int,
        x1: int,
        y1: int,
        x2: int,
        y2: int,
    ) -> bool {
        &&& self.gx_squared == area_sum(product(gx, gx), x1, y1, x2, y2)
        &&& self.gxgy == area_sum(product(gx, gy), x1, y1, x2, y2)
        &&& self.gy_squared == area_sum(product(gy, gy), x1, y1, x2, y2)
    }

    /// An empty tensor for a region of `pixels` pixels.
    pub fn new(pixels: u32) -> (r: Self)
        ensures
            r == Self::zero(pixels),
    {
        StructureTensor { pixels, gx_squared: 0, gxgy: 0, gy_squared: 0 }
    }

    /// Adds the products of one gradient.
    pub fn accumulate(&mut self, gx: i16, gy: i16)
        requires
            old(self).has_room(),
        ensures
            *final(self) == old(self).plus(gx as int, gy as int),
            final(self).pixels == old(self).pixels,
            final(self).gx_squared == old(self).gx_squared + gx * gx,
            final(self).gxgy == old(self).gxgy + gx * gy,
            final(self).gy_squared == old(self).gy_squared + gy * gy,
    {
        proof {
            lemma_product_bound(gx, gx);
            lemma_product_bound(gx, gy);
            lemma_product_bound(gy, gy);
        }
        let (x, y): (i64, i64) = (gx as i64, gy as i64);
        self.gx_squared = self.gx_squared + x * x;
        self.gxgy = self.gxgy + x * y;
        self.gy_squared = self.gy_squared + y * y;
    }
}

/// The pointwise product of two functions of a position.
pub open spec fn product(
    f: spec_fn(int, int) -> int,
    g: spec_fn(int, int) -> int,
) -> spec_fn(int, int) -> int {
    |x: int, y: int| f(x, y) * g(x, y)
}

pub(crate) proof fn lemma_product_bound(a: i16, b: i16)
    ensures
        -0x4000_0000 <= a * b <= 0x4000_0000,
{
    assert(-0x4000_0000 <= a * b <= 0x4000_0000) by (nonlinear_arith)
        requires
            -0x8000 <= a <= 0x7fff,
            -0x8000 <= b <= 0x7fff,
    ;
}

impl CellStructureTensors {
    /// Four empty quadrants of a cell.
    pub open spec fn empty(cell_w: u32, cell_h: u32) -> Self {
        let pixels = ((cell_w / 2) * (cell_h / 2)) as u32;
        CellStructureTensors {
            cell_w,
            cell_h,
            tl: StructureTensor::zero(pixels),
            tr: StructureTensor::zero(pixels),
            bl: StructureTensor::zero(pixels),
            br: StructureTensor::zero(pixels),
        }
    }

    /// Whether each quadrant leaves room for one more product.
    pub open spec fn has_room(self) -> bool {
        self.tl.has_room() && self.tr.has_room() && self.bl.has_room() && self.br.has_room()
    }

    /// These tensors with one gradient added to the quadrant that holds `(dx, dy)`.
    pub open spec fn plus(self, dx: int, dy: int, gx: int, gy: int) -> Self {
        let left = dx < self.cell_w / 2;
        let top = dy < self.cell_h / 2;
        if left && top {
            CellStructureTensors { tl: self.tl.plus(gx, gy), ..self }
        } else if left {
            CellStructureTensors { bl: self.bl.plus(gx, gy), ..self }
        } else if top {
            CellStructureTensors { tr: self.tr.plus(gx, gy), ..self }
        } else {
            CellStructureTensors { br: self.br.plus(gx, gy), ..self }
        }
    }

    /// Each quadrant holds its own share of the gradients of the cell, whose
    /// positions are counted from the cell's top left corner.
    pub open spec fn describes(
        self,
        gx: spec_fn(int, int) -> int,
        gy: spec_fn(int, int) -> int,
    ) -> bool {
        let w = (self.cell_w / 2) as int;
        let h = (self.cell_h / 2) as int;
        &&& self.tl.sums(gx, gy, 0, 0, w, h)
        &&& self.tr.sums(gx, gy, w, 0, w * 2, h)
        &&& self.bl.sums(gx, gy, 0, h, w, h * 2)
        &&& self.br.sums(gx, gy, w, h, w * 2, h * 2)
    }

    /// Four empty quadrants of a cell with even sides.
    pub fn new(cell_w: u32, cell_h: u32) -> (r: Self)
        requires
            valid_cell(cell_w, cell_h),
        ensures
            r == Self::empty(cell_w, cell_h),
    {
        let quadrant_pixels: u32 = (cell_w / 2) * (cell_h / 2);
        CellStructureTensors {
            cell_w,
            cell_h,
            tl: StructureTensor::new(quadrant_pixels),
            tr: StructureTensor::new(quadrant_pixels),
            bl: StructureTensor::new(quadrant_pixels),
            br: StructureTensor::new(quadrant_pixels),
        }
    }

    /// Adds one gradient to the quadrant that holds `(dx, dy)`.
    pub fn accumulate(&mut self, dx: u32, dy: u32, gx: i16, gy: i16)
        requires
            old(self).has_room(),
        ensures
            *final(self) == old(self).plus(dx as int, dy as int, gx as int, gy as int),
    {
        if dx < self.cell_w / 2 {
            if dy < self.cell_h / 2 {
                self.tl.accumulate(gx, gy);
            } else {
                self.bl.accumulate(gx, gy);
            }
        } else {
            if dy < self.cell_h / 2 {
                self.tr.accumulate(gx, gy);
            } else {
                self.br.accumulate(gx, gy);
            }
        }
    }
}

impl CellStructureTensors {
    /// The left and the right quadrants exchanged.
    pub open spec fn sides_exchanged(self) -> Self {
        CellStructureTensors { tl: self.tr, tr: self.tl, bl: self.br, br: self.bl, ..self }
    }

    /// The top and the bottom quadrants exchanged.
    pub open spec fn ends_exchanged(self) -> Self {
        CellStructureTensors { tl: self.bl, bl: self.tl, tr: self.br, br: self.tr, ..self }
    }
}

/// Two quadrants, in the order in which their tensors are combined.
pub open spec fn pair(a: StructureTensor, b: StructureTensor) -> Seq<StructureTensor> {
    seq![a, b]
}

/// The parts of a cell, each as the quadrants that make it up, in the order in which their
/// tensors are combined.
impl CellStructureTensors {
    /// The quadrants of the whole cell.
    pub fn combined(&self) -> (r: [StructureTensor; 4])
        ensures
            r@ == seq![self.tl, self.bl, self.tr, self.br],
    {
        [self.tl, self.bl, self.tr, self.br]
    }

    /// The quadrants of the left half.
    pub open spec fn spec_left(self) -> Seq<StructureTensor> {
        pair(self.tl, self.bl)
    }

    /// The quadrants of the left half.
    pub fn left(&self) -> (r: [StructureTensor; 2])
        ensures
            r@ == self.spec_left(),
    {
        [self.tl, self.bl]
    }

    /// The quadrants of the right half.
    pub open spec fn spec_right(self) -> Seq<StructureTensor> {
        pair(self.tr, self.br)
    }

    /// The quadrants of the right half.
    pub fn right(&self) -> (r: [StructureTensor; 2])
        ensures
            r@ == self.spec_right(),
    {
        [self.tr, self.br]
    }

    /// The quadrants of the top half.
    pub open spec fn spec_top(self) -> Seq<StructureTensor> {
        pair(self.tl, self.tr)
    }

    /// The quadrants of the top half.
    pub fn top(&self) -> (r: [StructureTensor; 2])
        ensures
            r@ == self.spec_top(),
    {
        [self.tl, self.tr]
    }

    /// The quadrants of the bottom half.
    pub open spec fn spec_bottom(self) -> Seq<StructureTensor> {
        pair(self.bl, self.br)
    }

    /// The quadrants of the bottom half.
    pub fn bottom(&self) -> (r: [StructureTensor; 2])
        ensures
            r@ == self.spec_bottom(),
    {
        [self.bl, self.br]
    }
}

/// The smaller of two numbers.
spec fn least(a: int, b: int) -> int {
    if a < b {
        a
    } else {
        b
    }
}

/// The sum of `f` over what the first rows up to `y`, and the first `x` positions of row
/// `y`, share with the rectangle of columns `x1..x2` and rows `y1..y2`.
spec fn part_sum(
    f: spec_fn(int, int) -> int,
    x1: int,
    y1: int,
    x2: int,
    y2: int,
    x: int,
    y: int,
) -> int {
    area_sum(f, x1, y1, x2, least(y, y2)) + (if y1 <= y < y2 {
        row_sum(f, y, x1, least(x, x2))
    } else {
        0
    })
}

/// Whether no value of `f` is larger than a product of two gradients can be.
spec fn product_sized(f: spec_fn(int, int) -> int) -> bool {
    forall|x: int, y: int| -0x4000_0000 <= #[trigger] f(x, y) <= 0x4000_0000
}

/// A sum over a row is limited by its length.
proof fn lemma_row_bound(f: spec_fn(int, int) -> int, y: int, x1: int, x2: int)
    requires
        product_sized(f),
        x1 <= x2,
    ensures
        -0x4000_0000 * (x2 - x1) <= row_sum(f, y, x1, x2) <= 0x4000_0000 * (x2 - x1),
    decreases x2 - x1,
{
    if x1 < x2 {
        lemma_row_bound(f, y, x1, x2 - 1);
        assert(f(x2 - 1, y) <= 0x4000_0000);
    }
}

/// A sum over a rectangle is limited by its size.
proof fn lemma_area_bound(f: spec_fn(int, int) -> int, x1: int, y1: int, x2: int, y2: int, n: int)
    requires
        product_sized(f),
        x1 <= x2,
        y1 <= y2,
        n == (x2 - x1) * (y2 - y1),
    ensures
        -0x4000_0000 * n <= area_sum(f, x1, y1, x2, y2) <= 0x4000_0000 * n,
    decreases y2 - y1,
{
    if y1 < y2 {
        assert(n - (x2 - x1) == (x2 - x1) * (y2 - 1 - y1)) by (nonlinear_arith)
            requires
                n == (x2 - x1) * (y2 - y1),
        ;
        lemma_area_bound(f, x1, y1, x2, y2 - 1, n - (x2 - x1));
        lemma_row_bound(f, y2 - 1, x1, x2);
    } else {
        assert(n == 0) by (nonlinear_arith)
            requires
                y1 == y2,
                n == (x2 - x1) * (y2 - y1),
        ;
    }
}

/// A part of a sum over a rectangle is limited by the size of the rectangle.
proof fn lemma_part_bound(
    f: spec_fn(int, int) -> int,
    x1: int,
    y1: int,
    x2: int,
    y2: int,
    x: int,
    y: int,
    n: int,
)
    requires
        product_sized(f),
        x1 <= x2,
        y1 <= y2,
        (x2 - x1) * (y2 - y1) <= n,
    ensures
        -0x4000_0000 * n <= part_sum(f, x1, y1, x2, y2, x, y) <= 0x4000_0000 * n,
{
    let done = if y < y1 {
        y1
    } else {
        least(y, y2)
    };
    let k = (x2 - x1) * (done - y1);
    lemma_area_bound(f, x1, y1, x2, done, k);
    assert(area_sum(f, x1, y1, x2, least(y, y2)) == area_sum(f, x1, y1, x2, done));
    if y1 <= y < y2 {
        if x1 <= least(x, x2) {
            lemma_row_bound(f, y, x1, least(x, x2));
        }
        assert(k + (x2 - x1) <= n) by (nonlinear_arith)
            requires
                x1 <= x2,
                done + 1 <= y2,
                k == (x2 - x1) * (done - y1),
                (x2 - x1) * (y2 - y1) <= n,
        ;
    } else {
        assert(k <= n) by (nonlinear_arith)
            requires
                x1 <= x2,
                done <= y2,
                k == (x2 - x1) * (done - y1),
                (x2 - x1) * (y2 - y1) <= n,
        ;
    }
}

/// One position more adds its value, if it lies in the rectangle.
proof fn lemma_part_step(
    f: spec_fn(int, int) -> int,
    x1: int,
    y1: int,
    x2: int,
    y2: int,
    x: int,
    y: int,
)
    requires
        x1 <= x2,
        y1 <= y2,
    ensures
        part_sum(f, x1, y1, x2, y2, x + 1, y) == part_sum(f, x1, y1, x2, y2, x, y) + (if x1 <= x
            < x2 && y1 <= y < y2 {
            f(x, y)
        } else {
            0
        }),
{
}

/// The end of one row is the start of the next.
proof fn lemma_part_row(
    f: spec_fn(int, int) -> int,
    x1: int,
    y1: int,
    x2: int,
    y2: int,
    width: int,
    y: int,
)
    requires
        0 <= x1 <= x2 <= width,
        y1 <= y2,
    ensures
        part_sum(f, x1, y1, x2, y2, width, y) == part_sum(f, x1, y1, x2, y2, 0, y + 1),
{
}

impl StructureTensor {
    /// The three sums are those over the part of a rectangle up to a position.
    spec fn part_sums(
        self,
        gx: spec_fn(int, int) -> int,
        gy: spec_fn(int, int) -> int,
        x1: int,
        y1: int,
        x2: int,
        y2: int,
        x: int,
        y: int,
    ) -> bool {
        &&& self.gx_squared == part_sum(product(gx, gx), x1, y1, x2, y2, x, y)
        &&& self.gxgy == part_sum(product(gx, gy), x1, y1, x2, y2, x, y)
        &&& self.gy_squared == part_sum(product(gy, gy), x1, y1, x2, y2, x, y)
    }
}

/// Adding the gradient of the next position, if it lies in the rectangle, keeps the sums
/// those up to the position.
proof fn lemma_sums_step(
    t: StructureTensor,
    gx: spec_fn(int, int) -> int,
    gy: spec_fn(int, int) -> int,
    x1: int,
    y1: int,
    x2: int,
    y2: int,
    x: int,
    y: int,
)
    requires
        x1 <= x2,
        y1 <= y2,
        (x2 - x1) * (y2 - y1) <= u32::MAX,
        are_gradients(gx, gy),
        t.part_sums(gx, gy, x1, y1, x2, y2, x, y),
    ensures
        x1 <= x < x2 && y1 <= y < y2 ==> t.plus(gx(x, y), gy(x, y)).part_sums(
            gx,
            gy,
            x1,
            y1,
            x2,
            y2,
            x + 1,
            y,
        ),
        !(x1 <= x < x2 && y1 <= y < y2) ==> t.part_sums(gx, gy, x1, y1, x2, y2, x + 1, y),
{
    let (xx, xy, yy) = (product(gx, gx), product(gx, gy), product(gy, gy));
    lemma_products(gx, gx);
    lemma_products(gx, gy);
    lemma_products(gy, gy);
    lemma_part_step(xx, x1, y1, x2, y2, x, y);
    lemma_part_step(xy, x1, y1, x2, y2, x, y);
    lemma_part_step(yy, x1, y1, x2, y2, x, y);
    lemma_part_bound(xx, x1, y1, x2, y2, x + 1, y, u32::MAX as int);
    lemma_part_bound(xy, x1, y1, x2, y2, x + 1, y, u32::MAX as int);
    lemma_part_bound(yy, x1, y1, x2, y2, x + 1, y, u32::MAX as int);
}

/// Whether two functions of a position give 16-bit gradients.
pub open spec fn are_gradients(gx: spec_fn(int, int) -> int, gy: spec_fn(int, int) -> int) -> bool {
    &&& forall|x: int, y: int| i16::MIN <= #[trigger] gx(x, y) <= i16::MAX
    &&& forall|x: int, y: int| i16::MIN <= #[trigger] gy(x, y) <= i16::MAX
}

/// Products of gradients are limited.
proof fn lemma_products(f: spec_fn(int, int) -> int, g: spec_fn(int, int) -> int)
    requires
        are_gradients(f, g),
    ensures
        product_sized(product(f, g)),
{
    assert forall|x: int, y: int| -0x4000_0000 <= #[trigger] product(f, g)(x, y)
        <= 0x4000_0000 by {
        lemma_product_bound(f(x, y) as i16, g(x, y) as i16);
    }
}

impl CellStructureTensors {
    /// These tensors with the gradients of the first `x` positions of row `y` added.
    pub open spec fn plus_row(
        self,
        gx: spec_fn(int, int) -> int,
        gy: spec_fn(int, int) -> int,
        x: int,
        y: int,
    ) -> Self
        decreases x,
    {
        if x <= 0 {
            self
        } else {
            self.plus_row(gx, gy, x - 1, y).plus(x - 1, y, gx(x - 1, y), gy(x - 1, y))
        }
    }

    /// These tensors with the gradients of the first `y` rows of the cell added.
    pub open spec fn plus_rows(
        self,
        gx: spec_fn(int, int) -> int,
        gy: spec_fn(int, int) -> int,
        y: int,
    ) -> Self
        decreases y,
    {
        if y <= 0 {
            self
        } else {
            self.plus_rows(gx, gy, y - 1).plus_row(gx, gy, self.cell_w as int, y - 1)
        }
    }

    /// Each quadrant holds its share of the gradients up to a position.
    spec fn describes_part(
        self,
        gx: spec_fn(int, int) -> int,
        gy: spec_fn(int, int) -> int,
        x: int,
        y: int,
    ) -> bool {
        let w = (self.cell_w / 2) as int;
        let h = (self.cell_h / 2) as int;
        &&& self.tl.part_sums(gx, gy, 0, 0, w, h, x, y)
        &&& self.tr.part_sums(gx, gy, w, 0, w * 2, h, x, y)
        &&& self.bl.part_sums(gx, gy, 0, h, w, h * 2, x, y)
        &&& self.br.part_sums(gx, gy, w, h, w * 2, h * 2, x, y)
    }
}

/// Adding a row position by position keeps each quadrant's share right.
proof fn lemma_plus_row(
    t: CellStructureTensors,
    gx: spec_fn(int, int) -> int,
    gy: spec_fn(int, int) -> int,
    x: int,
    y: int,
)
    requires
        valid_cell(t.cell_w, t.cell_h),
        are_gradients(gx, gy),
        0 <= x <= t.cell_w,
        0 <= y < t.cell_h,
        t.describes_part(gx, gy, 0, y),
    ensures
        t.plus_row(gx, gy, x, y).cell_w == t.cell_w,
        t.plus_row(gx, gy, x, y).cell_h == t.cell_h,
        t.plus_row(gx, gy, x, y).describes_part(gx, gy, x, y),
    decreases x,
{
    if x > 0 {
        lemma_plus_row(t, gx, gy, x - 1, y);
        let b = t.plus_row(gx, gy, x - 1, y);
        let w = (t.cell_w / 2) as int;
        let h = (t.cell_h / 2) as int;
        assert((w * 2 - w) * h == w * h && w * (h * 2 - h) == w * h && (w * 2 - w) * (h * 2 - h)
            == w * h && (w - 0) * (h - 0) == w * h) by (nonlinear_arith);
        lemma_sums_step(b.tl, gx, gy, 0, 0, w, h, x - 1, y);
        lemma_sums_step(b.tr, gx, gy, w, 0, w * 2, h, x - 1, y);
        lemma_sums_step(b.bl, gx, gy, 0, h, w, h * 2, x - 1, y);
        lemma_sums_step(b.br, gx, gy, w, h, w * 2, h * 2, x - 1, y);
    }
}

/// Adding rows one after the other keeps each quadrant's share right.
proof fn lemma_plus_rows(
    t: CellStructureTensors,
    gx: spec_fn(int, int) -> int,
    gy: spec_fn(int, int) -> int,
    y: int,
)
    requires
        valid_cell(t.cell_w, t.cell_h),
        are_gradients(gx, gy),
        0 <= y <= t.cell_h,
        t.describes_part(gx, gy, 0, 0),
    ensures
        t.plus_rows(gx, gy, y).cell_w == t.cell_w,
        t.plus_rows(gx, gy, y).cell_h == t.cell_h,
        t.plus_rows(gx, gy, y).describes_part(gx, gy, 0, y),
    decreases y,
{
    if y > 0 {
        lemma_plus_rows(t, gx, gy, y - 1);
        let b = t.plus_rows(gx, gy, y - 1);
        let n = t.cell_w as int;
        lemma_plus_row(b, gx, gy, n, y - 1);
        let r = b.plus_row(gx, gy, n, y - 1);
        let w = (t.cell_w / 2) as int;
        let h = (t.cell_h / 2) as int;
        lemma_row_ends(r.tl, gx, gy, 0, 0, w, h, n, y - 1);
        lemma_row_ends(r.tr, gx, gy, w, 0, w * 2, h, n, y - 1);
        lemma_row_ends(r.bl, gx, gy, 0, h, w, h * 2, n, y - 1);
        lemma_row_ends(r.br, gx, gy, w, h, w * 2, h * 2, n, y - 1);
    }
}

/// Sums up to the end of a row are sums up to the start of the next.
proof fn lemma_row_ends(
    t: StructureTensor,
    gx: spec_fn(int, int) -> int,
    gy: spec_fn(int, int) -> int,
    x1: int,
    y1: int,
    x2: int,
    y2: int,
    width: int,
    y: int,
)
    requires
        0 <= x1 <= x2 <= width,
        y1 <= y2,
        t.part_sums(gx, gy, x1, y1, x2, y2, width, y),
    ensures
        t.part_sums(gx, gy, x1, y1, x2, y2, 0, y + 1),
{
    lemma_part_row(product(gx, gx), x1, y1, x2, y2, width, y);
    lemma_part_row(product(gx, gy), x1, y1, x2, y2, width, y);
    lemma_part_row(product(gy, gy), x1, y1, x2, y2, width, y);
}

/// Accumulating the gradients of a whole cell, position by position and row by row, gives
/// each quadrant the sums over its own positions.
pub proof fn law_accumulating_describes(
    cell_w: u32,
    cell_h: u32,
    gx: spec_fn(int, int) -> int,
    gy: spec_fn(int, int) -> int,
)
    requires
        valid_cell(cell_w, cell_h),
        are_gradients(gx, gy),
    ensures
        CellStructureTensors::empty(cell_w, cell_h).plus_rows(gx, gy, cell_h as int).describes(
            gx,
            gy,
        ),
{
    let t = CellStructureTensors::empty(cell_w, cell_h);
    lemma_plus_rows(t, gx, gy, cell_h as int);
}

} // verus!
