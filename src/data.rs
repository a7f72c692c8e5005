//! Plain value types shared by the drawables: rectangles and tables.
use vstd::prelude::*;

verus! {

/// An axis-aligned rectangle in screen pixels.
#[derive(Clone, Copy, Debug, PartialEq, Eq, Structural, Default)]
pub struct Rect {
    pub x: i32,
    pub y: i32,
    pub width: u32,
    pub height: u32,
}

impl Rect {
    pub fn new(x: i32, y: i32, width: u32, height: u32) -> (r: Rect)
        ensures
            r == (Rect { x, y, width, height }),
    {
        Rect { x, y, width, height }
    }
}

/// Flat position of cell `(x, y, z)` in a table of the given width and height.
pub open spec fn cell_index(xsize: int, ysize: int, x: int, y: int, z: int) -> int {
    x + xsize * y + xsize * ysize * z
}

proof fn lemma_cell_in_bounds(xs: int, ys: int, zs: int, x: int, y: int, z: int)
    requires
        0 <= x < xs,
        0 <= y < ys,
        0 <= z < zs,
    ensures
        0 <= cell_index(xs, ys, x, y, z) < xs * ys * zs,
        0 <= xs * y <= xs * ys * zs,
        0 <= xs * ys * z <= xs * ys * zs,
        0 <= xs * ys <= xs * ys * zs,
{
    assert(xs * y <= xs * ys) by (nonlinear_arith)
        requires 0 <= y < ys, 0 <= xs;
    assert(xs * ys <= xs * ys * zs) by (nonlinear_arith)
        requires 1 <= zs, 0 <= xs, 0 <= ys;
    assert(0 <= xs * y) by (nonlinear_arith)
        requires 0 <= y, 0 <= xs;
    assert(0 <= xs * ys * z) by (nonlinear_arith)
        requires 0 <= z, 0 <= xs, 0 <= ys;
    assert(x + xs * y < xs * ys) by (nonlinear_arith)
        requires 0 <= x < xs, 0 <= y < ys;
    assert(xs * ys + xs * ys * z <= xs * ys * zs) by (nonlinear_arith)
        requires 0 <= z < zs, 0 <= xs, 0 <= ys;
}

/// A three-dimensional grid of `i16`, stored x-fastest.
pub struct Table {
    xsize: usize,
    ysize: usize,
    zsize: usize,
    data: Vec<i16>,
}

impl Default for Table {
    /// The empty table, of size zero in every dimension.
    fn default() -> (r: Table)
        ensures
            r.spec_xsize() == 0,
            r.spec_ysize() == 0,
            r.spec_zsize() == 0,
            r.cells() == Seq::<i16>::empty(),
    {
        Table { xsize: 0, ysize: 0, zsize: 0, data: Vec::new() }
    }
}

impl Table {
    #[verifier::type_invariant]
    spec fn inv(self) -> bool {
        self.data@.len() == self.xsize * self.ysize * self.zsize
    }

    pub closed spec fn spec_xsize(&self) -> nat {
        self.xsize as nat
    }

    pub closed spec fn spec_ysize(&self) -> nat {
        self.ysize as nat
    }

    pub closed spec fn spec_zsize(&self) -> nat {
        self.zsize as nat
    }

    /// The cells, x fastest, then y, then z.
    pub closed spec fn cells(&self) -> Seq<i16> {
        self.data@
    }

    /// The cell at `(x, y, z)`.
    pub open spec fn cell(&self, x: int, y: int, z: int) -> i16 {
        self.cells()[cell_index(self.spec_xsize() as int, self.spec_ysize() as int, x, y, z)]
    }

    /// A table of the given size, every cell zero.
    pub fn new(xsize: usize, ysize: usize, zsize: usize) -> (r: Table)
        requires
            xsize * ysize <= usize::MAX,
            xsize * ysize * zsize <= usize::MAX,
        ensures
            r.spec_xsize() == xsize,
            r.spec_ysize() == ysize,
            r.spec_zsize() == zsize,
            r.cells() == Seq::new((xsize * ysize * zsize) as nat, |i: int| 0i16),
    {
        let n = xsize * ysize * zsize;
        let data = zeroed(n);
        Table { xsize, ysize, zsize, data }
    }

    /// A table of the given size over `data`, which must hold one cell per coordinate.
    pub fn new_data(xsize: usize, ysize: usize, zsize: usize, data: Vec<i16>) -> (r: Table)
        requires
            xsize * ysize * zsize == data@.len(),
        ensures
            r.spec_xsize() == xsize,
            r.spec_ysize() == ysize,
            r.spec_zsize() == zsize,
            r.cells() == data@,
    {
        Table { xsize, ysize, zsize, data }
    }

    pub fn xsize(&self) -> (r: usize)
        ensures
            r == self.spec_xsize(),
    {
        self.xsize
    }

    pub fn ysize(&self) -> (r: usize)
        ensures
            r == self.spec_ysize(),
    {
        self.ysize
    }

    pub fn zsize(&self) -> (r: usize)
        ensures
            r == self.spec_zsize(),
    {
        self.zsize
    }

    pub fn len(&self) -> (r: usize)
        ensures
            r == self.cells().len(),
    {
        self.data.len()
    }

    pub fn is_empty(&self) -> (r: bool)
        ensures
            r == (self.cells().len() == 0),
    {
        self.data.len() == 0
    }

    pub fn data(&self) -> (r: &[i16])
        ensures
            r@ == self.cells(),
    {
        self.data.as_slice()
    }

    /// The cell at `(x, y, z)`.
    pub fn get(&self, x: usize, y: usize, z: usize) -> (r: i16)
        requires
            x < self.spec_xsize(),
            y < self.spec_ysize(),
            z < self.spec_zsize(),
        ensures
            r == self.cell(x as int, y as int, z as int),
    {
        proof {
            use_type_invariant(self);
            lemma_cell_in_bounds(self.xsize as int, self.ysize as int, self.zsize as int, x as int, y as int, z as int);
        }
        let n = self.data.len();
        self.data[x + self.xsize * y + self.xsize * self.ysize * z]
    }

    /// Sets the cell at `(x, y, z)`.
    pub fn set(&mut self, x: usize, y: usize, z: usize, value: i16)
        requires
            x < old(self).spec_xsize(),
            y < old(self).spec_ysize(),
            z < old(self).spec_zsize(),
        ensures
            final(self).spec_xsize() == old(self).spec_xsize(),
            final(self).spec_ysize() == old(self).spec_ysize(),
            final(self).spec_zsize() == old(self).spec_zsize(),
            final(self).cells() == old(self).cells().update(
                cell_index(old(self).spec_xsize() as int, old(self).spec_ysize() as int, x as int, y as int, z as int),
                value,
            ),
    {
        proof {
            use_type_invariant(&*self);
            lemma_cell_in_bounds(self.xsize as int, self.ysize as int, self.zsize as int, x as int, y as int, z as int);
        }
        let n = self.data.len();
        let i = x + self.xsize * y + self.xsize * self.ysize * z;
        let mut taken = Table { xsize: 0, ysize: 0, zsize: 0, data: Vec::new() };
        std::mem::swap(self, &mut taken);
        let Table { xsize, ysize, zsize, mut data } = taken;
        data.set(i, value);
        *self = Table { xsize, ysize, zsize, data };
    }

    /// Changes the size. Cells inside both the old and the new size keep their
    /// value; every other cell is zero.
    pub fn resize(&mut self, xsize: usize, ysize: usize, zsize: usize)
        requires
            xsize * ysize <= usize::MAX,
            xsize * ysize * zsize <= usize::MAX,
        ensures
            final(self).spec_xsize() == xsize,
            final(self).spec_ysize() == ysize,
            final(self).spec_zsize() == zsize,
            forall|x: int, y: int, z: int|
                0 <= x < xsize && 0 <= y < ysize && 0 <= z < zsize ==> #[trigger] final(self).cell(x, y, z) == (
                    if x < old(self).spec_xsize() && y < old(self).spec_ysize() && z < old(self).spec_zsize() {
                        old(self).cell(x, y, z)
                    } else {
                        0i16
                    }),
    {
        proof {
            use_type_invariant(&*self);
        }
        let mut next = Table::new(xsize, ysize, zsize);
        let xm = if self.xsize < xsize { self.xsize } else { xsize };
        let ym = if self.ysize < ysize { self.ysize } else { ysize };
        let zm = if self.zsize < zsize { self.zsize } else { zsize };
        let ghost src = *self;
        proof {
            use_type_invariant(&next);
            assert forall|a: int, b: int, c: int|
                0 <= a < xsize && 0 <= b < ysize && 0 <= c < zsize implies #[trigger] next.cell(a, b, c) == 0i16 by {
                lemma_cell_in_bounds(xsize as int, ysize as int, zsize as int, a, b, c);
            }
        }
        let mut z: usize = 0;
        while z < zm
            invariant
                src == *self,
                xm <= xsize, xm <= self.xsize, ym <= ysize, ym <= self.ysize, zm <= zsize, zm <= self.zsize,
                z <= zm,
                next.spec_xsize() == xsize, next.spec_ysize() == ysize, next.spec_zsize() == zsize,
                forall|a: int, b: int, c: int|
                    0 <= a < xsize && 0 <= b < ysize && 0 <= c < zsize ==> #[trigger] next.cell(a, b, c) == (
                        if a < xm && b < ym && c < z { src.cell(a, b, c) } else { 0i16 }),
            decreases zm - z,
        {
            let mut y: usize = 0;
            while y < ym
                invariant
                    src == *self,
                    xm <= xsize, xm <= self.xsize, ym <= ysize, ym <= self.ysize, zm <= zsize, zm <= self.zsize,
                    z < zm,
                    y <= ym,
                    next.spec_xsize() == xsize, next.spec_ysize() == ysize, next.spec_zsize() == zsize,
                    forall|a: int, b: int, c: int|
                        0 <= a < xsize && 0 <= b < ysize && 0 <= c < zsize ==> #[trigger] next.cell(a, b, c) == (
                            if a < xm && b < ym && (c < z || (c == z && b < y)) { src.cell(a, b, c) } else { 0i16 }),
                decreases ym - y,
            {
                let mut x: usize = 0;
                while x < xm
                    invariant
                        src == *self,
                        xm <= xsize, xm <= self.xsize, ym <= ysize, ym <= self.ysize, zm <= zsize, zm <= self.zsize,
                        z < zm,
                        y < ym,
                        x <= xm,
                        next.spec_xsize() == xsize, next.spec_ysize() == ysize, next.spec_zsize() == zsize,
                        forall|a: int, b: int, c: int|
                            0 <= a < xsize && 0 <= b < ysize && 0 <= c < zsize ==> #[trigger] next.cell(a, b, c) == (
                                if a < xm && b < ym && (c < z || (c == z && (b < y || (b == y && a < x)))) {
                                    src.cell(a, b, c)
                                } else {
                                    0i16
                                }),
                    decreases xm - x,
                {
                    let v = self.get(x, y, z);
                    proof {
                        use_type_invariant(&next);
                    }
                    let ghost before = next;
                    next.set(x, y, z, v);
                    proof {
                        use_type_invariant(&next);
                        assert forall|a: int, b: int, c: int|
                            0 <= a < xsize && 0 <= b < ysize && 0 <= c < zsize implies #[trigger] next.cell(a, b, c) == (
                                if a < xm && b < ym && (c < z || (c == z && (b < y || (b == y && a < x + 1)))) {
                                    src.cell(a, b, c)
                                } else {
                                    0i16
                                }) by {
                            lemma_cell_in_bounds(xsize as int, ysize as int, zsize as int, a, b, c);
                            lemma_cell_in_bounds(xsize as int, ysize as int, zsize as int, x as int, y as int, z as int);
                            assert(before.cell(a, b, c) == (
                                if a < xm && b < ym && (c < z || (c == z && (b < y || (b == y && a < x)))) {
                                    src.cell(a, b, c)
                                } else {
                                    0i16
                                }));
                            let ia = cell_index(xsize as int, ysize as int, a, b, c);
                            let ix = cell_index(xsize as int, ysize as int, x as int, y as int, z as int);
                            assert(next.cells() == before.cells().update(ix, v));
                            if a != x || b != y || c != z {
                                lemma_cell_index_injective(xsize as int, ysize as int, a, b, c, x as int, y as int, z as int);
                                assert(next.cells()[ia] == before.cells()[ia]);
                            } else {
                                assert(next.cells()[ia] == v);
                                assert(v == src.cell(a, b, c));
                            }
                        }
                    }
                    x = x + 1;
                }
                y = y + 1;
            }
            z = z + 1;
        }
        *self = next;
    }
}

proof fn lemma_cell_index_injective(xs: int, ys: int, a: int, b: int, c: int, x: int, y: int, z: int)
    requires
        0 <= a < xs,
        0 <= x < xs,
        0 <= b < ys,
        0 <= y < ys,
        0 <= c,
        0 <= z,
        a != x || b != y || c != z,
    ensures
        cell_index(xs, ys, a, b, c) != cell_index(xs, ys, x, y, z),
{
    let p = a + xs * b;
    let q = x + xs * y;
    assert(0 <= p < xs * ys && 0 <= q < xs * ys) by {
        assert(a + xs * b < xs * ys) by (nonlinear_arith)
            requires 0 <= a < xs, 0 <= b < ys;
        assert(x + xs * y < xs * ys) by (nonlinear_arith)
            requires 0 <= x < xs, 0 <= y < ys;
        assert(0 <= xs * b) by (nonlinear_arith)
            requires 0 <= b, 0 <= xs;
        assert(0 <= xs * y) by (nonlinear_arith)
            requires 0 <= y, 0 <= xs;
    }
    if c != z {
        assert(p + xs * ys * c != q + xs * ys * z) by (nonlinear_arith)
            requires 0 <= p < xs * ys, 0 <= q < xs * ys, c != z;
    } else if b != y {
        assert(a + xs * b != x + xs * y) by (nonlinear_arith)
            requires 0 <= a < xs, 0 <= x < xs, b != y;
    }
}

/// A vector of `n` zeros.
fn zeroed(n: usize) -> (r: Vec<i16>)
    ensures
        r@ == Seq::new(n as nat, |i: int| 0i16),
{
    let mut v: Vec<i16> = Vec::new();
    let mut i: usize = 0;
    while i < n
        invariant
            i <= n,
            v@ == Seq::new(i as nat, |k: int| 0i16),
        decreases n - i,
    {
        v.push(0);
        i = i + 1;
        assert(v@ =~= Seq::new(i as nat, |k: int| 0i16));
    }
    v
}

/// The little-endian `u32` in bytes `i .. i + 4` of `b`.
pub open spec fn u32_at(b: Seq<u8>, i: int) -> u32 {
    (b[i] as u32) | ((b[i + 1] as u32) << 8u32) | ((b[i + 2] as u32) << 16u32) | ((b[i + 3] as u32) << 24u32)
}

/// The little-endian `i16` in bytes `i .. i + 2` of `b`.
pub open spec fn i16_at(b: Seq<u8>, i: int) -> i16 {
    ((b[i] as u16) | ((b[i + 1] as u16) << 8u16)) as i16
}

/// Bytes holding a table of the given sizes and cells: a header of five
/// little-endian `u32` words (the number of dimensions in use, the three
/// sizes, the number of cells), then every cell as a little-endian `i16`.
/// The first word is not part of the match.
pub open spec fn dump_matches(b: Seq<u8>, xsize: nat, ysize: nat, zsize: nat, cells: Seq<i16>) -> bool {
    &&& b.len() == 20 + 2 * cells.len()
    &&& u32_at(b, 4) == xsize as u32
    &&& u32_at(b, 8) == ysize as u32
    &&& u32_at(b, 12) == zsize as u32
    &&& u32_at(b, 16) == cells.len() as u32
    &&& forall|i: int| 0 <= i < cells.len() ==> #[trigger] i16_at(b, 20 + 2 * i) == cells[i]
}

/// Whether `b` is the dump of a table: a full header whose sizes multiply
/// to its cell count, and two bytes for each of those cells.
pub open spec fn loadable(b: Seq<u8>) -> bool {
    &&& b.len() >= 20
    &&& u32_at(b, 4) as int * u32_at(b, 8) as int * u32_at(b, 12) as int == u32_at(b, 16) as int
    &&& b.len() == 20 + 2 * (u32_at(b, 16) as int)
}

/// The number of dimensions in use by a table of these sizes.
pub open spec fn dimensions(ysize: nat, zsize: nat) -> u32 {
    (1 + (if ysize > 0 { 1int } else { 0int }) + (if zsize > 0 { 1int } else { 0int })) as u32
}

fn push_u32(out: &mut Vec<u8>, v: u32)
    ensures
        final(out)@.len() == old(out)@.len() + 4,
        final(out)@.subrange(0, old(out)@.len() as int) == old(out)@,
        u32_at(final(out)@, old(out)@.len() as int) == v,
{
    let b0 = (v & 0xff) as u8;
    let b1 = ((v >> 8u32) & 0xff) as u8;
    let b2 = ((v >> 16u32) & 0xff) as u8;
    let b3 = ((v >> 24u32) & 0xff) as u8;
    assert((b0 as u32) | ((b1 as u32) << 8u32) | ((b2 as u32) << 16u32) | ((b3 as u32) << 24u32) == v) by (bit_vector)
        requires
            b0 == (v & 0xff) as u8,
            b1 == ((v >> 8u32) & 0xff) as u8,
            b2 == ((v >> 16u32) & 0xff) as u8,
            b3 == ((v >> 24u32) & 0xff) as u8,
    ;
    let ghost start = out@;
    out.push(b0);
    out.push(b1);
    out.push(b2);
    out.push(b3);
    assert(out@.subrange(0, start.len() as int) =~= start);
}

fn push_i16(out: &mut Vec<u8>, v: i16)
    ensures
        final(out)@.len() == old(out)@.len() + 2,
        final(out)@.subrange(0, old(out)@.len() as int) == old(out)@,
        i16_at(final(out)@, old(out)@.len() as int) == v,
{
    let u = v as u16;
    let b0 = (u & 0xff) as u8;
    let b1 = ((u >> 8u16) & 0xff) as u8;
    assert(((b0 as u16) | ((b1 as u16) << 8u16)) as i16 == v) by (bit_vector)
        requires
            u == v as u16,
            b0 == (u & 0xff) as u8,
            b1 == ((u >> 8u16) & 0xff) as u8,
    ;
    let ghost start = out@;
    out.push(b0);
    out.push(b1);
    assert(out@.subrange(0, start.len() as int) =~= start);
}

fn read_u32(b: &[u8], i: usize) -> (r: u32)
    requires
        i + 4 <= b@.len(),
    ensures
        r == u32_at(b@, i as int),
{
    (b[i] as u32) | ((b[i + 1] as u32) << 8u32) | ((b[i + 2] as u32) << 16u32) | ((b[i + 3] as u32) << 24u32)
}

fn read_i16(b: &[u8], i: usize) -> (r: i16)
    requires
        i + 2 <= b@.len(),
    ensures
        r == i16_at(b@, i as int),
{
    ((b[i] as u16) | ((b[i + 1] as u16) << 8u16)) as i16
}

impl Table {
    /// The table's dump: the header words, the number of dimensions in use
    /// first, then the cells. Sizes are written as `u32`, cut to 32 bits.
    pub fn serialize(&self) -> (r: Vec<u8>)
        ensures
            dump_matches(r@, self.spec_xsize(), self.spec_ysize(), self.spec_zsize(), self.cells()),
            u32_at(r@, 0) == dimensions(self.spec_ysize(), self.spec_zsize()),
    {
        let dims: u32 = 1 + (if self.ysize > 0 { 1u32 } else { 0u32 }) + (if self.zsize > 0 { 1u32 } else { 0u32 });
        let mut out: Vec<u8> = Vec::new();
        push_u32(&mut out, dims);
        push_u32(&mut out, #[verifier::truncate] (self.xsize as u32));
        push_u32(&mut out, #[verifier::truncate] (self.ysize as u32));
        push_u32(&mut out, #[verifier::truncate] (self.zsize as u32));
        push_u32(&mut out, #[verifier::truncate] (self.data.len() as u32));
        let ghost header = out@;
        let mut i: usize = 0;
        while i < self.data.len()
            invariant
                i <= self.data@.len(),
                out@.len() == 20 + 2 * i,
                out@.subrange(0, 20) == header,
                header.len() == 20,
                u32_at(header, 0) == dims,
                u32_at(header, 4) == self.xsize as u32,
                u32_at(header, 8) == self.ysize as u32,
                u32_at(header, 12) == self.zsize as u32,
                u32_at(header, 16) == self.data@.len() as u32,
                forall|k: int| 0 <= k < i ==> #[trigger] i16_at(out@, 20 + 2 * k) == self.data@[k],
            decreases self.data@.len() - i,
        {
            let ghost before = out@;
            push_i16(&mut out, self.data[i]);
            proof {
                assert forall|k: int| 0 <= k < i + 1 implies #[trigger] i16_at(out@, 20 + 2 * k) == self.data@[k] by {
                    if k < i {
                        assert(out@[20 + 2 * k] == out@.subrange(0, before.len() as int)[20 + 2 * k]);
                        assert(out@[20 + 2 * k + 1] == out@.subrange(0, before.len() as int)[20 + 2 * k + 1]);
                        assert(i16_at(before, 20 + 2 * k) == self.data@[k]);
                    }
                }
                assert(out@.subrange(0, 20) =~= header) by {
                    assert forall|k: int| 0 <= k < 20 implies out@[k] == header[k] by {
                        assert(out@[k] == out@.subrange(0, before.len() as int)[k]);
                        assert(before[k] == before.subrange(0, 20)[k]);
                    }
                }
            }
            i = i + 1;
        }
        proof {
            let o = out@;
            assert(o[0] == header[0] && o[1] == header[1] && o[2] == header[2] && o[3] == header[3]);
            assert(o[4] == header[4] && o[5] == header[5] && o[6] == header[6] && o[7] == header[7]);
            assert(o[8] == header[8] && o[9] == header[9] && o[10] == header[10] && o[11] == header[11]);
            assert(o[12] == header[12] && o[13] == header[13] && o[14] == header[14] && o[15] == header[15]);
            assert(o[16] == header[16] && o[17] == header[17] && o[18] == header[18] && o[19] == header[19]);
        }
        out
    }

    /// The table a dump holds; `None` when `bytes` is not one (short header,
    /// sizes that do not multiply to the cell count, or a length that does
    /// not match it). The first header word is not read.
    pub fn deserialize(bytes: &[u8]) -> (r: Option<Table>)
        ensures
            r.is_some() == loadable(bytes@),
            r.is_some() ==> dump_matches(
                bytes@,
                r.unwrap().spec_xsize(),
                r.unwrap().spec_ysize(),
                r.unwrap().spec_zsize(),
                r.unwrap().cells(),
            ) && r.unwrap().spec_xsize() == u32_at(bytes@, 4) && r.unwrap().spec_ysize() == u32_at(bytes@, 8)
                && r.unwrap().spec_zsize() == u32_at(bytes@, 12),
    {
        if bytes.len() < 20 {
            return None;
        }
        let x = read_u32(bytes, 4);
        let y = read_u32(bytes, 8);
        let z = read_u32(bytes, 12);
        let n = read_u32(bytes, 16);
        assert(x as int * y as int <= u64::MAX) by (nonlinear_arith)
            requires x <= u32::MAX, y <= u32::MAX;
        let xy: u64 = x as u64 * y as u64;
        let xyz = match xy.checked_mul(z as u64) {
            Some(v) => v,
            None => {
                assert(x as int * y as int * z as int > u64::MAX) by (nonlinear_arith)
                    requires xy == x as int * y as int, xy as int * z as int > u64::MAX;
                return None;
            },
        };
        if xyz != n as u64 {
            return None;
        }
        if bytes.len() as u64 != 20 + 2 * (n as u64) {
            return None;
        }
        let len = bytes.len();
        let mut data: Vec<i16> = Vec::new();
        let mut i: usize = 0;
        while i < n as usize
            invariant
                len == bytes@.len(),
                bytes@.len() == 20 + 2 * (n as int),
                i <= n,
                data@.len() == i,
                forall|k: int| 0 <= k < i ==> #[trigger] data@[k] == i16_at(bytes@, 20 + 2 * k),
            decreases n - i,
        {
            data.push(read_i16(bytes, 20 + 2 * i));
            i = i + 1;
        }
        let t = Table::new_data(x as usize, y as usize, z as usize, data);
        Some(t)
    }
}

/// A table's dump reads back as the same table, provided its sizes and cell
/// count fit in the header's 32-bit words.
pub proof fn lemma_dump_round_trip(b: Seq<u8>, xsize: nat, ysize: nat, zsize: nat, cells: Seq<i16>)
    requires
        dump_matches(b, xsize, ysize, zsize, cells),
        xsize <= u32::MAX,
        ysize <= u32::MAX,
        zsize <= u32::MAX,
        cells.len() <= u32::MAX,
        xsize * ysize * zsize == cells.len(),
    ensures
        loadable(b),
        u32_at(b, 4) == xsize,
        u32_at(b, 8) == ysize,
        u32_at(b, 12) == zsize,
        forall|c: Seq<i16>| dump_matches(b, xsize, ysize, zsize, c) ==> c == cells,
{
    assert forall|c: Seq<i16>| dump_matches(b, xsize, ysize, zsize, c) implies c == cells by {
        assert(c.len() == cells.len());
        assert forall|i: int| 0 <= i < c.len() implies c[i] == cells[i] by {
            assert(i16_at(b, 20 + 2 * i) == c[i]);
            assert(i16_at(b, 20 + 2 * i) == cells[i]);
        }
        assert(c =~= cells);
    }
}

} // verus!
