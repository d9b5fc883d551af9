//! A 2D grid of values with wrapping coordinate access, consumed by the
//! mesh builder as a producer of ordered quad tuples.
//!
//! Coordinates wrap around both axes: reading or writing at `(x, y)`
//! addresses the cell at the Euclidean remainders of `x` and `y` by the
//! grid's width and height.

use vstd::prelude::*;

verus! {

/// The Euclidean remainder a wrapping coordinate reduces to.
pub open spec fn spec_wrap(i: int, n: int) -> int {
    i % n
}

/// Reduces a signed coordinate into `0..n` by the Euclidean remainder.
fn wrap_coord(i: i32, n: usize) -> (r: usize)
    requires
        1 <= n <= i32::MAX,
    ensures
        r < n,
        r as int == spec_wrap(i as int, n as int),
{
    if i >= 0 {
        (i as usize) % n
    } else {
        let pos = (-(i + 1)) as usize;
        let rem = pos % n;
        proof {
            let ii = i as int;
            let nn = n as int;
            let j = -ii - 1;
            vstd::arithmetic::div_mod::lemma_fundamental_div_mod(j, nn);
            let q = j / nn;
            let r = j % nn;
            vstd::arithmetic::div_mod::lemma_mod_pos_bound(j, nn);
            assert(ii == (-q - 1) * nn + (nn - r - 1)) by (nonlinear_arith)
                requires
                    j == q * nn + r,
                    ii == -j - 1,
            ;
            vstd::arithmetic::div_mod::lemma_fundamental_div_mod_converse(
                ii,
                nn,
                -q - 1,
                nn - r - 1,
            );
        }
        n - 1 - rem
    }
}

/// A `width` by `height` grid of values, stored row-major.
pub struct Grid<T> {
    pub width: usize,
    pub height: usize,
    pub vals: Vec<T>,
}

impl<T: Copy + Default> Grid<T> {
    pub open spec fn wf(self) -> bool {
        &&& 1 <= self.width <= i32::MAX
        &&& 1 <= self.height <= i32::MAX
        &&& self.vals@.len() == self.width * self.height
    }

    /// The value at in-range cell `(x, y)`.
    pub open spec fn spec_at(self, x: int, y: int) -> T {
        self.vals@[y * self.width + x]
    }

    /// The value a wrapping read of `(x, y)` returns.
    pub open spec fn spec_cell(self, x: int, y: int) -> T {
        self.spec_at(spec_wrap(x, self.width as int), spec_wrap(y, self.height as int))
    }

    /// A fresh grid, every cell holding the value type's default.
    pub fn new(width: usize, height: usize) -> (r: Grid<T>)
        requires
            1 <= width <= i32::MAX,
            1 <= height <= i32::MAX,
            width * height <= usize::MAX,
        ensures
            r.wf(),
            r.width == width,
            r.height == height,
            forall|i: int, j: int|
                0 <= i < r.vals@.len() && 0 <= j < r.vals@.len() ==> r.vals@[i] == r.vals@[j],
    {
        let n = width * height;
        let d = T::default();
        let mut vals: Vec<T> = Vec::new();
        let mut i: usize = 0;
        while i < n
            invariant
                i <= n,
                vals@.len() == i,
                forall|j: int| 0 <= j < i ==> vals@[j] == d,
            decreases n - i,
        {
            vals.push(d);
            i = i + 1;
        }
        Grid { width, height, vals }
    }

    /// In-range wrapped coordinates index inside the cell store.
    proof fn lemma_cell_index(self, wx: int, wy: int)
        requires
            self.wf(),
            0 <= wx < self.width,
            0 <= wy < self.height,
        ensures
            0 <= wy * self.width + wx < self.vals@.len(),
    {
        assert(wy * self.width + wx < self.width * self.height) by (nonlinear_arith)
            requires
                0 <= wx < self.width,
                0 <= wy < self.height,
        ;
    }

    /// Reads the cell that `(x, y)` wraps to.
    pub fn get(&self, x: i32, y: i32) -> (r: T)
        requires
            self.wf(),
        ensures
            r == self.spec_cell(x as int, y as int),
    {
        let wx = wrap_coord(x, self.width);
        let wy = wrap_coord(y, self.height);
        let n = self.vals.len();
        proof {
            self.lemma_cell_index(wx as int, wy as int);
        }
        self.vals[wy * self.width + wx]
    }

    /// Overwrites the cell that `(x, y)` wraps to.
    pub fn set(&mut self, x: i32, y: i32, val: T)
        requires
            old(self).wf(),
        ensures
            final(self).wf(),
            final(self).width == old(self).width,
            final(self).height == old(self).height,
            final(self).vals@ == old(self).vals@.update(
                spec_wrap(y as int, old(self).height as int) * old(self).width + spec_wrap(
                    x as int,
                    old(self).width as int,
                ),
                val,
            ),
            final(self).spec_cell(x as int, y as int) == val,
    {
        let wx = wrap_coord(x, self.width);
        let wy = wrap_coord(y, self.height);
        let n = self.vals.len();
        proof {
            self.lemma_cell_index(wx as int, wy as int);
        }
        self.vals.set(wy * self.width + wx, val);
    }

    /// The four corners of cell `(x, y)` in counter-clockwise order:
    /// `(x, y)`, `(x+1, y)`, `(x+1, y+1)`, `(x, y+1)`.
    pub open spec fn spec_ccw_quad(self, x: int, y: int) -> Seq<T> {
        seq![
            self.spec_at(x, y),
            self.spec_at(x + 1, y),
            self.spec_at(x + 1, y + 1),
            self.spec_at(x, y + 1),
        ]
    }

    /// The four corners of cell `(x, y)` in clockwise order.
    pub open spec fn spec_cw_quad(self, x: int, y: int) -> Seq<T> {
        seq![
            self.spec_at(x, y),
            self.spec_at(x, y + 1),
            self.spec_at(x + 1, y + 1),
            self.spec_at(x + 1, y),
        ]
    }

    /// The interior-cell corner tuples in row-major order,
    /// counter-clockwise corners.
    pub open spec fn spec_ccw_tuples(self) -> Seq<Seq<T>> {
        Seq::new(
            (((self.width - 1) * (self.height - 1)) as nat),
            |j: int|
                self.spec_ccw_quad(
                    j % ((self.width - 1) as int),
                    j / ((self.width - 1) as int),
                ),
        )
    }

    /// The interior-cell corner tuples in row-major order, clockwise
    /// corners.
    pub open spec fn spec_cw_tuples(self) -> Seq<Seq<T>> {
        Seq::new(
            (((self.width - 1) * (self.height - 1)) as nat),
            |j: int|
                self.spec_cw_quad(
                    j % ((self.width - 1) as int),
                    j / ((self.width - 1) as int),
                ),
        )
    }

    /// One 4-tuple per interior cell, row-major, corners counter-clockwise.
    pub fn to_ccw_quads(&self) -> (r: Vec<[T; 4]>)
        requires
            self.wf(),
        ensures
            r@.len() == (self.width - 1) * (self.height - 1),
            forall|x: int, y: int|
                0 <= x < self.width - 1 && 0 <= y < self.height - 1 ==> (#[trigger] r@[y * (
                self.width - 1) + x])@ == self.spec_ccw_quad(x, y),
    {
        self.quads(true)
    }

    /// One 4-tuple per interior cell, row-major, corners clockwise.
    pub fn to_cw_quads(&self) -> (r: Vec<[T; 4]>)
        requires
            self.wf(),
        ensures
            r@.len() == (self.width - 1) * (self.height - 1),
            forall|x: int, y: int|
                0 <= x < self.width - 1 && 0 <= y < self.height - 1 ==> (#[trigger] r@[y * (
                self.width - 1) + x])@ == self.spec_cw_quad(x, y),
    {
        self.quads(false)
    }

    /// The quad tuples of every interior cell, in row-major order.
    fn quads(&self, ccw: bool) -> (r: Vec<[T; 4]>)
        requires
            self.wf(),
        ensures
            r@.len() == (self.width - 1) * (self.height - 1),
            forall|x: int, y: int|
                0 <= x < self.width - 1 && 0 <= y < self.height - 1 ==> (#[trigger] r@[y * (
                self.width - 1) + x])@ == if ccw {
                    self.spec_ccw_quad(x, y)
                } else {
                    self.spec_cw_quad(x, y)
                },
    {
        let w1 = self.width - 1;
        let h1 = self.height - 1;
        let cap = self.vals.len();
        let mut r: Vec<[T; 4]> = Vec::new();
        let mut y: usize = 0;
        while y < h1
            invariant
                self.wf(),
                self.vals@.len() <= usize::MAX,
                w1 == self.width - 1,
                h1 == self.height - 1,
                y <= h1,
                r@.len() == y * w1,
                forall|x2: int, y2: int|
                    0 <= x2 < w1 && 0 <= y2 < y ==> (#[trigger] r@[y2 * w1 + x2])@ == if ccw {
                        self.spec_ccw_quad(x2, y2)
                    } else {
                        self.spec_cw_quad(x2, y2)
                    },
            decreases h1 - y,
        {
            let mut x: usize = 0;
            while x < w1
                invariant
                    self.wf(),
                    self.vals@.len() <= usize::MAX,
                    w1 == self.width - 1,
                    h1 == self.height - 1,
                    y < h1,
                    x <= w1,
                    r@.len() == y * w1 + x,
                    forall|x2: int, y2: int|
                        0 <= x2 < w1 && 0 <= y2 < y ==> (#[trigger] r@[y2 * w1 + x2])@ == if ccw {
                            self.spec_ccw_quad(x2, y2)
                        } else {
                            self.spec_cw_quad(x2, y2)
                        },
                    forall|x2: int|
                        0 <= x2 < x ==> (#[trigger] r@[y * w1 + x2])@ == if ccw {
                            self.spec_ccw_quad(x2, y as int)
                        } else {
                            self.spec_cw_quad(x2, y as int)
                        },
                decreases w1 - x,
            {
                proof {
                    self.lemma_cell_index(x as int, y as int);
                    self.lemma_cell_index(x + 1, y as int);
                    self.lemma_cell_index(x as int, y + 1);
                    self.lemma_cell_index(x + 1, y + 1);
                    assert(y * w1 + x + 1 <= h1 * w1) by (nonlinear_arith)
                        requires
                            0 <= x < w1,
                            0 <= y < h1,
                    ;
                }
                let a = self.vals[y * self.width + x];
                let b = self.vals[y * self.width + (x + 1)];
                let c = self.vals[(y + 1) * self.width + (x + 1)];
                let d = self.vals[(y + 1) * self.width + x];
                let quad: [T; 4] = if ccw {
                    [a, b, c, d]
                } else {
                    [a, d, c, b]
                };
                r.push(quad);
                proof {
                    assert forall|x2: int, y2: int|
                        0 <= x2 < w1 && 0 <= y2 < y implies (#[trigger] r@[y2 * w1 + x2])@ == if ccw {
                        self.spec_ccw_quad(x2, y2)
                    } else {
                        self.spec_cw_quad(x2, y2)
                    } by {
                        assert(y2 * w1 + x2 < y * w1 + x) by (nonlinear_arith)
                            requires
                                0 <= x2 < w1,
                                0 <= y2 < y,
                                0 <= x,
                        ;
                    }
                    assert((r@[y * w1 + x as int])@ == if ccw {
                        self.spec_ccw_quad(x as int, y as int)
                    } else {
                        self.spec_cw_quad(x as int, y as int)
                    });
                }
                x = x + 1;
            }
            y = y + 1;
            proof {
                assert(y * w1 == (y - 1) * w1 + w1) by (nonlinear_arith);
            }
        }
        proof {
            assert(r@.len() == h1 * w1);
            assert(h1 * w1 == (self.width - 1) * (self.height - 1)) by (nonlinear_arith)
                requires
                    w1 == self.width - 1,
                    h1 == self.height - 1,
            ;
        }
        r
    }
}

/// The face at list position `at` of section `sid` is a quad whose
/// corners resolve, in order, to the positions of `q`, and which carries
/// the explicit normal and override payload of `props`.
pub open spec fn quad_added<V: crate::payload::Position3D>(
    g: crate::mesh::MeshGeometry<V>,
    sid: usize,
    at: int,
    q: Seq<V>,
    props: crate::mesh::FaceDataProps<V>,
) -> bool {
    let fv = g.section_views(sid)[at];
    &&& fv.verts.len() == 4
    &&& fv.normal == props.normal
    &&& fv.data == props.data
    &&& (forall|c: int|
        0 <= c < 4 ==> ((#[trigger] fv.verts[c]) as int) < g.position_ids@.len()
            && g.position_ids@[fv.verts[c] as int] == q[c].spec_position())
}

/// The four corners of one tuple carry pairwise distinct positions, so a
/// quad face can be built from them.
pub open spec fn quad_corners_distinct<V: crate::payload::Position3D>(q: Seq<V>) -> bool {
    &&& q[0].spec_position() != q[1].spec_position()
    &&& q[0].spec_position() != q[2].spec_position()
    &&& q[0].spec_position() != q[3].spec_position()
    &&& q[1].spec_position() != q[2].spec_position()
    &&& q[1].spec_position() != q[3].spec_position()
    &&& q[2].spec_position() != q[3].spec_position()
}

/// The payload that replaying the first `n` tuples leaves at position `p`,
/// over a store that held `dflt` there: the last corner carrying `p` wins.
/// A valid tuple carries each position at most once, so the scan order
/// within one tuple does not matter.
pub open spec fn spec_last_payload<V: crate::payload::Position3D>(
    ts: Seq<Seq<V>>,
    n: int,
    p: crate::fvec::Vec3Bits,
    dflt: V,
) -> V
    decreases n,
{
    if n <= 0 {
        dflt
    } else {
        let q = ts[n - 1];
        if q[3].spec_position() == p {
            q[3]
        } else if q[2].spec_position() == p {
            q[2]
        } else if q[1].spec_position() == p {
            q[1]
        } else if q[0].spec_position() == p {
            q[0]
        } else {
            spec_last_payload(ts, n - 1, p, dflt)
        }
    }
}

/// The index of the first tuple whose corners collide, scanning from `i`;
/// the list length where none does.
pub open spec fn spec_first_invalid_from<V: crate::payload::Position3D>(
    qs: Seq<[V; 4]>,
    i: int,
) -> int
    decreases qs.len() - i,
{
    if i < 0 || i >= qs.len() {
        qs.len() as int
    } else if !quad_corners_distinct(qs[i]@) {
        i
    } else {
        spec_first_invalid_from(qs, i + 1)
    }
}

/// The index of the first tuple whose corners collide; the list length
/// where every tuple is valid.
pub open spec fn spec_first_invalid<V: crate::payload::Position3D>(qs: Seq<[V; 4]>) -> int {
    spec_first_invalid_from(qs, 0)
}

/// A scan over valid tuples ending at an invalid one (or at the end) pins
/// the first-invalid index.
proof fn lemma_first_invalid_pin<V: crate::payload::Position3D>(qs: Seq<[V; 4]>, a: int, k: int)
    requires
        0 <= a <= k <= qs.len(),
        forall|j: int| a <= j < k ==> quad_corners_distinct((#[trigger] qs[j])@),
        k < qs.len() ==> !quad_corners_distinct(qs[k]@),
    ensures
        spec_first_invalid_from(qs, a) == k,
    decreases k - a,
{
    if a < k {
        lemma_first_invalid_pin(qs, a + 1, k);
    }
}

/// What the first-invalid index means: everything before it is valid, and
/// where it lies inside the list, that tuple is invalid.
proof fn lemma_first_invalid_char<V: crate::payload::Position3D>(qs: Seq<[V; 4]>, a: int)
    requires
        0 <= a <= qs.len(),
    ensures
        a <= spec_first_invalid_from(qs, a) <= qs.len(),
        forall|j: int|
            a <= j < spec_first_invalid_from(qs, a) ==> quad_corners_distinct(
                (#[trigger] qs[j])@,
            ),
        spec_first_invalid_from(qs, a) < qs.len() ==> !quad_corners_distinct(
            qs[spec_first_invalid_from(qs, a)]@,
        ),
    decreases qs.len() - a,
{
    if a < qs.len() {
        if quad_corners_distinct(qs[a]@) {
            lemma_first_invalid_char(qs, a + 1);
        }
    }
}

impl<V: crate::payload::Position3D + Copy + Default> crate::mesh::MeshGeometry<V> {
    /// Adds one quad face per interior grid cell, corners in
    /// counter-clockwise order, all sharing `data`. Succeeds exactly when
    /// every cell's four corners carry pairwise distinct positions; the
    /// first colliding cell, in row-major order, stops the ingestion with
    /// the cells before it already added.
    pub fn add_grid_ccw_quads_data(&mut self, grid: &Grid<V>, data: crate::mesh::FaceDataProps<V>) -> (r:
        Result<(), crate::mesh::MeshError>)
        requires
            old(self).wf(),
            grid.wf(),
        ensures
            final(self).wf(),
            final(self).tri_adds == old(self).tri_adds,
            final(self).loose_resolves == old(self).loose_resolves,
            r is Err ==> r == Result::<(), crate::mesh::MeshError>::Err(
                crate::mesh::MeshError::InvalidFace,
            ),
            r is Ok <==> (forall|x: int, y: int|
                0 <= x < grid.width - 1 && 0 <= y < grid.height - 1 ==> quad_corners_distinct(
                    #[trigger] grid.spec_ccw_quad(x, y),
                )),
            forall|s2: usize|
                s2 != crate::mesh::spec_target_section(data) ==> final(self).section_views(s2)
                    == old(self).section_views(s2),
            r is Ok ==> {
                let sid = crate::mesh::spec_target_section(data);
                &&& final(self).quad_adds@ == old(self).quad_adds@ + (grid.width - 1) * (
                    grid.height - 1)
                &&& final(self).section_views(sid).len() == old(self).section_views(sid).len() + (
                    grid.width - 1) * (grid.height - 1)
                &&& (forall|x: int, y: int|
                    0 <= x < grid.width - 1 && 0 <= y < grid.height - 1 ==> quad_added(
                        *final(self),
                        sid,
                        old(self).section_views(sid).len() + y * (grid.width - 1) + x,
                        #[trigger] grid.spec_ccw_quad(x, y),
                        data,
                    ))
            },
            r is Err ==> {
                let sid = crate::mesh::spec_target_section(data);
                let k = final(self).quad_adds@ - old(self).quad_adds@;
                &&& 0 <= k < (grid.width - 1) * (grid.height - 1)
                &&& final(self).section_views(sid).len() == old(self).section_views(sid).len() + k
                &&& (forall|x: int, y: int|
                    0 <= x < grid.width - 1 && 0 <= y < grid.height - 1 && y * (grid.width - 1)
                        + x < k ==> quad_added(
                        *final(self),
                        sid,
                        old(self).section_views(sid).len() + y * (grid.width - 1) + x,
                        #[trigger] grid.spec_ccw_quad(x, y),
                        data,
                    ))
                &&& (forall|x: int, y: int|
                    0 <= x < grid.width - 1 && 0 <= y < grid.height - 1 && y * (grid.width - 1)
                        + x < k ==> quad_corners_distinct(#[trigger] grid.spec_ccw_quad(x, y)))
                &&& (forall|x: int, y: int|
                    0 <= x < grid.width - 1 && 0 <= y < grid.height - 1 && y * (grid.width - 1)
                        + x == k ==> !quad_corners_distinct(#[trigger] grid.spec_ccw_quad(x, y)))
            },
            old(self).vertices@.len() == old(self).position_ids@.len() ==> {
                let done = final(self).quad_adds@ - old(self).quad_adds@;
                &&& (forall|v: int|
                    0 <= v < old(self).vertices@.len()
                        ==> (#[trigger] final(self).vertices@[v]).data == spec_last_payload(
                        grid.spec_ccw_tuples(),
                        done,
                        old(self).position_ids@[v],
                        old(self).vertices@[v].data,
                    ))
                &&& (forall|v: int, dflt: V|
                    old(self).vertices@.len() <= v < final(self).vertices@.len()
                        ==> #[trigger] spec_last_payload(
                        grid.spec_ccw_tuples(),
                        done,
                        final(self).position_ids@[v],
                        dflt,
                    ) == final(self).vertices@[v].data)
            },
    {
        let quads = grid.to_ccw_quads();
        let ghost base = self.section_views(crate::mesh::spec_target_section(data)).len() as int;
        let r = self.add_quads(&quads, data);
        proof {
            let sid = crate::mesh::spec_target_section(data);
            let d = (grid.width - 1) as int;
            let fi = spec_first_invalid(quads@);
            lemma_first_invalid_char(quads@, 0);
            if r is Ok {
                assert forall|x: int, y: int|
                    0 <= x < grid.width - 1 && 0 <= y < grid.height - 1 implies quad_added(
                    *self,
                    sid,
                    base + y * (grid.width - 1) + x,
                    #[trigger] grid.spec_ccw_quad(x, y),
                    data,
                ) && quad_corners_distinct(grid.spec_ccw_quad(x, y)) by {
                    let j = y * (grid.width - 1) + x;
                    assert(0 <= j < (grid.width - 1) * (grid.height - 1)) by (nonlinear_arith)
                        requires
                            j == y * (grid.width - 1) + x,
                            0 <= x < grid.width - 1,
                            0 <= y < grid.height - 1,
                    ;
                    assert(quads@[j]@ == grid.spec_ccw_quad(x, y));
                    assert(quad_added(*self, sid, base + j, quads@[j]@, data));
                    assert(quad_corners_distinct(quads@[j]@));
                }
            } else {
                // the counter delta names the first cell whose corners
                // collide, in row-major order
                assert(fi < quads@.len());
                assert forall|x: int, y: int|
                    0 <= x < grid.width - 1 && 0 <= y < grid.height - 1 && y * (grid.width - 1)
                        + x < fi implies quad_added(
                    *self,
                    sid,
                    base + y * (grid.width - 1) + x,
                    #[trigger] grid.spec_ccw_quad(x, y),
                    data,
                ) && quad_corners_distinct(grid.spec_ccw_quad(x, y)) by {
                    let j = y * (grid.width - 1) + x;
                    assert(quads@[j]@ == grid.spec_ccw_quad(x, y));
                    assert(quad_added(*self, sid, base + j, quads@[j]@, data));
                    assert(quad_corners_distinct(quads@[j]@));
                }
                assert forall|x: int, y: int|
                    0 <= x < grid.width - 1 && 0 <= y < grid.height - 1 && y * (grid.width - 1)
                        + x == fi implies !quad_corners_distinct(#[trigger] grid.spec_ccw_quad(x, y)) by {
                    assert(quads@[y * (grid.width - 1) + x]@ == grid.spec_ccw_quad(x, y));
                }
                // some cell collides, so the all-cells-valid reading fails
                assert(!(forall|x: int, y: int|
                    0 <= x < grid.width - 1 && 0 <= y < grid.height - 1
                        ==> quad_corners_distinct(#[trigger] grid.spec_ccw_quad(x, y)))) by {
                    vstd::arithmetic::div_mod::lemma_fundamental_div_mod(fi, d);
                    vstd::arithmetic::div_mod::lemma_mod_pos_bound(fi, d);
                    let yy = fi / d;
                    let xx = fi % d;
                    assert(0 <= yy < grid.height - 1) by (nonlinear_arith)
                        requires
                            fi == yy * d + xx,
                            0 <= xx < d,
                            0 <= fi < d * (grid.height - 1),
                            d >= 1,
                    ;
                    assert(fi < d * (grid.height - 1)) by (nonlinear_arith)
                        requires
                            fi < (grid.width - 1) * (grid.height - 1),
                            d == grid.width - 1,
                    ;
                    assert(quads@[yy * (grid.width - 1) + xx]@ == grid.spec_ccw_quad(xx, yy));
                    assert(!quad_corners_distinct(grid.spec_ccw_quad(xx, yy)));
                }
            }
            // all cells valid exactly when the whole scan runs clean
            if forall|x: int, y: int|
                0 <= x < grid.width - 1 && 0 <= y < grid.height - 1 ==> quad_corners_distinct(
                    #[trigger] grid.spec_ccw_quad(x, y),
                ) {
                assert forall|j: int|
                    0 <= j < quads@.len() implies quad_corners_distinct(
                    (#[trigger] quads@[j])@,
                ) by {
                    vstd::arithmetic::div_mod::lemma_fundamental_div_mod(j, d);
                    vstd::arithmetic::div_mod::lemma_mod_pos_bound(j, d);
                    let yy = j / d;
                    let xx = j % d;
                    assert(j < d * (grid.height - 1)) by (nonlinear_arith)
                        requires
                            j < (grid.width - 1) * (grid.height - 1),
                            d == grid.width - 1,
                    ;
                    assert(0 <= yy < grid.height - 1) by (nonlinear_arith)
                        requires
                            j == yy * d + xx,
                            0 <= xx < d,
                            0 <= j < d * (grid.height - 1),
                            d >= 1,
                    ;
                    assert(quads@[yy * (grid.width - 1) + xx]@ == grid.spec_ccw_quad(xx, yy));
                    assert(quad_corners_distinct(grid.spec_ccw_quad(xx, yy)));
                }
                lemma_first_invalid_pin(quads@, 0, quads@.len() as int);
            }
            // the collected tuples are exactly the grid's row-major tuples
            if old(self).vertices@.len() == old(self).position_ids@.len() {
                let ts = quads@.map_values(|q2: [V; 4]| q2@);
                let gts = grid.spec_ccw_tuples();
                assert(ts =~= gts) by {
                    assert forall|j: int| 0 <= j < ts.len() implies ts[j] == gts[j] by {
                        vstd::arithmetic::div_mod::lemma_fundamental_div_mod(j, d);
                        vstd::arithmetic::div_mod::lemma_mod_pos_bound(j, d);
                        let yy = j / d;
                        let xx = j % d;
                        assert(j < d * (grid.height - 1)) by (nonlinear_arith)
                            requires
                                j < (grid.width - 1) * (grid.height - 1),
                                d == grid.width - 1,
                        ;
                        assert(0 <= yy < grid.height - 1) by (nonlinear_arith)
                            requires
                                j == yy * d + xx,
                                0 <= xx < d,
                                0 <= j < d * (grid.height - 1),
                                d >= 1,
                        ;
                        assert(quads@[yy * (grid.width - 1) + xx]@ == grid.spec_ccw_quad(xx, yy));
                    }
                }
            }
        }
        r
    }

    /// Adds one quad face per interior grid cell with default face
    /// configuration, corners counter-clockwise.
    pub fn add_grid_ccw_quads(&mut self, grid: &Grid<V>) -> (r: Result<
        (),
        crate::mesh::MeshError,
    >)
        requires
            old(self).wf(),
            grid.wf(),
        ensures
            final(self).wf(),
            final(self).tri_adds == old(self).tri_adds,
            final(self).loose_resolves == old(self).loose_resolves,
            r is Err ==> r == Result::<(), crate::mesh::MeshError>::Err(
                crate::mesh::MeshError::InvalidFace,
            ),
            r is Ok <==> (forall|x: int, y: int|
                0 <= x < grid.width - 1 && 0 <= y < grid.height - 1 ==> quad_corners_distinct(
                    #[trigger] grid.spec_ccw_quad(x, y),
                )),
            forall|s2: usize|
                s2 != 0 ==> final(self).section_views(s2) == old(self).section_views(s2),
            r is Ok ==> {
                &&& final(self).quad_adds@ == old(self).quad_adds@ + (grid.width - 1) * (
                    grid.height - 1)
                &&& final(self).section_views(0).len() == old(self).section_views(0).len() + (
                    grid.width - 1) * (grid.height - 1)
                &&& (forall|x: int, y: int|
                    0 <= x < grid.width - 1 && 0 <= y < grid.height - 1 ==> quad_added(
                        *final(self),
                        0,
                        old(self).section_views(0).len() + y * (grid.width - 1) + x,
                        #[trigger] grid.spec_ccw_quad(x, y),
                        (crate::mesh::FaceDataProps { normal: None, data: None, section: None }),
                    ))
            },
            old(self).vertices@.len() == old(self).position_ids@.len() ==> {
                let done = final(self).quad_adds@ - old(self).quad_adds@;
                &&& (forall|v: int|
                    0 <= v < old(self).vertices@.len()
                        ==> (#[trigger] final(self).vertices@[v]).data == spec_last_payload(
                        grid.spec_ccw_tuples(),
                        done,
                        old(self).position_ids@[v],
                        old(self).vertices@[v].data,
                    ))
                &&& (forall|v: int, dflt: V|
                    old(self).vertices@.len() <= v < final(self).vertices@.len()
                        ==> #[trigger] spec_last_payload(
                        grid.spec_ccw_tuples(),
                        done,
                        final(self).position_ids@[v],
                        dflt,
                    ) == final(self).vertices@[v].data)
            },
    {
        let props: crate::mesh::FaceDataProps<V> = crate::mesh::FaceDataProps::default();
        proof {
            assert(props == (crate::mesh::FaceDataProps::<V> {
                normal: None,
                data: None,
                section: None,
            }));
            assert(crate::mesh::spec_target_section(props) == 0);
        }
        self.add_grid_ccw_quads_data(grid, props)
    }

    /// Adds one quad face per interior grid cell, corners in clockwise
    /// order, all sharing `data`. Succeeds exactly when every cell's four
    /// corners carry pairwise distinct positions; the first colliding
    /// cell, in row-major order, stops the ingestion with the cells before
    /// it already added.
    pub fn add_grid_cw_quads_data(&mut self, grid: &Grid<V>, data: crate::mesh::FaceDataProps<V>) -> (r:
        Result<(), crate::mesh::MeshError>)
        requires
            old(self).wf(),
            grid.wf(),
        ensures
            final(self).wf(),
            final(self).tri_adds == old(self).tri_adds,
            final(self).loose_resolves == old(self).loose_resolves,
            r is Err ==> r == Result::<(), crate::mesh::MeshError>::Err(
                crate::mesh::MeshError::InvalidFace,
            ),
            r is Ok <==> (forall|x: int, y: int|
                0 <= x < grid.width - 1 && 0 <= y < grid.height - 1 ==> quad_corners_distinct(
                    #[trigger] grid.spec_cw_quad(x, y),
                )),
            forall|s2: usize|
                s2 != crate::mesh::spec_target_section(data) ==> final(self).section_views(s2)
                    == old(self).section_views(s2),
            r is Ok ==> {
                let sid = crate::mesh::spec_target_section(data);
                &&& final(self).quad_adds@ == old(self).quad_adds@ + (grid.width - 1) * (
                    grid.height - 1)
                &&& final(self).section_views(sid).len() == old(self).section_views(sid).len() + (
                    grid.width - 1) * (grid.height - 1)
                &&& (forall|x: int, y: int|
                    0 <= x < grid.width - 1 && 0 <= y < grid.height - 1 ==> quad_added(
                        *final(self),
                        sid,
                        old(self).section_views(sid).len() + y * (grid.width - 1) + x,
                        #[trigger] grid.spec_cw_quad(x, y),
                        data,
                    ))
            },
            r is Err ==> {
                let sid = crate::mesh::spec_target_section(data);
                let k = final(self).quad_adds@ - old(self).quad_adds@;
                &&& 0 <= k < (grid.width - 1) * (grid.height - 1)
                &&& final(self).section_views(sid).len() == old(self).section_views(sid).len() + k
                &&& (forall|x: int, y: int|
                    0 <= x < grid.width - 1 && 0 <= y < grid.height - 1 && y * (grid.width - 1)
                        + x < k ==> quad_added(
                        *final(self),
                        sid,
                        old(self).section_views(sid).len() + y * (grid.width - 1) + x,
                        #[trigger] grid.spec_cw_quad(x, y),
                        data,
                    ))
                &&& (forall|x: int, y: int|
                    0 <= x < grid.width - 1 && 0 <= y < grid.height - 1 && y * (grid.width - 1)
                        + x < k ==> quad_corners_distinct(#[trigger] grid.spec_cw_quad(x, y)))
                &&& (forall|x: int, y: int|
                    0 <= x < grid.width - 1 && 0 <= y < grid.height - 1 && y * (grid.width - 1)
                        + x == k ==> !quad_corners_distinct(#[trigger] grid.spec_cw_quad(x, y)))
            },
            old(self).vertices@.len() == old(self).position_ids@.len() ==> {
                let done = final(self).quad_adds@ - old(self).quad_adds@;
                &&& (forall|v: int|
                    0 <= v < old(self).vertices@.len()
                        ==> (#[trigger] final(self).vertices@[v]).data == spec_last_payload(
                        grid.spec_cw_tuples(),
                        done,
                        old(self).position_ids@[v],
                        old(self).vertices@[v].data,
                    ))
                &&& (forall|v: int, dflt: V|
                    old(self).vertices@.len() <= v < final(self).vertices@.len()
                        ==> #[trigger] spec_last_payload(
                        grid.spec_cw_tuples(),
                        done,
                        final(self).position_ids@[v],
                        dflt,
                    ) == final(self).vertices@[v].data)
            },
    {
        let quads = grid.to_cw_quads();
        let ghost base = self.section_views(crate::mesh::spec_target_section(data)).len() as int;
        let r = self.add_quads(&quads, data);
        proof {
            let sid = crate::mesh::spec_target_section(data);
            let d = (grid.width - 1) as int;
            let fi = spec_first_invalid(quads@);
            lemma_first_invalid_char(quads@, 0);
            if r is Ok {
                assert forall|x: int, y: int|
                    0 <= x < grid.width - 1 && 0 <= y < grid.height - 1 implies quad_added(
                    *self,
                    sid,
                    base + y * (grid.width - 1) + x,
                    #[trigger] grid.spec_cw_quad(x, y),
                    data,
                ) && quad_corners_distinct(grid.spec_cw_quad(x, y)) by {
                    let j = y * (grid.width - 1) + x;
                    assert(0 <= j < (grid.width - 1) * (grid.height - 1)) by (nonlinear_arith)
                        requires
                            j == y * (grid.width - 1) + x,
                            0 <= x < grid.width - 1,
                            0 <= y < grid.height - 1,
                    ;
                    assert(quads@[j]@ == grid.spec_cw_quad(x, y));
                    assert(quad_added(*self, sid, base + j, quads@[j]@, data));
                    assert(quad_corners_distinct(quads@[j]@));
                }
            } else {
                // the counter delta names the first cell whose corners
                // collide, in row-major order
                assert(fi < quads@.len());
                assert forall|x: int, y: int|
                    0 <= x < grid.width - 1 && 0 <= y < grid.height - 1 && y * (grid.width - 1)
                        + x < fi implies quad_added(
                    *self,
                    sid,
                    base + y * (grid.width - 1) + x,
                    #[trigger] grid.spec_cw_quad(x, y),
                    data,
                ) && quad_corners_distinct(grid.spec_cw_quad(x, y)) by {
                    let j = y * (grid.width - 1) + x;
                    assert(quads@[j]@ == grid.spec_cw_quad(x, y));
                    assert(quad_added(*self, sid, base + j, quads@[j]@, data));
                    assert(quad_corners_distinct(quads@[j]@));
                }
                assert forall|x: int, y: int|
                    0 <= x < grid.width - 1 && 0 <= y < grid.height - 1 && y * (grid.width - 1)
                        + x == fi implies !quad_corners_distinct(#[trigger] grid.spec_cw_quad(x, y)) by {
                    assert(quads@[y * (grid.width - 1) + x]@ == grid.spec_cw_quad(x, y));
                }
                // some cell collides, so the all-cells-valid reading fails
                assert(!(forall|x: int, y: int|
                    0 <= x < grid.width - 1 && 0 <= y < grid.height - 1
                        ==> quad_corners_distinct(#[trigger] grid.spec_cw_quad(x, y)))) by {
                    vstd::arithmetic::div_mod::lemma_fundamental_div_mod(fi, d);
                    vstd::arithmetic::div_mod::lemma_mod_pos_bound(fi, d);
                    let yy = fi / d;
                    let xx = fi % d;
                    assert(0 <= yy < grid.height - 1) by (nonlinear_arith)
                        requires
                            fi == yy * d + xx,
                            0 <= xx < d,
                            0 <= fi < d * (grid.height - 1),
                            d >= 1,
                    ;
                    assert(fi < d * (grid.height - 1)) by (nonlinear_arith)
                        requires
                            fi < (grid.width - 1) * (grid.height - 1),
                            d == grid.width - 1,
                    ;
                    assert(quads@[yy * (grid.width - 1) + xx]@ == grid.spec_cw_quad(xx, yy));
                    assert(!quad_corners_distinct(grid.spec_cw_quad(xx, yy)));
                }
            }
            // all cells valid exactly when the whole scan runs clean
            if forall|x: int, y: int|
                0 <= x < grid.width - 1 && 0 <= y < grid.height - 1 ==> quad_corners_distinct(
                    #[trigger] grid.spec_cw_quad(x, y),
                ) {
                assert forall|j: int|
                    0 <= j < quads@.len() implies quad_corners_distinct(
                    (#[trigger] quads@[j])@,
                ) by {
                    vstd::arithmetic::div_mod::lemma_fundamental_div_mod(j, d);
                    vstd::arithmetic::div_mod::lemma_mod_pos_bound(j, d);
                    let yy = j / d;
                    let xx = j % d;
                    assert(j < d * (grid.height - 1)) by (nonlinear_arith)
                        requires
                            j < (grid.width - 1) * (grid.height - 1),
                            d == grid.width - 1,
                    ;
                    assert(0 <= yy < grid.height - 1) by (nonlinear_arith)
                        requires
                            j == yy * d + xx,
                            0 <= xx < d,
                            0 <= j < d * (grid.height - 1),
                            d >= 1,
                    ;
                    assert(quads@[yy * (grid.width - 1) + xx]@ == grid.spec_cw_quad(xx, yy));
                    assert(quad_corners_distinct(grid.spec_cw_quad(xx, yy)));
                }
                lemma_first_invalid_pin(quads@, 0, quads@.len() as int);
            }
            // the collected tuples are exactly the grid's row-major tuples
            if old(self).vertices@.len() == old(self).position_ids@.len() {
                let ts = quads@.map_values(|q2: [V; 4]| q2@);
                let gts = grid.spec_cw_tuples();
                assert(ts =~= gts) by {
                    assert forall|j: int| 0 <= j < ts.len() implies ts[j] == gts[j] by {
                        vstd::arithmetic::div_mod::lemma_fundamental_div_mod(j, d);
                        vstd::arithmetic::div_mod::lemma_mod_pos_bound(j, d);
                        let yy = j / d;
                        let xx = j % d;
                        assert(j < d * (grid.height - 1)) by (nonlinear_arith)
                            requires
                                j < (grid.width - 1) * (grid.height - 1),
                                d == grid.width - 1,
                        ;
                        assert(0 <= yy < grid.height - 1) by (nonlinear_arith)
                            requires
                                j == yy * d + xx,
                                0 <= xx < d,
                                0 <= j < d * (grid.height - 1),
                                d >= 1,
                        ;
                        assert(quads@[yy * (grid.width - 1) + xx]@ == grid.spec_cw_quad(xx, yy));
                    }
                }
            }
        }
        r
    }

    /// Adds one quad face per interior grid cell with default face
    /// configuration, corners clockwise.
    pub fn add_grid_cw_quads(&mut self, grid: &Grid<V>) -> (r: Result<(), crate::mesh::MeshError>)
        requires
            old(self).wf(),
            grid.wf(),
        ensures
            final(self).wf(),
            final(self).tri_adds == old(self).tri_adds,
            final(self).loose_resolves == old(self).loose_resolves,
            r is Err ==> r == Result::<(), crate::mesh::MeshError>::Err(
                crate::mesh::MeshError::InvalidFace,
            ),
            r is Ok <==> (forall|x: int, y: int|
                0 <= x < grid.width - 1 && 0 <= y < grid.height - 1 ==> quad_corners_distinct(
                    #[trigger] grid.spec_cw_quad(x, y),
                )),
            forall|s2: usize|
                s2 != 0 ==> final(self).section_views(s2) == old(self).section_views(s2),
            r is Ok ==> {
                &&& final(self).quad_adds@ == old(self).quad_adds@ + (grid.width - 1) * (
                    grid.height - 1)
                &&& final(self).section_views(0).len() == old(self).section_views(0).len() + (
                    grid.width - 1) * (grid.height - 1)
                &&& (forall|x: int, y: int|
                    0 <= x < grid.width - 1 && 0 <= y < grid.height - 1 ==> quad_added(
                        *final(self),
                        0,
                        old(self).section_views(0).len() + y * (grid.width - 1) + x,
                        #[trigger] grid.spec_cw_quad(x, y),
                        (crate::mesh::FaceDataProps { normal: None, data: None, section: None }),
                    ))
            },
            old(self).vertices@.len() == old(self).position_ids@.len() ==> {
                let done = final(self).quad_adds@ - old(self).quad_adds@;
                &&& (forall|v: int|
                    0 <= v < old(self).vertices@.len()
                        ==> (#[trigger] final(self).vertices@[v]).data == spec_last_payload(
                        grid.spec_cw_tuples(),
                        done,
                        old(self).position_ids@[v],
                        old(self).vertices@[v].data,
                    ))
                &&& (forall|v: int, dflt: V|
                    old(self).vertices@.len() <= v < final(self).vertices@.len()
                        ==> #[trigger] spec_last_payload(
                        grid.spec_cw_tuples(),
                        done,
                        final(self).position_ids@[v],
                        dflt,
                    ) == final(self).vertices@[v].data)
            },
    {
        let props: crate::mesh::FaceDataProps<V> = crate::mesh::FaceDataProps::default();
        proof {
            assert(props == (crate::mesh::FaceDataProps::<V> {
                normal: None,
                data: None,
                section: None,
            }));
            assert(crate::mesh::spec_target_section(props) == 0);
        }
        self.add_grid_cw_quads_data(grid, props)
    }

    /// Forwards each 4-tuple to a quad-face addition, sharing `data`: one
    /// quad face per tuple lands at the end of the target section, its
    /// corners resolved to the tuple's positions in order.
    fn add_quads(&mut self, quads: &Vec<[V; 4]>, data: crate::mesh::FaceDataProps<V>) -> (r:
        Result<(), crate::mesh::MeshError>)
        requires
            old(self).wf(),
        ensures
            final(self).wf(),
            final(self).tri_adds == old(self).tri_adds,
            final(self).loose_resolves == old(self).loose_resolves,
            r is Ok <==> spec_first_invalid(quads@) == quads@.len(),
            r is Err ==> r == Result::<(), crate::mesh::MeshError>::Err(
                crate::mesh::MeshError::InvalidFace,
            ),
            ({
                let sid = crate::mesh::spec_target_section(data);
                let done = spec_first_invalid(quads@);
                &&& final(self).quad_adds@ == old(self).quad_adds@ + done
                &&& final(self).section_views(sid).len() == old(self).section_views(sid).len()
                    + done
                &&& (forall|s2: usize|
                    s2 != sid ==> final(self).section_views(s2) == old(self).section_views(s2))
                &&& (forall|j: int|
                    0 <= j < done ==> quad_added(
                        *final(self),
                        sid,
                        old(self).section_views(sid).len() + j,
                        (#[trigger] quads@[j])@,
                        data,
                    ))
                &&& final(self).sections@.len() == old(self).sections@.len() + (if old(
                    self,
                ).has_section(sid) || done == 0 {
                    0int
                } else {
                    1int
                })
                &&& (forall|s2: usize|
                    #[trigger] final(self).has_section(s2) <==> old(self).has_section(s2) || (s2
                        == sid && done > 0))
                &&& (old(self).vertices@.len() == old(self).position_ids@.len() ==> {
                    let ts = quads@.map_values(|q: [V; 4]| q@);
                    &&& (forall|v: int|
                        0 <= v < old(self).vertices@.len()
                            ==> (#[trigger] final(self).vertices@[v]).data == spec_last_payload(
                            ts,
                            done,
                            old(self).position_ids@[v],
                            old(self).vertices@[v].data,
                        ))
                    &&& (forall|v: int, dflt: V|
                        old(self).vertices@.len() <= v < final(self).vertices@.len()
                            ==> #[trigger] spec_last_payload(
                            ts,
                            done,
                            final(self).position_ids@[v],
                            dflt,
                        ) == final(self).vertices@[v].data)
                })
            }),
    {
        let ghost sid = crate::mesh::spec_target_section(data);
        let ghost base = old(self).section_views(sid).len() as int;
        let mut qi: usize = 0;
        while qi < quads.len()
            invariant
                self.wf(),
                qi <= quads@.len(),
                sid == crate::mesh::spec_target_section(data),
                base == old(self).section_views(sid).len() as int,
                self.tri_adds == old(self).tri_adds,
                self.loose_resolves == old(self).loose_resolves,
                self.quad_adds@ == old(self).quad_adds@ + qi,
                self.section_views(sid).len() == base + qi,
                forall|s2: usize|
                    s2 != sid ==> self.section_views(s2) == old(self).section_views(s2),
                forall|j: int|
                    0 <= j < qi ==> quad_added(
                        *self,
                        sid,
                        base + j,
                        (#[trigger] quads@[j])@,
                        data,
                    ),
                forall|j: int| 0 <= j < qi ==> quad_corners_distinct((#[trigger] quads@[j])@),
                self.sections@.len() == old(self).sections@.len() + (if old(self).has_section(
                    sid,
                ) || qi == 0 {
                    0int
                } else {
                    1int
                }),
                forall|s2: usize|
                    #[trigger] self.has_section(s2) <==> old(self).has_section(s2) || (s2 == sid
                        && qi > 0),
                old(self).vertices@.len() == old(self).position_ids@.len() ==> {
                    let ts = quads@.map_values(|q: [V; 4]| q@);
                    &&& self.vertices@.len() == self.position_ids@.len()
                    &&& old(self).vertices@.len() <= self.vertices@.len()
                    &&& (forall|w: int|
                        0 <= w < old(self).position_ids@.len() ==> #[trigger] self.position_ids@[w]
                            == old(self).position_ids@[w])
                    &&& (forall|v: int|
                        0 <= v < old(self).vertices@.len() ==> (#[trigger] self.vertices@[v]).data
                            == spec_last_payload(
                            ts,
                            qi as int,
                            old(self).position_ids@[v],
                            old(self).vertices@[v].data,
                        ))
                    &&& (forall|v: int, dflt: V|
                        old(self).vertices@.len() <= v < self.vertices@.len()
                            ==> #[trigger] spec_last_payload(
                            ts,
                            qi as int,
                            self.position_ids@[v],
                            dflt,
                        ) == self.vertices@[v].data)
                },
            decreases quads@.len() - qi,
        {
            let q = &quads[qi];
            let c0 = q[0];
            let c1 = q[1];
            let c2 = q[2];
            let c3 = q[3];
            proof {
                assert(c0 == quads@[qi as int]@[0]);
                assert(c1 == quads@[qi as int]@[1]);
                assert(c2 == quads@[qi as int]@[2]);
                assert(c3 == quads@[qi as int]@[3]);
            }
            let ghost pre = *self;
            match self.add_face4_data(c0, c1, c2, c3, data) {
                Ok(()) => {
                },
                Err(e) => {
                    proof {
                        assert(!quad_corners_distinct(quads@[qi as int]@));
                        lemma_first_invalid_pin(quads@, 0, qi as int);
                    }
                    return Err(e);
                },
            }
            proof {
                assert(quad_corners_distinct(quads@[qi as int]@));
                // the faces already in place keep their corner positions:
                // an id once assigned to a position never moves
                assert forall|j: int|
                    0 <= j < qi + 1 implies quad_added(
                    *self,
                    sid,
                    base + j,
                    (#[trigger] quads@[j])@,
                    data,
                ) by {
                    if j < qi {
                        let fv = pre.section_views(sid)[base + j];
                        assert(quad_added(pre, sid, base + j, quads@[j]@, data));
                        assert(self.section_views(sid)[base + j] == fv);
                        assert forall|c: int|
                            0 <= c < 4 implies ((#[trigger] fv.verts[c]) as int)
                            < self.position_ids@.len() && self.position_ids@[fv.verts[c] as int]
                            == quads@[j]@[c].spec_position() by {
                            let p = quads@[j]@[c].spec_position();
                            pre.lemma_pos_id_at(fv.verts[c] as int, p);
                            assert(pre.has_pos(p));
                            assert(self.pos_id(p) == pre.pos_id(p));
                            assert(self.has_pos(p));
                            self.lemma_pos_id_witness(p);
                        }
                    } else {
                        let fv = self.section_views(sid)[base + j];
                        assert(fv == self.section_views(sid).last());
                        assert forall|c: int|
                            0 <= c < 4 implies ((#[trigger] fv.verts[c]) as int)
                            < self.position_ids@.len() && self.position_ids@[fv.verts[c] as int]
                            == quads@[j]@[c].spec_position() by {
                            let p = quads@[j]@[c].spec_position();
                            assert(fv.verts[c] as int == self.pos_id(p));
                            self.lemma_pos_id_witness(p);
                        }
                    }
                }
                // last write wins: replaying the accepted tuples describes
                // every payload in the store
                if old(self).vertices@.len() == old(self).position_ids@.len() {
                    assert(pre.vertices@.len() == pre.position_ids@.len());
                    assert(self.vertices@.len() == self.position_ids@.len());
                    assert(pre.vertices@.len() <= self.vertices@.len());
                    let ts = quads@.map_values(|q2: [V; 4]| q2@);
                    let tq = ts[qi as int];
                    assert(tq == quads@[qi as int]@);
                    let p0 = tq[0].spec_position();
                    let p1 = tq[1].spec_position();
                    let p2 = tq[2].spec_position();
                    let p3 = tq[3].spec_position();
                    assert forall|w: int|
                        0 <= w < old(self).position_ids@.len() implies #[trigger] self.position_ids@[w]
                        == old(self).position_ids@[w] by {
                        let p = pre.position_ids@[w];
                        pre.lemma_pos_id_at(w, p);
                        assert(pre.has_pos(p));
                        assert(self.pos_id(p) == pre.pos_id(p));
                        self.lemma_pos_id_witness(p);
                    }
                    assert forall|v: int|
                        0 <= v < old(self).vertices@.len() implies (#[trigger] self.vertices@[
                        v]).data == spec_last_payload(
                        ts,
                        qi + 1,
                        old(self).position_ids@[v],
                        old(self).vertices@[v].data,
                    ) by {
                        let p = old(self).position_ids@[v];
                        assert(self.position_ids@[v] == p);
                        self.lemma_pos_id_at(v, p);
                        if p == p3 {
                            assert(self.vertices@[v].data == tq[3]);
                        } else if p == p2 {
                            assert(self.vertices@[v].data == tq[2]);
                        } else if p == p1 {
                            assert(self.vertices@[v].data == tq[1]);
                        } else if p == p0 {
                            assert(self.vertices@[v].data == tq[0]);
                        } else {
                            // none of the tuple's corners touches this
                            // vertex, so its payload passes through
                            assert(v != self.pos_id(p0) && v != self.pos_id(p1) && v
                                != self.pos_id(p2) && v != self.pos_id(p3)) by {
                                self.lemma_pos_id_witness(p0);
                                self.lemma_pos_id_witness(p1);
                                self.lemma_pos_id_witness(p2);
                                self.lemma_pos_id_witness(p3);
                            }
                            assert(self.vertices@[v].data == pre.vertices@[v].data);
                        }
                    }
                    assert forall|v: int, dflt: V|
                        old(self).vertices@.len() <= v < self.vertices@.len() implies #[trigger] spec_last_payload(
                        ts,
                        qi + 1,
                        self.position_ids@[v],
                        dflt,
                    ) == self.vertices@[v].data by {
                        let p = self.position_ids@[v];
                        self.lemma_pos_id_at(v, p);
                        if p == p3 {
                            assert(self.vertices@[v].data == tq[3]);
                        } else if p == p2 {
                            assert(self.vertices@[v].data == tq[2]);
                        } else if p == p1 {
                            assert(self.vertices@[v].data == tq[1]);
                        } else if p == p0 {
                            assert(self.vertices@[v].data == tq[0]);
                        } else {
                            assert(v != self.pos_id(p0) && v != self.pos_id(p1) && v
                                != self.pos_id(p2) && v != self.pos_id(p3)) by {
                                self.lemma_pos_id_witness(p0);
                                self.lemma_pos_id_witness(p1);
                                self.lemma_pos_id_witness(p2);
                                self.lemma_pos_id_witness(p3);
                            }
                            // the vertex predates this tuple: it was made
                            // by an earlier corner, whose position it keeps
                            assert((v as int) < pre.vertices@.len()) by {
                                if v >= pre.vertices@.len() {
                                    assert(!pre.has_pos(p)) by {
                                        if pre.has_pos(p) {
                                            let w = pre.pos_id(p);
                                            pre.lemma_pos_id_witness(p);
                                            assert(self.position_ids@[w] == p) by {
                                                assert(self.pos_id(p) == pre.pos_id(p));
                                                self.lemma_pos_id_witness(p);
                                            }
                                            assert(w == v);
                                        }
                                    }
                                    assert(p == p0 || p == p1 || p == p2 || p == p3);
                                }
                            }
                            assert(pre.position_ids@[v] == p) by {
                                let pp = pre.position_ids@[v];
                                pre.lemma_pos_id_at(v, pp);
                                assert(pre.has_pos(pp));
                                assert(self.pos_id(pp) == pre.pos_id(pp));
                                self.lemma_pos_id_witness(pp);
                            }
                            assert(spec_last_payload(ts, qi as int, pre.position_ids@[v], dflt)
                                == pre.vertices@[v].data);
                            assert(self.vertices@[v].data == pre.vertices@[v].data);
                        }
                    }
                }
            }
            qi = qi + 1;
        }
        proof {
            lemma_first_invalid_pin(quads@, 0, quads@.len() as int);
        }
        Ok(())
    }
}

} // verus!
