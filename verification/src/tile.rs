//! A cube of voxels, each empty or holding a material index.
use vstd::prelude::*;

verus! {

/// A voxel coordinate `(x, y, z)`.
pub type Coord = (i32, i32, i32);

/// An axis-aligned box of voxel coordinates: `min` is the first corner,
/// `max` is one past the last corner on every axis.
#[derive(Clone, Copy, Debug)]
pub struct VoxelBounds {
    pub min: Coord,
    pub max: Coord,
}

impl VoxelBounds {
    pub open spec fn zero() -> VoxelBounds {
        VoxelBounds { min: (0, 0, 0), max: (0, 0, 0) }
    }
}

/// A cube of `density` voxels on every side.
#[derive(Debug)]
pub struct Tile {
    pub voxels: Vec<Option<u8>>,
    pub density: usize,
    /// The bounds of the voxels that are set, as of the last `update_bbox`.
    pub bbox: VoxelBounds,
    /// The number of set voxels, as of the last `update_bbox`.
    pub voxel_counter: u32,
}

/// The number of set entries among the first `n` of `s`.
pub open spec fn count_set(s: Seq<Option<u8>>, n: int) -> nat
    decreases n,
{
    if n <= 0 {
        0
    } else {
        count_set(s, n - 1) + if s[n - 1] is Some {
            1nat
        } else {
            0nat
        }
    }
}

proof fn lemma_count_set_bound(s: Seq<Option<u8>>, n: int)
    requires
        0 <= n,
    ensures
        count_set(s, n) <= n,
    decreases n,
{
    if n > 0 {
        lemma_count_set_bound(s, n - 1);
    }
}

pub open spec fn in_cube(d: int, c: Coord) -> bool {
    0 <= c.0 < d && 0 <= c.1 < d && 0 <= c.2 < d
}

/// The place of a coordinate in the voxel list: x first, then y, then z.
pub open spec fn index_of(d: int, c: Coord) -> int {
    c.2 * d * d + c.1 * d + c.0
}

pub proof fn lemma_index_bounds(d: int, c: Coord)
    requires
        in_cube(d, c),
    ensures
        0 <= index_of(d, c) < d * d * d,
{
    let (x, y, z) = (c.0 as int, c.1 as int, c.2 as int);
    assert(0 <= z * d * d + y * d + x < d * d * d) by (nonlinear_arith)
        requires
            0 <= x < d,
            0 <= y < d,
            0 <= z < d,
    ;
}

proof fn lemma_digit_split(d: int, x1: int, a1: int, x2: int, a2: int)
    requires
        0 <= x1 < d,
        0 <= x2 < d,
        x1 + d * a1 == x2 + d * a2,
    ensures
        x1 == x2,
        a1 == a2,
{
    assert(a1 == a2) by (nonlinear_arith)
        requires
            0 <= x1 < d,
            0 <= x2 < d,
            x1 + d * a1 == x2 + d * a2,
    ;
}

/// Different coordinates of the cube have different places.
pub proof fn lemma_index_injective(d: int, c1: Coord, c2: Coord)
    requires
        in_cube(d, c1),
        in_cube(d, c2),
        index_of(d, c1) == index_of(d, c2),
    ensures
        c1 == c2,
{
    let (x1, y1, z1) = (c1.0 as int, c1.1 as int, c1.2 as int);
    let (x2, y2, z2) = (c2.0 as int, c2.1 as int, c2.2 as int);
    assert(z1 * d * d + y1 * d + x1 == x1 + d * (y1 + d * z1)) by (nonlinear_arith);
    assert(z2 * d * d + y2 * d + x2 == x2 + d * (y2 + d * z2)) by (nonlinear_arith);
    lemma_digit_split(d, x1, y1 + d * z1, x2, y2 + d * z2);
    assert(y1 + z1 * d == y2 + z2 * d) by (nonlinear_arith)
        requires
            y1 + d * z1 == y2 + d * z2,
    ;
    lemma_digit_split(d, y1, z1, y2, z2);
}

/// The coordinate at a place of the voxel list: the inverse of `index_of`.
pub open spec fn coord_at(d: int, i: int) -> Coord {
    ((i % d) as i32, ((i / d) % d) as i32, (i / (d * d)) as i32)
}

proof fn lemma_coord_at(d: int, i: int)
    requires
        0 <= i < d * d * d,
        d * d * d <= i32::MAX,
    ensures
        in_cube(d, coord_at(d, i)),
        index_of(d, coord_at(d, i)) == i,
{
    assert(d > 0) by (nonlinear_arith)
        requires
            0 <= i < d * d * d,
    ;
    assert(d <= d * d * d) by (nonlinear_arith)
        requires
            d > 0,
    ;
    let q = i / d;
    let x = i % d;
    let y = q % d;
    let z = q / d;
    vstd::arithmetic::div_mod::lemma_fundamental_div_mod(i, d);
    vstd::arithmetic::div_mod::lemma_fundamental_div_mod(q, d);
    vstd::arithmetic::div_mod::lemma_mod_pos_bound(i, d);
    vstd::arithmetic::div_mod::lemma_div_pos_is_pos(i, d);
    vstd::arithmetic::div_mod::lemma_mod_pos_bound(q, d);
    vstd::arithmetic::div_mod::lemma_div_pos_is_pos(q, d);
    vstd::arithmetic::div_mod::lemma_div_denominator(i, d, d);
    assert(z < d) by (nonlinear_arith)
        requires
            i == d * q + x,
            q == d * z + y,
            0 <= x,
            0 <= y,
            i < d * d * d,
            d > 0,
    ;
    assert(z * d * d + y * d + x == i) by (nonlinear_arith)
        requires
            i == d * q + x,
            q == d * z + y,
    ;
}

/// The places of the first `n` entries of `s` that are set.
pub open spec fn set_places(s: Seq<Option<u8>>, n: int) -> Set<int> {
    Set::new(|i: int| 0 <= i < n && s[i] is Some)
}

proof fn lemma_set_places(s: Seq<Option<u8>>, n: int)
    requires
        0 <= n,
    ensures
        set_places(s, n).finite(),
        set_places(s, n).len() == count_set(s, n),
    decreases n,
{
    if n == 0 {
        assert(set_places(s, n) =~= Set::<int>::empty());
    } else {
        lemma_set_places(s, n - 1);
        if s[n - 1] is Some {
            assert(set_places(s, n) =~= set_places(s, n - 1).insert(n - 1));
        } else {
            assert(set_places(s, n) =~= set_places(s, n - 1));
        }
    }
}

/// The coordinate `(x, y, z)` comes before `(bx, by, bz)` in the order in
/// which `update_bbox` visits the cube: by z, then y, then x.
pub open spec fn visited_before(c: Coord, bx: int, by: int, bz: int) -> bool {
    c.2 < bz || (c.2 == bz && (c.1 < by || (c.1 == by && c.0 < bx)))
}

/// What a scan of the cube up to `(x, y, z)` knows: whether a set voxel
/// was seen, and the least and greatest coordinates of the seen ones, each
/// attained by a witness in `w` (least x, y, z, then greatest x, y, z).
pub open spec fn scanned(
    t: Tile,
    x: int,
    y: int,
    z: int,
    found: bool,
    mn: Coord,
    mx: Coord,
    w: Seq<Coord>,
) -> bool {
    &&& !found ==> forall|c: Coord| #[trigger] t.occupied(c) ==> !visited_before(c, x, y, z)
    &&& forall|c: Coord|
        #[trigger] t.occupied(c) && visited_before(c, x, y, z) ==> mn.0 <= c.0 <= mx.0 && mn.1
            <= c.1 <= mx.1 && mn.2 <= c.2 <= mx.2
    &&& found ==> {
        &&& w.len() == 6
        &&& forall|i: int| 0 <= i < 6 ==> #[trigger] t.occupied(w[i]) && visited_before(w[i], x, y, z)
        &&& w[0].0 == mn.0 && w[1].1 == mn.1 && w[2].2 == mn.2
        &&& w[3].0 == mx.0 && w[4].1 == mx.1 && w[5].2 == mx.2
    }
}

proof fn lemma_scanned_transfer(
    t: Tile,
    a: (int, int, int),
    b: (int, int, int),
    found: bool,
    mn: Coord,
    mx: Coord,
    w: Seq<Coord>,
)
    requires
        scanned(t, a.0, a.1, a.2, found, mn, mx, w),
        forall|c: Coord| #[trigger]
            t.occupied(c) ==> (visited_before(c, a.0, a.1, a.2) <==> visited_before(
                c,
                b.0,
                b.1,
                b.2,
            )),
    ensures
        scanned(t, b.0, b.1, b.2, found, mn, mx, w),
{
    if found {
        assert forall|i: int| 0 <= i < 6 implies #[trigger] t.occupied(w[i]) && visited_before(
            w[i],
            b.0,
            b.1,
            b.2,
        ) by {
            assert(t.occupied(w[i]));
        }
    }
}

impl Tile {
    /// The voxel list covers the cube, whose places fit an `i32`.
    pub open spec fn wf(&self) -> bool {
        &&& self.voxels@.len() == self.density * self.density * self.density
        &&& self.density * self.density * self.density <= i32::MAX
    }

    /// The voxel at the coordinate; outside the cube there is none.
    pub open spec fn voxel(&self, c: Coord) -> Option<u8> {
        if in_cube(self.density as int, c) {
            self.voxels@[index_of(self.density as int, c)]
        } else {
            None
        }
    }

    /// The voxel at `c` once `coord` holds `mat`.
    pub open spec fn voxel_after_set(&self, coord: Coord, mat: u8, c: Coord) -> Option<u8> {
        if c == coord && in_cube(self.density as int, c) {
            Some(mat)
        } else {
            self.voxel(c)
        }
    }

    /// The voxel at `c` once `coord` is emptied.
    pub open spec fn voxel_after_clear(&self, coord: Coord, c: Coord) -> Option<u8> {
        if c == coord {
            None
        } else {
            self.voxel(c)
        }
    }

    /// Whether the voxel at the coordinate is set.
    pub open spec fn occupied(&self, c: Coord) -> bool {
        self.voxel(c) is Some
    }

    /// The tile holds some voxel.
    pub open spec fn any_occupied(&self) -> bool {
        exists|c: Coord| #[trigger] self.occupied(c)
    }

    /// The coordinates of the set voxels.
    pub open spec fn occupied_coords(&self) -> Set<Coord> {
        Set::new(|c: Coord| self.occupied(c))
    }

    /// The set voxels are as many as the set entries of the voxel list.
    pub proof fn lemma_occupied_count(&self)
        requires
            self.wf(),
        ensures
            self.occupied_coords().finite(),
            self.occupied_coords().len() == count_set(self.voxels@, self.voxels@.len() as int),
    {
        let d = self.density as int;
        let s = self.voxels@;
        let n = s.len() as int;
        let places = set_places(s, n);
        lemma_set_places(s, n);
        let f = |i: int| coord_at(d, i);
        assert forall|i: int, j: int|
            places.contains(i) && places.contains(j) && #[trigger] f(i) == #[trigger] f(j) implies i
            == j by {
            lemma_coord_at(d, i);
            lemma_coord_at(d, j);
        }
        assert(vstd::relations::injective_on(f, places));
        assert forall|c: Coord| #[trigger] self.occupied_coords().contains(c) implies places.map(
            f,
        ).contains(c) by {
            let i = index_of(d, c);
            lemma_index_bounds(d, c);
            lemma_coord_at(d, i);
            lemma_index_injective(d, coord_at(d, i), c);
            assert(places.contains(i));
            assert(f(i) == c);
        }
        assert forall|c: Coord| #[trigger] places.map(f).contains(c) implies self.occupied_coords().contains(c) by {
            let i = choose|i: int| places.contains(i) && f(i) == c;
            lemma_coord_at(d, i);
        }
        assert(places.map(f) =~= self.occupied_coords());
        vstd::set_lib::lemma_map_size(places, self.occupied_coords(), f);
    }

    /// The bounds are the tightest box around the set voxels, or zero.
    pub open spec fn bounds_fit(&self, b: VoxelBounds) -> bool {
        if self.any_occupied() {
            &&& forall|c: Coord| #[trigger]
                self.occupied(c) ==> b.min.0 <= c.0 < b.max.0 && b.min.1 <= c.1 < b.max.1
                    && b.min.2 <= c.2 < b.max.2
            &&& exists|c: Coord| #[trigger] self.occupied(c) && c.0 == b.min.0
            &&& exists|c: Coord| #[trigger] self.occupied(c) && c.1 == b.min.1
            &&& exists|c: Coord| #[trigger] self.occupied(c) && c.2 == b.min.2
            &&& exists|c: Coord| #[trigger] self.occupied(c) && c.0 + 1 == b.max.0
            &&& exists|c: Coord| #[trigger] self.occupied(c) && c.1 + 1 == b.max.1
            &&& exists|c: Coord| #[trigger] self.occupied(c) && c.2 + 1 == b.max.2
        } else {
            b == VoxelBounds::zero()
        }
    }

    /// An empty tile with `density` voxels on every side.
    pub fn new(density: usize) -> (r: Self)
        requires
            density * density * density <= i32::MAX,
        ensures
            r.wf(),
            r.density == density,
            forall|c: Coord| r.voxel(c) is None,
            r.bbox == VoxelBounds::zero(),
            r.voxel_counter == 0,
    {
        assert(density * density <= density * density * density) by (nonlinear_arith)
            requires
                density * density * density <= i32::MAX,
        ;
        assert(density * density * density <= i32::MAX);
        let total = density * density * density;
        let mut voxels: Vec<Option<u8>> = Vec::new();
        let mut i: usize = 0;
        while i < total
            invariant
                i <= total,
                voxels@.len() == i,
                forall|j: int| 0 <= j < i ==> voxels@[j] is None,
            decreases total - i,
        {
            voxels.push(None);
            i = i + 1;
        }
        let r = Tile { voxels, density, bbox: VoxelBounds { min: (0, 0, 0), max: (0, 0, 0) }, voxel_counter: 0 };
        assert forall|c: Coord| r.voxel(c) is None by {
            if in_cube(density as int, c) {
                lemma_index_bounds(density as int, c);
            }
        }
        r
    }

    /// The place of the coordinate in the voxel list, if it lies in the cube.
    fn index(&self, c: Coord) -> (r: Option<usize>)
        requires
            self.wf(),
        ensures
            match r {
                Some(i) => in_cube(self.density as int, c) && i == index_of(
                    self.density as int,
                    c,
                ) && i < self.voxels@.len(),
                None => !in_cube(self.density as int, c),
            },
    {
        let (x, y, z) = c;
        if x >= 0 && y >= 0 && z >= 0 {
            proof {
                let n = self.density as int;
                assert(n <= n * n * n) by (nonlinear_arith)
                    requires
                        n >= 0,
                ;
            }
            let d = self.density as i32;
            assert(d as int == self.density as int);
            if x < d && y < d && z < d {
                proof {
                    lemma_index_bounds(self.density as int, c);
                    assert(d * d * d <= i32::MAX);
                    assert(d * d <= d * d * d) by (nonlinear_arith)
                        requires
                            d >= 1,
                    ;
                    assert(z * d * d + y * d + x <= d * d * d) by (nonlinear_arith)
                        requires
                            0 <= x < d,
                            0 <= y < d,
                            0 <= z < d,
                    ;
                    assert(z * d <= d * d) by (nonlinear_arith)
                        requires
                            0 <= z < d,
                    ;
                    assert(z * d * d <= d * d * d) by (nonlinear_arith)
                        requires
                            0 <= z < d,
                    ;
                    assert(y * d <= d * d) by (nonlinear_arith)
                        requires
                            0 <= y < d,
                    ;
                    assert(0 <= z * d * d && 0 <= y * d) by (nonlinear_arith)
                        requires
                            0 <= y,
                            0 <= z,
                            0 <= d,
                    ;
                }
                let i = (z * d * d + y * d + x) as usize;
                return Some(i);
            }
        }
        None
    }

    /// The voxel at the coordinate.
    pub fn get(&self, coord: Coord) -> (r: Option<u8>)
        requires
            self.wf(),
        ensures
            r == self.voxel(coord),
    {
        match self.index(coord) {
            Some(i) => self.voxels[i],
            None => None,
        }
    }

    /// Sets the voxel at the coordinate to the material; a coordinate
    /// outside the cube changes nothing.
    pub fn set(&mut self, coord: Coord, mat: u8)
        requires
            old(self).wf(),
        ensures
            final(self).wf(),
            final(self).density == old(self).density,
            final(self).bbox == old(self).bbox,
            final(self).voxel_counter == old(self).voxel_counter,
            forall|c: Coord|
                #![trigger final(self).voxel(c)]
                final(self).voxel(c) == old(self).voxel_after_set(coord, mat, c),
    {
        if let Some(i) = self.index(coord) {
            self.voxels.set(i, Some(mat));
            proof {
                let d = self.density as int;
                assert forall|c: Coord|
                    #![trigger self.voxel(c)]
                    self.voxel(c) == if c == coord && in_cube(d, c) {
                        Some(mat)
                    } else {
                        old(self).voxel(c)
                    } by {
                    if in_cube(d, c) && c != coord {
                        lemma_index_bounds(d, c);
                        if index_of(d, c) == index_of(d, coord) {
                            lemma_index_injective(d, c, coord);
                        }
                    }
                }
            }
        }
    }

    /// Empties the voxel at the coordinate; a coordinate outside the cube
    /// changes nothing.
    pub fn clear(&mut self, coord: Coord)
        requires
            old(self).wf(),
        ensures
            final(self).wf(),
            final(self).density == old(self).density,
            final(self).bbox == old(self).bbox,
            final(self).voxel_counter == old(self).voxel_counter,
            forall|c: Coord|
                #![trigger final(self).voxel(c)]
                final(self).voxel(c) == old(self).voxel_after_clear(coord, c),
    {
        if let Some(i) = self.index(coord) {
            self.voxels.set(i, None);
            proof {
                let d = self.density as int;
                assert forall|c: Coord|
                    #![trigger self.voxel(c)]
                    self.voxel(c) == if c == coord {
                        None
                    } else {
                        old(self).voxel(c)
                    } by {
                    if in_cube(d, c) && c != coord {
                        lemma_index_bounds(d, c);
                        if index_of(d, c) == index_of(d, coord) {
                            lemma_index_injective(d, c, coord);
                        }
                    }
                }
            }
        }
    }

    /// Counts the set voxels and records the tightest box around them.
    pub fn update_bbox(&mut self)
        requires
            old(self).wf(),
        ensures
            final(self).wf(),
            final(self).voxels == old(self).voxels,
            final(self).density == old(self).density,
            final(self).voxel_counter == count_set(old(self).voxels@, old(self).voxels@.len() as int),
            old(self).occupied_coords().finite(),
            final(self).voxel_counter == old(self).occupied_coords().len(),
            (final(self).voxel_counter > 0) == old(self).any_occupied(),
            old(self).bounds_fit(final(self).bbox),
    {
        let ghost t = *self;
        let mut mn: Coord = (i32::MAX, i32::MAX, i32::MAX);
        let mut mx: Coord = (i32::MIN, i32::MIN, i32::MIN);
        let ghost mut w: Seq<Coord> = Seq::empty();
        proof {
            let n = self.density as int;
            assert(n <= n * n * n) by (nonlinear_arith)
                requires
                    n >= 0,
            ;
        }
        let d = self.density as i32;
        let mut counter: u32 = 0;
        let mut z: i32 = 0;
        while z < d
            invariant
                t == *self,
                self.wf(),
                d as int == self.density as int,
                0 <= z <= d,
                counter == count_set(t.voxels@, z * d * d),
                scanned(t, 0, 0, z as int, counter > 0, mn, mx, w),
            decreases d - z,
        {
            let mut y: i32 = 0;
            while y < d
                invariant
                    t == *self,
                    self.wf(),
                    d as int == self.density as int,
                    0 <= z < d,
                    0 <= y <= d,
                    counter == count_set(t.voxels@, z * d * d + y * d),
                    scanned(t, 0, y as int, z as int, counter > 0, mn, mx, w),
                decreases d - y,
            {
                let mut x: i32 = 0;
                while x < d
                    invariant
                        t == *self,
                        self.wf(),
                        d as int == self.density as int,
                        0 <= z < d,
                        0 <= y < d,
                        0 <= x <= d,
                        counter == count_set(t.voxels@, z * d * d + y * d + x),
                        scanned(t, x as int, y as int, z as int, counter > 0, mn, mx, w),
                    decreases d - x,
                {
                    let c: Coord = (x, y, z);
                    let ghost old_found = counter > 0;
                    let ghost old_w = w;
                    proof {
                        lemma_index_bounds(d as int, c);
                        lemma_count_set_bound(t.voxels@, index_of(d as int, c));
                    }
                    if self.get(c).is_some() {
                        proof {
                            if counter == 0 {
                                w = seq![c, c, c, c, c, c];
                            }
                        }
                        if counter == 0 || x < mn.0 {
                            mn.0 = x;
                            proof {
                                w = w.update(0, c);
                            }
                        }
                        if counter == 0 || y < mn.1 {
                            mn.1 = y;
                            proof {
                                w = w.update(1, c);
                            }
                        }
                        if counter == 0 || z < mn.2 {
                            mn.2 = z;
                            proof {
                                w = w.update(2, c);
                            }
                        }
                        if counter == 0 || x > mx.0 {
                            mx.0 = x;
                            proof {
                                w = w.update(3, c);
                            }
                        }
                        if counter == 0 || y > mx.1 {
                            mx.1 = y;
                            proof {
                                w = w.update(4, c);
                            }
                        }
                        if counter == 0 || z > mx.2 {
                            mx.2 = z;
                            proof {
                                w = w.update(5, c);
                            }
                        }
                        counter = counter + 1;
                        proof {
                            assert(t.occupied(c));
                            assert forall|c2: Coord|
                                #[trigger] t.occupied(c2) && visited_before(
                                    c2,
                                    x + 1,
                                    y as int,
                                    z as int,
                                ) implies mn.0 <= c2.0 <= mx.0 && mn.1 <= c2.1 <= mx.1 && mn.2
                                <= c2.2 <= mx.2 by {
                                if c2 != c {
                                    assert(visited_before(c2, x as int, y as int, z as int));
                                }
                            }
                            assert forall|i: int| 0 <= i < 6 implies #[trigger] t.occupied(w[i])
                                && visited_before(w[i], x + 1, y as int, z as int) by {
                                if w[i] != c {
                                    assert(old_found);
                                    assert(w[i] == old_w[i]);
                                    assert(t.occupied(old_w[i]));
                                }
                            }
                        }
                    } else {
                        proof {
                            lemma_scanned_transfer(
                                t,
                                (x as int, y as int, z as int),
                                (x + 1, y as int, z as int),
                                counter > 0,
                                mn,
                                mx,
                                w,
                            );
                        }
                    }
                    x = x + 1;
                }
                assert forall|c: Coord| #[trigger] t.occupied(c) implies (visited_before(
                    c,
                    d as int,
                    y as int,
                    z as int,
                ) <==> visited_before(c, 0, y + 1, z as int)) by {}
                proof {
                    lemma_scanned_transfer(
                        t,
                        (d as int, y as int, z as int),
                        (0, y + 1, z as int),
                        counter > 0,
                        mn,
                        mx,
                        w,
                    );
                    assert(z * d * d + y * d + d == z * d * d + (y + 1) * d) by (nonlinear_arith);
                }
                y = y + 1;
            }
            assert forall|c: Coord| #[trigger] t.occupied(c) implies (visited_before(
                c,
                0,
                d as int,
                z as int,
            ) <==> visited_before(c, 0, 0, z + 1)) by {}
            proof {
                lemma_scanned_transfer(
                    t,
                    (0, d as int, z as int),
                    (0, 0, z + 1),
                    counter > 0,
                    mn,
                    mx,
                    w,
                );
                assert(z * d * d + d * d == (z + 1) * d * d) by (nonlinear_arith);
            }
            z = z + 1;
        }
        assert forall|c: Coord| #[trigger] t.occupied(c) implies visited_before(
            c,
            0,
            0,
            d as int,
        ) by {}
        proof {
            t.lemma_occupied_count();
        }
        self.voxel_counter = counter;
        if counter > 0 {
            proof {
                assert(t.occupied(w[3]) && t.occupied(w[4]) && t.occupied(w[5]));
            }
            self.bbox = VoxelBounds { min: mn, max: (mx.0 + 1, mx.1 + 1, mx.2 + 1) };
            proof {
                assert(t.occupied(w[0]));
                assert(t.occupied(w[1]));
                assert(t.occupied(w[2]));
            }
        } else {
            self.bbox = VoxelBounds { min: (0, 0, 0), max: (0, 0, 0) };
        }
    }

    /// Whether the tile held no voxel at the last `update_bbox`.
    pub fn is_empty(&self) -> (r: bool)
        ensures
            r == (self.voxel_counter == 0),
    {
        self.voxel_counter == 0
    }
}

/// Reading a voxel of the cube after setting it gives the material that was
/// set; every other voxel reads as before.
pub proof fn law_get_after_set(t: Tile, coord: Coord, mat: u8, c: Coord)
    requires
        t.wf(),
    ensures
        in_cube(t.density as int, coord) ==> t.voxel_after_set(coord, mat, coord) == Some(mat),
        c != coord ==> t.voxel_after_set(coord, mat, c) == t.voxel(c),
{
}

/// Emptying a voxel after setting it leaves the tile as if it had only been
/// emptied.
pub proof fn law_clear_after_set(t: Tile, t1: Tile, coord: Coord, mat: u8, c: Coord)
    requires
        t.wf(),
        t1.wf(),
        t1.density == t.density,
        forall|d: Coord| #[trigger] t1.voxel(d) == t.voxel_after_set(coord, mat, d),
    ensures
        t1.voxel_after_clear(coord, c) == t.voxel_after_clear(coord, c),
{
    assert(t1.voxel(c) == t.voxel_after_set(coord, mat, c));
}

/// Outside the cube there is no voxel, whatever was set.
pub proof fn law_outside_cube_empty(t: Tile, coord: Coord, mat: u8)
    requires
        t.wf(),
        !in_cube(t.density as int, coord),
    ensures
        t.voxel(coord) is None,
        t.voxel_after_set(coord, mat, coord) is None,
{
}

} // verus!
