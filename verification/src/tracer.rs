//! How an image is cut into tiles for rendering.
use vstd::prelude::*;
use vstd::arithmetic::div_mod::lemma_fundamental_div_mod_converse;

verus! {

/// A rectangle of the image: its corner and its size.
#[derive(Clone, Copy, Debug, PartialEq, Eq, Structural)]
pub struct Tile {
    pub x: usize,
    pub y: usize,
    pub width: usize,
    pub height: usize,
}

/// Renders images tile by tile.
#[derive(Debug)]
pub struct Tracer {}

/// How many tiles of size `d` it takes to cover `n` (none for an empty side).
pub open spec fn tiles_across(n: int, d: int) -> int {
    if n <= 0 {
        0
    } else {
        (n + d - 1) / d
    }
}

/// The `k`-th tile of a cover with `cols` tiles to a row.
pub open spec fn tile_of(k: int, cols: int, tw: usize, th: usize) -> Tile {
    Tile {
        x: ((k % cols) * tw) as usize,
        y: ((k / cols) * th) as usize,
        width: tw,
        height: th,
    }
}

/// A tile starts inside the side exactly when it is among the first
/// `tiles_across` ones.
proof fn lemma_tiles_across(n: int, d: int, i: int)
    requires
        n > 0,
        d > 0,
        i >= 0,
    ensures
        i * d < n <==> i < tiles_across(n, d),
        tiles_across(n, d) >= 1,
{
    let q = (n + d - 1) / d;
    let r = (n + d - 1) % d;
    assert(q * d + r == n + d - 1 && 0 <= r < d) by (nonlinear_arith)
        requires
            d > 0,
            q == (n + d - 1) / d,
            r == (n + d - 1) % d,
    ;
    if i < q {
        assert(i * d < n) by (nonlinear_arith)
            requires
                0 <= i < q,
                q * d + r == n + d - 1,
                0 <= r < d,
                d > 0,
        ;
    } else {
        assert(i * d >= n) by (nonlinear_arith)
            requires
                i >= q,
                q * d + r == n + d - 1,
                0 <= r < d,
                d > 0,
        ;
    }
    assert(q >= 1) by (nonlinear_arith)
        requires
            q * d + r == n + d - 1,
            0 <= r < d,
            d > 0,
            n > 0,
    ;
}

impl Tracer {
    pub fn new() -> (r: Self) {
        Tracer {}
    }

    /// The tiles that cover an image, row by row from the top left: each
    /// `tile_width` by `tile_height`, the last of a row or column reaching
    /// past the image where the sizes do not divide evenly.
    pub fn create_tiles(
        &self,
        image_width: usize,
        image_height: usize,
        tile_width: usize,
        tile_height: usize,
    ) -> (r: Vec<Tile>)
        requires
            image_width > 0 && image_height > 0 ==> tile_width > 0 && tile_height > 0,
            image_width + tile_width <= usize::MAX,
            image_height + tile_height <= usize::MAX,
        ensures
            ({
                let cols = tiles_across(image_width as int, tile_width as int);
                let rows = tiles_across(image_height as int, tile_height as int);
                &&& r.len() == cols * rows
                &&& forall|k: int|
                    0 <= k < r.len() ==> #[trigger] r[k] == tile_of(k, cols, tile_width, tile_height)
            }),
    {
        let mut tiles: Vec<Tile> = Vec::new();
        if image_width == 0 || image_height == 0 {
            proof {
                let cols = tiles_across(image_width as int, tile_width as int);
                let rows = tiles_across(image_height as int, tile_height as int);
                assert(cols == 0 || rows == 0);
                assert(cols * rows == 0) by (nonlinear_arith)
                    requires
                        cols == 0 || rows == 0,
                ;
            }
            return tiles;
        }
        let ghost w = image_width as int;
        let ghost h = image_height as int;
        let ghost tw = tile_width as int;
        let ghost th = tile_height as int;
        let ghost cols = tiles_across(w, tw);
        let ghost rows = tiles_across(h, th);
        proof {
            lemma_tiles_across(w, tw, 0);
            lemma_tiles_across(h, th, 0);
        }
        let mut x: usize = 0;
        let mut y: usize = 0;
        let ghost mut i: int = 0;
        let ghost mut j: int = 0;
        while x < image_width && y < image_height
            invariant
                w == image_width,
                h == image_height,
                tw == tile_width,
                th == tile_height,
                w > 0 && h > 0 && tw > 0 && th > 0,
                cols == tiles_across(w, tw),
                rows == tiles_across(h, th),
                cols >= 1,
                image_width + tile_width <= usize::MAX,
                image_height + tile_height <= usize::MAX,
                0 <= i < cols,
                0 <= j <= rows,
                x == i * tw,
                y == j * th,
                (y < h) == (j < rows),
                j < rows || i == 0,
                tiles.len() == j * cols + i,
                forall|k: int|
                    0 <= k < tiles.len() ==> #[trigger] tiles[k] == tile_of(k, cols, tile_width, tile_height),
            decreases (rows - j) * cols - i,
        {
            let ghost k = tiles.len() as int;
            let ghost measure = (rows - j) * cols - i;
            proof {
                lemma_fundamental_div_mod_converse(k, cols, j, i);
            }
            tiles.push(Tile { x, y, width: tile_width, height: tile_height });
            x = x + tile_width;
            proof {
                assert(x == (i + 1) * tw) by (nonlinear_arith)
                    requires
                        x == i * tw + tw,
                ;
                i = i + 1;
                lemma_tiles_across(w, tw, i);
            }
            if x >= image_width {
                x = 0;
                y = y + tile_height;
                proof {
                    assert(i == cols);
                    assert(tiles.len() == (j + 1) * cols) by (nonlinear_arith)
                        requires
                            tiles.len() == j * cols + i,
                            i == cols,
                    ;
                    i = 0;
                    j = j + 1;
                    assert(y == j * th) by (nonlinear_arith)
                        requires
                            y == (j - 1) * th + th,
                    ;
                    lemma_tiles_across(h, th, j);
                }
            }
            proof {
                assert((rows - j) * cols - i >= 0 && (rows - j) * cols - i < measure)
                    by (nonlinear_arith)
                    requires
                        0 <= j <= rows,
                        0 <= i <= cols,
                        (j < rows) || (i == 0),
                        measure == (rows - (j - 1)) * cols - (cols - 1) || measure == (rows - j)
                            * cols - (i - 1),
                ;
            }
        }
        proof {
            lemma_tiles_across(w, tw, i);
            assert(j == rows);
            assert(tiles.len() == rows * cols);
        }
        tiles
    }
}

/// Every pixel of the image lies in exactly one tile of the cover: the one
/// in the pixel's row of tiles and column of tiles.
pub proof fn law_tiles_cover_once(w: usize, h: usize, tw: usize, th: usize, px: int, py: int, k: int)
    requires
        w > 0 && h > 0 && tw > 0 && th > 0,
        w + tw <= usize::MAX,
        h + th <= usize::MAX,
        0 <= px < w,
        0 <= py < h,
        0 <= k < tiles_across(w as int, tw as int) * tiles_across(h as int, th as int),
    ensures
        ({
            let cols = tiles_across(w as int, tw as int);
            let t = tile_of(k, cols, tw, th);
            (t.x <= px < t.x + t.width && t.y <= py < t.y + t.height) <==> k == (py / th as int)
                * cols + px / tw as int
        }),
{
    let cols = tiles_across(w as int, tw as int);
    let rows = tiles_across(h as int, th as int);
    lemma_tiles_across(w as int, tw as int, 0);
    lemma_tiles_across(h as int, th as int, 0);
    let i = k % cols;
    let j = k / cols;
    assert(k == j * cols + i && 0 <= i < cols && 0 <= j) by (nonlinear_arith)
        requires
            cols >= 1,
            k >= 0,
            i == k % cols,
            j == k / cols,
    ;
    assert(j < rows) by (nonlinear_arith)
        requires
            k == j * cols + i,
            0 <= i,
            k < cols * rows,
            cols >= 1,
    ;
    lemma_tiles_across(w as int, tw as int, i);
    lemma_tiles_across(h as int, th as int, j);
    assert(i * tw < w && j * th < h);
    let t = tile_of(k, cols, tw, th);
    assert(t.x == i * tw && t.y == j * th);
    let a = px / tw as int;
    let b = py / th as int;
    let ghost ra = px % tw as int;
    let ghost rb = py % th as int;
    assert(px == a * tw + ra && 0 <= ra < tw) by (nonlinear_arith)
        requires
            tw > 0,
            px >= 0,
            a == px / tw as int,
            ra == px % tw as int,
    ;
    assert(py == b * th + rb && 0 <= rb < th) by (nonlinear_arith)
        requires
            th > 0,
            py >= 0,
            b == py / th as int,
            rb == py % th as int,
    ;
    if t.x <= px < t.x + t.width && t.y <= py < t.y + t.height {
        assert(a == i) by (nonlinear_arith)
            requires
                i * tw <= px < i * tw + tw,
                px == a * tw + ra,
                0 <= ra < tw,
                tw > 0,
        ;
        assert(b == j) by (nonlinear_arith)
            requires
                j * th <= py < j * th + th,
                py == b * th + rb,
                0 <= rb < th,
                th > 0,
        ;
    }
    if k == b * cols + a {
        assert(a >= 0 && b >= 0) by (nonlinear_arith)
            requires
                px >= 0,
                py >= 0,
                tw > 0,
                th > 0,
                a == px / tw as int,
                b == py / th as int,
        ;
        assert(a * tw <= px) by (nonlinear_arith)
            requires
                px == a * tw + ra,
                ra >= 0,
        ;
        lemma_tiles_across(w as int, tw as int, a);
        assert(a < cols);
        lemma_fundamental_div_mod_converse(k, cols, b, a);
        assert(a == i && b == j);
        assert(i * tw <= px < i * tw + tw) by (nonlinear_arith)
            requires
                px == a * tw + ra,
                0 <= ra < tw,
                a == i,
        ;
        assert(j * th <= py < j * th + th) by (nonlinear_arith)
            requires
                py == b * th + rb,
                0 <= rb < th,
                b == j,
        ;
    }
}

} // verus!
