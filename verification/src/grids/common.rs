use vstd::prelude::*;
use vstd::std_specs::convert::FromSpecImpl;
use vstd::std_specs::convert::FromSpec;

verus! {

/// Kinds of grids a targeting request may refer to.
#[derive(Clone, Copy, Debug, PartialEq, Eq, Structural)]
pub enum GridType {
    Obstacles,
}

/// A cell of a grid: column `x`, row `y`.
#[derive(Clone, Copy, Debug, PartialEq, Eq, Structural, Hash)]
pub struct GridCoords {
    pub x: i32,
    pub y: i32,
}

/// The cell `c` lies inside a grid of `width` columns and `height` rows.
pub open spec fn in_bounds(c: GridCoords, width: int, height: int) -> bool {
    0 <= c.x < width && 0 <= c.y < height
}

/// The cell `(c.x + dx, c.y + dy)`.
pub open spec fn shifted_spec(c: GridCoords, dx: int, dy: int) -> GridCoords {
    GridCoords { x: (c.x + dx) as i32, y: (c.y + dy) as i32 }
}

/// The number of moves along the axes from `a` to `b`.
pub open spec fn manhattan(a: GridCoords, b: GridCoords) -> int {
    let dx = a.x - b.x;
    let dy = a.y - b.y;
    (if dx < 0 {
        -dx
    } else {
        dx
    }) + (if dy < 0 {
        -dy
    } else {
        dy
    })
}

impl GridCoords {
    pub fn is_in_bounds(&self, bounds: (i32, i32)) -> (r: bool)
        ensures
            r == in_bounds(*self, bounds.0 as int, bounds.1 as int),
    {
        let (width, height) = bounds;
        self.x >= 0 && self.x < width && self.y >= 0 && self.y < height
    }

    /// Whether every cell `imprint` covers at `self` lies in a grid with `bounds`.
    pub fn is_imprint_in_bounds(&self, imprint: &GridImprint, bounds: (i32, i32)) -> (r: bool)
        ensures
            r == imprint_in_bounds(*imprint, *self, bounds.0 as int, bounds.1 as int),
    {
        match imprint {
            GridImprint::Rectangle { width, height } => {
                let (w, h) = (*width as i64, *height as i64);
                let (x, y) = (self.x as i64, self.y as i64);
                w <= 0 || h <= 0 || (0 <= x && x + w <= bounds.0 as i64 && 0 <= y && y + h
                    <= bounds.1 as i64)
            },
        }
    }

    /// The number of moves along the axes from `self` to `other`.
    pub fn manhattan_distance(&self, other: &GridCoords) -> (r: i64)
        ensures
            r == manhattan(*self, *other),
    {
        let dx = self.x as i64 - other.x as i64;
        let dy = self.y as i64 - other.y as i64;
        (if dx < 0 {
            -dx
        } else {
            dx
        }) + (if dy < 0 {
            -dy
        } else {
            dy
        })
    }

    pub fn shifted(&self, delta: (i32, i32)) -> (r: Self)
        requires
            i32::MIN <= self.x + delta.0 <= i32::MAX,
            i32::MIN <= self.y + delta.1 <= i32::MAX,
        ensures
            r.x == self.x + delta.0,
            r.y == self.y + delta.1,
    {
        let (dx, dy) = delta;
        GridCoords { x: self.x + dx, y: self.y + dy }
    }
}

impl Default for GridCoords {
    fn default() -> (r: Self)
        ensures
            r.x == 0 && r.y == 0,
    {
        GridCoords { x: 0, y: 0 }
    }
}

impl From<(i32, i32)> for GridCoords {
    fn from(coords: (i32, i32)) -> (r: Self) {
        GridCoords { x: coords.0, y: coords.1 }
    }
}

impl FromSpecImpl<(i32, i32)> for GridCoords {
    open spec fn obeys_from_spec() -> bool {
        true
    }

    open spec fn from_spec(coords: (i32, i32)) -> Self {
        GridCoords { x: coords.0, y: coords.1 }
    }
}

impl From<GridCoords> for (i32, i32) {
    fn from(coords: GridCoords) -> (r: Self) {
        (coords.x, coords.y)
    }
}

impl FromSpecImpl<GridCoords> for (i32, i32) {
    open spec fn obeys_from_spec() -> bool {
        true
    }

    open spec fn from_spec(coords: GridCoords) -> Self {
        (coords.x, coords.y)
    }
}

/// The shape a grid object occupies, anchored at its bottom-left cell.
#[derive(Clone, Copy, Debug, PartialEq, Eq, Structural)]
pub enum GridImprint {
    Rectangle { width: i32, height: i32 },
}

/// `c` is one of the cells that an imprint of `imprint` anchored at `origin` covers.
pub open spec fn imprint_covers(imprint: GridImprint, origin: GridCoords, c: GridCoords) -> bool {
    match imprint {
        GridImprint::Rectangle { width, height } => {
            origin.x <= c.x < origin.x + width && origin.y <= c.y < origin.y + height
        },
    }
}

/// All cells covered by `imprint` at `origin` can be named without leaving the `i32` range.
pub open spec fn imprint_fits_i32(imprint: GridImprint, origin: GridCoords) -> bool {
    match imprint {
        GridImprint::Rectangle { width, height } => {
            origin.x + width <= i32::MAX + 1 && origin.y + height <= i32::MAX + 1
        },
    }
}

/// Position, in the row-by-row storage of a grid `width` cells wide, of the cell at offset
/// `(dx, dy)` from `origin`.
pub open spec fn storage_pos(origin: GridCoords, width: int, dx: int, dy: int) -> int {
    (origin.y + dy) * width + origin.x + dx
}

/// Placing `imprint` at `origin` on a grid `width` cells wide writes storage position `i`:
/// the position of a covered cell, which for a cell past the end of a row is a cell of a
/// following row.
pub open spec fn imprint_writes(imprint: GridImprint, origin: GridCoords, width: int, i: int) -> bool {
    match imprint {
        GridImprint::Rectangle { width: iw, height: ih } => exists|dx: int, dy: int|
            0 <= dx < iw && 0 <= dy < ih && #[trigger] storage_pos(origin, width, dx, dy) == i,
    }
}

/// Placing `imprint` at `origin` on a grid `width` cells wide with `len` stored fields only
/// writes stored positions, and the positions can be computed within `i32`.
pub open spec fn imprint_storage_ok(imprint: GridImprint, origin: GridCoords, width: int, len: int) -> bool {
    match imprint {
        GridImprint::Rectangle { width: iw, height: ih } => forall|dx: int, dy: int|
            0 <= dx < iw && 0 <= dy < ih ==> #[trigger] offset_storage_ok(origin, width, len, dx, dy),
    }
}

/// The cell at offset `(dx, dy)` from `origin` can be named and located within `i32`, and its
/// storage position is one of the `len` stored positions.
pub open spec fn offset_storage_ok(origin: GridCoords, width: int, len: int, dx: int, dy: int) -> bool {
    &&& origin.x + dx <= i32::MAX
    &&& origin.y + dy <= i32::MAX
    &&& i32::MIN <= (origin.y + dy) * width <= i32::MAX
    &&& 0 <= storage_pos(origin, width, dx, dy) < len
}

/// No two covered cells share a storage position.
pub open spec fn imprint_positions_distinct(imprint: GridImprint, origin: GridCoords, width: int) -> bool {
    match imprint {
        GridImprint::Rectangle { width: iw, height: ih } => forall|dx1: int, dy1: int, dx2: int, dy2: int|
            0 <= dx1 < iw && 0 <= dy1 < ih && 0 <= dx2 < iw && 0 <= dy2 < ih && (dx1 != dx2 || dy1
                != dy2) ==> #[trigger] storage_pos(origin, width, dx1, dy1) != #[trigger] storage_pos(
                origin,
                width,
                dx2,
                dy2,
            ),
    }
}

/// Storage position `i` is written by the offsets of `imprint` that come, row by row, before
/// offset `(x, y)`.
pub open spec fn imprint_prefix_writes(
    origin: GridCoords,
    width: int,
    iw: int,
    y: int,
    x: int,
    i: int,
) -> bool {
    exists|dx: int, dy: int|
        ((0 <= dy < y && 0 <= dx < iw) || (dy == y && 0 <= dx < x)) && #[trigger] storage_pos(
            origin,
            width,
            dx,
            dy,
        ) == i
}

/// Taking one more offset of a row into the walk adds exactly that offset's storage position.
pub proof fn lemma_prefix_writes_step(origin: GridCoords, width: int, iw: int, y: int, x: int, i: int)
    requires
        0 <= x < iw,
        0 <= y,
    ensures
        imprint_prefix_writes(origin, width, iw, y, x + 1, i) <==> (imprint_prefix_writes(
            origin,
            width,
            iw,
            y,
            x,
            i,
        ) || i == storage_pos(origin, width, x, y)),
{
    if imprint_prefix_writes(origin, width, iw, y, x + 1, i) {
        let (dx, dy) = choose|dx: int, dy: int|
            ((0 <= dy < y && 0 <= dx < iw) || (dy == y && 0 <= dx < x + 1)) && #[trigger] storage_pos(
                origin,
                width,
                dx,
                dy,
            ) == i;
        if !(dx == x && dy == y) {
            assert(storage_pos(origin, width, dx, dy) == i);
        }
    }
    if imprint_prefix_writes(origin, width, iw, y, x, i) {
        let (dx, dy) = choose|dx: int, dy: int|
            ((0 <= dy < y && 0 <= dx < iw) || (dy == y && 0 <= dx < x)) && #[trigger] storage_pos(
                origin,
                width,
                dx,
                dy,
            ) == i;
        assert(storage_pos(origin, width, dx, dy) == i);
    }
    if i == storage_pos(origin, width, x, y) {
        assert(storage_pos(origin, width, x, y) == i);
    }
}

/// A walk through a whole row is a walk up to the start of the next row.
pub proof fn lemma_prefix_writes_row(origin: GridCoords, width: int, iw: int, y: int, i: int)
    requires
        0 <= y,
    ensures
        imprint_prefix_writes(origin, width, iw, y, iw, i) <==> imprint_prefix_writes(
            origin,
            width,
            iw,
            y + 1,
            0,
            i,
        ),
{
    if imprint_prefix_writes(origin, width, iw, y, iw, i) {
        let (dx, dy) = choose|dx: int, dy: int|
            ((0 <= dy < y && 0 <= dx < iw) || (dy == y && 0 <= dx < iw)) && #[trigger] storage_pos(
                origin,
                width,
                dx,
                dy,
            ) == i;
        assert(storage_pos(origin, width, dx, dy) == i);
    }
    if imprint_prefix_writes(origin, width, iw, y + 1, 0, i) {
        let (dx, dy) = choose|dx: int, dy: int|
            ((0 <= dy < y + 1 && 0 <= dx < iw) || (dy == y + 1 && 0 <= dx < 0)) && #[trigger] storage_pos(
                origin,
                width,
                dx,
                dy,
            ) == i;
        assert(storage_pos(origin, width, dx, dy) == i);
    }
}

/// A walk through all rows writes exactly what the imprint writes.
pub proof fn lemma_prefix_writes_all(origin: GridCoords, width: int, iw: i32, ih: i32, i: int)
    requires
        0 <= ih,
    ensures
        imprint_prefix_writes(origin, width, iw as int, ih as int, 0, i) <==> imprint_writes(
            GridImprint::Rectangle { width: iw, height: ih },
            origin,
            width,
            i,
        ),
{
    if imprint_prefix_writes(origin, width, iw as int, ih as int, 0, i) {
        let (dx, dy) = choose|dx: int, dy: int|
            ((0 <= dy < ih && 0 <= dx < iw) || (dy == ih && 0 <= dx < 0)) && #[trigger] storage_pos(
                origin,
                width,
                dx,
                dy,
            ) == i;
        assert(storage_pos(origin, width, dx, dy) == i);
    }
    if imprint_writes(GridImprint::Rectangle { width: iw, height: ih }, origin, width, i) {
        let (dx, dy) = choose|dx: int, dy: int|
            0 <= dx < iw && 0 <= dy < ih && #[trigger] storage_pos(origin, width, dx, dy) == i;
        assert(storage_pos(origin, width, dx, dy) == i);
    }
}

/// For an imprint inside the grid, the storage positions it writes are those of the cells it
/// covers, and they are stored positions.
pub proof fn lemma_imprint_in_bounds_storage(
    imprint: GridImprint,
    origin: GridCoords,
    width: int,
    height: int,
)
    requires
        imprint_in_bounds(imprint, origin, width, height),
        0 <= width,
        0 <= height,
        width * height <= i32::MAX,
    ensures
        imprint_storage_ok(imprint, origin, width, width * height),
        forall|c: GridCoords|
            in_bounds(c, width, height) ==> (#[trigger] imprint_writes(
                imprint,
                origin,
                width,
                c.y * width + c.x,
            ) <==> imprint_covers(imprint, origin, c)),
{
    match imprint {
        GridImprint::Rectangle { width: iw, height: ih } => {
            if iw > 0 && ih > 0 {
                assert forall|dx: int, dy: int| 0 <= dx < iw && 0 <= dy < ih implies #[trigger] offset_storage_ok(
                    origin,
                    width,
                    width * height,
                    dx,
                    dy,
                ) by {
                    let yy = origin.y + dy;
                    let xx = origin.x + dx;
                    assert(0 <= yy < height && 0 <= xx < width);
                    assert(width <= width * height && height <= width * height) by (nonlinear_arith)
                        requires
                            height >= 1,
                            width >= 1,
                    ;
                    assert(0 <= yy * width <= width * height - width && 0 <= yy * width + xx < width
                        * height) by (nonlinear_arith)
                        requires
                            0 <= yy < height,
                            0 <= xx < width,
                    ;
                    assert(storage_pos(origin, width, dx, dy) == yy * width + xx);
                }
                assert(imprint_storage_ok(imprint, origin, width, width * height));
                assert forall|c: GridCoords| in_bounds(c, width, height) implies (
                #[trigger] imprint_writes(imprint, origin, width, c.y * width + c.x)
                    <==> imprint_covers(imprint, origin, c)) by {
                    if imprint_covers(imprint, origin, c) {
                        let dx = c.x - origin.x;
                        let dy = c.y - origin.y;
                        assert(storage_pos(origin, width, dx, dy) == c.y * width + c.x);
                    }
                    if imprint_writes(imprint, origin, width, c.y * width + c.x) {
                        let (dx, dy) = choose|dx: int, dy: int|
                            0 <= dx < iw && 0 <= dy < ih && #[trigger] storage_pos(
                                origin,
                                width,
                                dx,
                                dy,
                            ) == c.y * width + c.x;
                        let yy = origin.y + dy;
                        let xx = origin.x + dx;
                        assert(yy == c.y && xx == c.x) by (nonlinear_arith)
                            requires
                                0 <= yy < height,
                                0 <= xx < width,
                                0 <= c.x < width,
                                0 <= c.y < height,
                                yy * width + xx == c.y * width + c.x,
                        ;
                    }
                }
            } else {
                assert forall|c: GridCoords| in_bounds(c, width, height) implies (
                #[trigger] imprint_writes(imprint, origin, width, c.y * width + c.x)
                    <==> imprint_covers(imprint, origin, c)) by {
                }
                assert(imprint_storage_ok(imprint, origin, width, width * height));
            }
        },
    }
}

/// Every cell covered by `imprint` at `origin` lies in a grid of `width` x `height` cells.
pub open spec fn imprint_in_bounds(
    imprint: GridImprint,
    origin: GridCoords,
    width: int,
    height: int,
) -> bool {
    match imprint {
        GridImprint::Rectangle { width: w, height: h } => {
            w <= 0 || h <= 0 || (0 <= origin.x && origin.x + w <= width && 0 <= origin.y
                && origin.y + h <= height)
        },
    }
}

/// `c` is among the cells of a `width`-wide rectangle at `origin` that a row-by-row walk
/// visits before reaching column `col` of row `row` (both counted from the origin).
pub open spec fn rect_prefix_covers(
    origin: GridCoords,
    width: int,
    row: int,
    col: int,
    c: GridCoords,
) -> bool {
    &&& origin.x <= c.x < origin.x + width
    &&& origin.y <= c.y
    &&& (c.y < origin.y + row || (c.y == origin.y + row && c.x < origin.x + col))
}

/// Number of cells an imprint covers.
pub open spec fn imprint_area(imprint: GridImprint) -> int {
    match imprint {
        GridImprint::Rectangle { width, height } => {
            if width > 0 && height > 0 {
                width * height
            } else {
                0
            }
        },
    }
}

/// The cells `imprint` covers at `origin`, row by row, bottom row first, each row from left
/// to right.
pub open spec fn covered_cells(imprint: GridImprint, origin: GridCoords) -> Seq<GridCoords> {
    match imprint {
        GridImprint::Rectangle { width, height } => {
            if width > 0 && height > 0 {
                Seq::new(
                    (width * height) as nat,
                    |i: int| shifted_spec(origin, i % (width as int), i / (width as int)),
                )
            } else {
                Seq::empty()
            }
        },
    }
}

/// A sequence laid out row by row over a rectangle is the sequence of its covered cells.
pub proof fn lemma_covered_cells(imprint: GridImprint, origin: GridCoords, s: Seq<GridCoords>)
    requires
        s.len() == imprint_area(imprint),
        match imprint {
            GridImprint::Rectangle { width, height } => forall|x: int, y: int|
                0 <= x < width && 0 <= y < height ==> #[trigger] s[y * width + x] == shifted_spec(
                    origin,
                    x,
                    y,
                ),
        },
    ensures
        s == covered_cells(imprint, origin),
{
    match imprint {
        GridImprint::Rectangle { width, height } => {
            if width > 0 && height > 0 {
                let w = width as int;
                let h = height as int;
                assert forall|i: int| 0 <= i < s.len() implies #[trigger] s[i] == shifted_spec(
                    origin,
                    i % w,
                    i / w,
                ) by {
                    let x = i % w;
                    let y = i / w;
                    assert(0 <= x < w && 0 <= y < h && y * w + x == i) by (nonlinear_arith)
                        requires
                            w > 0,
                            h > 0,
                            0 <= i < w * h,
                            x == i % w,
                            y == i / w,
                    ;
                    assert(s[y * width + x] == shifted_spec(origin, x, y));
                }
                assert(s =~= covered_cells(imprint, origin));
            } else {
                assert(s =~= covered_cells(imprint, origin));
            }
        },
    }
}

impl GridImprint {
    /// Whether the imprint anchored at `origin` covers `coords`.
    pub fn covers_coords(&self, origin: GridCoords, coords: GridCoords) -> (r: bool)
        ensures
            r == imprint_covers(*self, origin, coords),
    {
        match self {
            GridImprint::Rectangle { width, height } => {
                let (ox, oy) = (origin.x as i64, origin.y as i64);
                let (x, y) = (coords.x as i64, coords.y as i64);
                ox <= x && x < ox + *width as i64 && oy <= y && y < oy + *height as i64
            },
        }
    }
    /// The covered cells row by row, bottom row first, each row from left to right.
    pub fn covered_coords(&self, coords: GridCoords) -> (r: Vec<GridCoords>)
        requires
            imprint_fits_i32(*self, coords),
            imprint_area(*self) <= usize::MAX,
        ensures
            r@.len() == imprint_area(*self),
            match *self {
                GridImprint::Rectangle { width, height } => forall|x: int, y: int|
                    0 <= x < width && 0 <= y < height ==> #[trigger] r@[y * width + x]
                        == shifted_spec(coords, x, y),
            },
            r@ == covered_cells(*self, coords),
    {
        let r = self.covered_coords_row_major(coords);
        proof {
            lemma_covered_cells(*self, coords, r@);
        }
        r
    }

    fn covered_coords_row_major(&self, coords: GridCoords) -> (r: Vec<GridCoords>)
        requires
            imprint_fits_i32(*self, coords),
            imprint_area(*self) <= usize::MAX,
        ensures
            r@.len() == imprint_area(*self),
            match *self {
                GridImprint::Rectangle { width, height } => forall|x: int, y: int|
                    0 <= x < width && 0 <= y < height ==> #[trigger] r@[y * width + x]
                        == shifted_spec(coords, x, y),
            },
    {
        match self {
            GridImprint::Rectangle { width, height } => {
                let width = *width;
                let height = *height;
                let mut result: Vec<GridCoords> = Vec::new();
                if width <= 0 || height <= 0 {
                    return result;
                }
                let mut y: i32 = 0;
                while y < height
                    invariant
                        0 < width,
                        0 <= y <= height,
                        coords.x + width <= i32::MAX + 1,
                        coords.y + height <= i32::MAX + 1,
                        width * height <= usize::MAX,
                        result@.len() == y * width,
                        forall|xx: int, yy: int|
                            0 <= xx < width && 0 <= yy < y ==> #[trigger] result@[yy * width + xx]
                                == shifted_spec(coords, xx, yy),
                    decreases height - y,
                {
                    let mut x: i32 = 0;
                    while x < width
                        invariant
                            0 < width,
                            0 <= y < height,
                            0 <= x <= width,
                            coords.x + width <= i32::MAX + 1,
                            coords.y + height <= i32::MAX + 1,
                            width * height <= usize::MAX,
                            result@.len() == y * width + x,
                            forall|xx: int, yy: int|
                                0 <= xx < width && 0 <= yy < y ==> #[trigger] result@[yy * width
                                    + xx] == shifted_spec(coords, xx, yy),
                            forall|xx: int| #![trigger shifted_spec(coords, xx, y as int)]
                                0 <= xx < x ==> result@[y * width + xx] == shifted_spec(
                                    coords,
                                    xx,
                                    y as int,
                                ),
                        decreases width - x,
                    {
                        proof {
                            assert((y + 1) * width <= height * width) by (nonlinear_arith)
                                requires
                                    y < height,
                                    0 < width,
                            ;
                            assert(y * width + x < (y + 1) * width) by (nonlinear_arith)
                                requires
                                    x < width,
                            ;
                        }
                        let c = coords.shifted((x, y));
                        let ghost before = result@;
                        result.push(c);
                        proof {
                            assert forall|xx: int, yy: int|
                                0 <= xx < width && 0 <= yy < y implies #[trigger] result@[yy
                                * width + xx] == shifted_spec(coords, xx, yy) by {
                                lemma_row_major_bounds(xx, yy, y as int, width as int);
                                assert(result@[yy * width + xx] == before[yy * width + xx]);
                            }
                        }
                        x = x + 1;
                    }
                    proof {
                        assert((y + 1) * width == y * width + width) by (nonlinear_arith);
                        assert forall|xx: int, yy: int|
                            0 <= xx < width && 0 <= yy < y + 1 implies #[trigger] result@[yy
                            * width + xx] == shifted_spec(coords, xx, yy) by {
                            if yy == y {
                                assert(shifted_spec(coords, xx, y as int) == shifted_spec(
                                    coords,
                                    xx,
                                    yy,
                                ));
                            }
                        }
                    }
                    y = y + 1;
                }
                proof {
                    assert(y == height);
                }
                result
            },
        }
    }
}

/// In row-major order, a cell of an earlier row comes before every cell of row `y`.
pub proof fn lemma_row_major_bounds(x: int, row: int, y: int, width: int)
    requires
        0 <= x < width,
        0 <= row < y,
    ensures
        0 <= row * width + x < y * width,
{
    assert(0 <= row * width + x < y * width) by (nonlinear_arith)
        requires
            0 <= x < width,
            0 <= row < y,
    ;
}

impl Default for GridImprint {
    fn default() -> (r: Self)
        ensures
            r == (GridImprint::Rectangle { width: 1, height: 1 }),
    {
        GridImprint::Rectangle { width: 1, height: 1 }
    }
}


/// Turning a pair into grid coordinates and back gives the pair again, and the other way round.
pub proof fn lemma_coords_pair_roundtrip(pair: (i32, i32), coords: GridCoords)
    ensures
        <(i32, i32) as FromSpec<GridCoords>>::from_spec(
            <GridCoords as FromSpec<(i32, i32)>>::from_spec(pair),
        ) == pair,
        <GridCoords as FromSpec<(i32, i32)>>::from_spec(
            <(i32, i32) as FromSpec<GridCoords>>::from_spec(coords),
        ) == coords,
{
}

} // verus!
