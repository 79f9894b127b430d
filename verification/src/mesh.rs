//! Wall faces of a tile map, and the mesh built from them.
//!
//! Every solid tile that is not `Void` shows one square face towards each
//! of its four neighbours that can be walked on. Faces between two solid
//! tiles are never produced. All mesh data is integral: positions are tile
//! corners, normals are axis vectors and texture coordinates are counted in
//! quarters of the texture atlas, which holds 4x4 textures.

use vstd::prelude::*;
use crate::tile::{TexId, Tile};
use crate::tilemap::{grid_height, grid_width, in_bounds, map_shaped, solid_at, TileMap};

verus! {

/// A vector of three integers. `x` runs along the rows of the map, `z`
/// from row to row, and `y` points up.
#[derive(Copy, Clone, PartialEq, Eq, Structural, Debug)]
pub struct IVec3 {
    pub x: i32,
    pub y: i32,
    pub z: i32,
}

/// A texture coordinate in quarters of the atlas: `(4, 4)` is its far corner.
#[derive(Copy, Clone, PartialEq, Eq, Structural, Debug)]
pub struct Uv4 {
    pub u: i32,
    pub v: i32,
}

/// One square face: the corner `p`, the two edges that leave it, and the
/// texture it shows.
#[derive(Copy, Clone, PartialEq, Eq, Structural, Debug)]
pub struct Quad {
    pub p: IVec3,
    pub dir0: IVec3,
    pub dir1: IVec3,
    pub tex: TexId,
}

/// The side of a tile that a face covers.
#[derive(Copy, Clone, PartialEq, Eq, Structural, Debug)]
pub enum Side {
    North,
    East,
    South,
    West,
}

pub open spec fn vec_sum(a: IVec3, b: IVec3) -> IVec3 {
    IVec3 { x: (a.x + b.x) as i32, y: (a.y + b.y) as i32, z: (a.z + b.z) as i32 }
}

/// The cross product, which is the normal of a face with the edges `a`, `b`.
pub open spec fn vec_cross(a: IVec3, b: IVec3) -> IVec3 {
    IVec3 {
        x: (a.y * b.z - b.y * a.z) as i32,
        y: (a.z * b.x - b.z * a.x) as i32,
        z: (a.x * b.y - b.x * a.y) as i32,
    }
}

/// The numbers of a face are small enough for `i32` arithmetic.
pub open spec fn quad_fits(q: Quad) -> bool {
    &&& -0x3fff_ffff <= q.p.x <= 0x3fff_ffff
    &&& -0x3fff_ffff <= q.p.y <= 0x3fff_ffff
    &&& -0x3fff_ffff <= q.p.z <= 0x3fff_ffff
    &&& -0x7fff <= q.dir0.x <= 0x7fff
    &&& -0x7fff <= q.dir0.y <= 0x7fff
    &&& -0x7fff <= q.dir0.z <= 0x7fff
    &&& -0x7fff <= q.dir1.x <= 0x7fff
    &&& -0x7fff <= q.dir1.y <= 0x7fff
    &&& -0x7fff <= q.dir1.z <= 0x7fff
    &&& q.tex.x < i32::MAX
    &&& q.tex.y < i32::MAX
}

/// The four corners of a face: `p`, then along `dir0`, then across, then
/// back along `dir1`.
pub open spec fn quad_positions(q: Quad) -> Seq<IVec3> {
    seq![q.p, vec_sum(q.p, q.dir0), vec_sum(vec_sum(q.p, q.dir0), q.dir1), vec_sum(q.p, q.dir1)]
}

/// The normal of a face, once for each corner.
pub open spec fn quad_normals(q: Quad) -> Seq<IVec3> {
    let n = vec_cross(q.dir0, q.dir1);
    seq![n, n, n, n]
}

/// The texture coordinates of the four corners: the atlas cell of the
/// texture, one quarter wide and high.
pub open spec fn quad_uvs(q: Quad) -> Seq<Uv4> {
    seq![
        Uv4 { u: q.tex.x, v: q.tex.y },
        Uv4 { u: (q.tex.x + 1) as i32, v: q.tex.y },
        Uv4 { u: (q.tex.x + 1) as i32, v: (q.tex.y + 1) as i32 },
        Uv4 { u: q.tex.x, v: (q.tex.y + 1) as i32 },
    ]
}

/// The two triangles of a face whose first corner is vertex `first`. Both
/// turn the same way: against the clock for one who looks along the
/// normal `dir0 x dir1`, which is the view from the open side of a wall.
pub open spec fn quad_indices(first: int) -> Seq<u32> {
    seq![
        first as u32,
        (first + 2) as u32,
        (first + 1) as u32,
        first as u32,
        (first + 3) as u32,
        (first + 2) as u32,
    ]
}

/// The vertex data of a mesh.
pub struct MeshData {
    pub indices: Seq<u32>,
    pub positions: Seq<IVec3>,
    pub normals: Seq<IVec3>,
    pub uvs: Seq<Uv4>,
}

/// The mesh `data` with one more face.
pub open spec fn with_quad(data: MeshData, q: Quad) -> MeshData {
    MeshData {
        indices: data.indices + quad_indices(data.positions.len() as int),
        positions: data.positions + quad_positions(q),
        normals: data.normals + quad_normals(q),
        uvs: data.uvs + quad_uvs(q),
    }
}

/// The mesh made of the faces `quads`, in order.
pub open spec fn mesh_of(quads: Seq<Quad>) -> MeshData
    decreases quads.len(),
{
    if quads.len() == 0 {
        MeshData {
            indices: Seq::empty(),
            positions: Seq::empty(),
            normals: Seq::empty(),
            uvs: Seq::empty(),
        }
    } else {
        with_quad(mesh_of(quads.drop_last()), quads.last())
    }
}

/// A mesh of `n` faces has `4 * n` vertices and `6 * n` indices.
pub proof fn lemma_mesh_size(quads: Seq<Quad>)
    ensures
        mesh_of(quads).positions.len() == 4 * quads.len(),
        mesh_of(quads).normals.len() == 4 * quads.len(),
        mesh_of(quads).uvs.len() == 4 * quads.len(),
        mesh_of(quads).indices.len() == 6 * quads.len(),
    decreases quads.len(),
{
    if quads.len() > 0 {
        lemma_mesh_size(quads.drop_last());
    }
}

/// Collects the vertices and triangles of a mesh, face by face.
pub struct MeshBuilder {
    pub indices: Vec<u32>,
    pub positions: Vec<IVec3>,
    pub normals: Vec<IVec3>,
    pub uvs: Vec<Uv4>,
}

impl View for MeshBuilder {
    type V = MeshData;

    open spec fn view(&self) -> MeshData {
        MeshData {
            indices: self.indices@,
            positions: self.positions@,
            normals: self.normals@,
            uvs: self.uvs@,
        }
    }
}

impl IVec3 {
    pub fn new(x: i32, y: i32, z: i32) -> (v: IVec3)
        ensures
            v == (IVec3 { x, y, z }),
    {
        IVec3 { x, y, z }
    }

    /// Component-wise sum.
    pub fn plus(self, other: IVec3) -> (v: IVec3)
        requires
            i32::MIN <= self.x + other.x <= i32::MAX,
            i32::MIN <= self.y + other.y <= i32::MAX,
            i32::MIN <= self.z + other.z <= i32::MAX,
        ensures
            v == vec_sum(self, other),
    {
        IVec3 { x: self.x + other.x, y: self.y + other.y, z: self.z + other.z }
    }

    /// Cross product of two vectors with components of at most 15 bits.
    pub fn cross(self, other: IVec3) -> (v: IVec3)
        requires
            -0x7fff <= self.x <= 0x7fff,
            -0x7fff <= self.y <= 0x7fff,
            -0x7fff <= self.z <= 0x7fff,
            -0x7fff <= other.x <= 0x7fff,
            -0x7fff <= other.y <= 0x7fff,
            -0x7fff <= other.z <= 0x7fff,
        ensures
            v == vec_cross(self, other),
    {
        proof {
            lemma_product_bound(self.y as int, other.z as int);
            lemma_product_bound(other.y as int, self.z as int);
            lemma_product_bound(self.z as int, other.x as int);
            lemma_product_bound(other.z as int, self.x as int);
            lemma_product_bound(self.x as int, other.y as int);
            lemma_product_bound(other.x as int, self.y as int);
        }
        IVec3 {
            x: self.y * other.z - other.y * self.z,
            y: self.z * other.x - other.z * self.x,
            z: self.x * other.y - other.x * self.y,
        }
    }
}

proof fn lemma_product_bound(a: int, b: int)
    requires
        -0x7fff <= a <= 0x7fff,
        -0x7fff <= b <= 0x7fff,
    ensures
        -0x3fff_0001 <= a * b <= 0x3fff_0001,
{
    assert(-0x3fff_0001 <= a * b <= 0x3fff_0001) by (nonlinear_arith)
        requires
            -0x7fff <= a <= 0x7fff,
            -0x7fff <= b <= 0x7fff,
    ;
}

impl MeshBuilder {
    /// A mesh without faces.
    pub fn new() -> (builder: MeshBuilder)
        ensures
            builder@ == mesh_of(Seq::empty()),
    {
        MeshBuilder {
            indices: Vec::new(),
            positions: Vec::new(),
            normals: Vec::new(),
            uvs: Vec::new(),
        }
    }

    /// Appends one vertex and returns its index.
    pub fn add_vertex(&mut self, pos: IVec3, normal: IVec3, uv: Uv4) -> (id: u32)
        requires
            old(self).positions.len() < u32::MAX,
        ensures
            id == old(self).positions.len(),
            final(self).positions@ == old(self).positions@.push(pos),
            final(self).normals@ == old(self).normals@.push(normal),
            final(self).uvs@ == old(self).uvs@.push(uv),
            final(self).indices@ == old(self).indices@,
    {
        let id = self.positions.len() as u32;
        self.positions.push(pos);
        self.normals.push(normal);
        self.uvs.push(uv);
        id
    }

    /// Appends the face with the corner `p` and the edges `dir0` and
    /// `dir1`, textured with the atlas cell `tex_id`: four vertices that
    /// share the normal `dir0 x dir1`, and two triangles.
    pub fn add_rect(&mut self, p: IVec3, dir0: IVec3, dir1: IVec3, tex_id: TexId)
        requires
            quad_fits(Quad { p, dir0, dir1, tex: tex_id }),
            old(self).positions.len() + 4 <= u32::MAX,
        ensures
            final(self)@ == with_quad(old(self)@, Quad { p, dir0, dir1, tex: tex_id }),
    {
        let normal = dir0.cross(dir1);
        let uv = Uv4 { u: tex_id.x, v: tex_id.y };
        let uv_right = Uv4 { u: tex_id.x + 1, v: tex_id.y };
        let uv_across = Uv4 { u: tex_id.x + 1, v: tex_id.y + 1 };
        let uv_down = Uv4 { u: tex_id.x, v: tex_id.y + 1 };

        let id0 = self.add_vertex(p, normal, uv);
        let id1 = self.add_vertex(p.plus(dir0), normal, uv_right);
        let id2 = self.add_vertex(p.plus(dir0).plus(dir1), normal, uv_across);
        let id3 = self.add_vertex(p.plus(dir1), normal, uv_down);

        self.indices.push(id0);
        self.indices.push(id2);
        self.indices.push(id1);
        self.indices.push(id0);
        self.indices.push(id3);
        self.indices.push(id2);
        proof {
            let q = Quad { p, dir0, dir1, tex: tex_id };
            let want = with_quad(old(self)@, q);
            assert(self.positions@ =~= want.positions);
            assert(self.normals@ =~= want.normals);
            assert(self.uvs@ =~= want.uvs);
            assert(self.indices@ =~= want.indices);
        }
    }
}

/// The cell next to `(x, y)` on the given side.
pub open spec fn neighbour(x: int, y: int, side: Side) -> (int, int) {
    match side {
        Side::North => (x, y - 1),
        Side::East => (x + 1, y),
        Side::South => (x, y + 1),
        Side::West => (x - 1, y),
    }
}

/// The tile at `(x, y)` shows a face on `side`: it is solid and not
/// `Void`, and the cell next to it on that side is not solid.
pub open spec fn shows_face(cells: Seq<Seq<Tile>>, x: int, y: int, side: Side) -> bool {
    &&& in_bounds(cells, x, y)
    &&& cells[y][x].solid()
    &&& cells[y][x] != Tile::Void
    &&& !solid_at(cells, neighbour(x, y, side).0, neighbour(x, y, side).1)
}

/// The face of the tile at `(x, y)` on `side`. The tile fills the square
/// from `(x, y)` to `(x + 1, y + 1)`, and every face is one unit high.
pub open spec fn side_quad(x: int, y: int, side: Side, tex: TexId) -> Quad {
    let up = IVec3 { x: 0, y: 1, z: 0 };
    match side {
        Side::North => Quad {
            p: IVec3 { x: x as i32, y: 0, z: y as i32 },
            dir0: IVec3 { x: 1, y: 0, z: 0 },
            dir1: up,
            tex,
        },
        Side::East => Quad {
            p: IVec3 { x: (x + 1) as i32, y: 0, z: y as i32 },
            dir0: IVec3 { x: 0, y: 0, z: 1 },
            dir1: up,
            tex,
        },
        Side::South => Quad {
            p: IVec3 { x: (x + 1) as i32, y: 0, z: (y + 1) as i32 },
            dir0: IVec3 { x: -1i32, y: 0, z: 0 },
            dir1: up,
            tex,
        },
        Side::West => Quad {
            p: IVec3 { x: x as i32, y: 0, z: (y + 1) as i32 },
            dir0: IVec3 { x: 0, y: 0, z: -1i32 },
            dir1: up,
            tex,
        },
    }
}

/// Every face of a tile turns its front to the neighbour it looks at: its
/// normal points from that neighbour into the tile, and its triangles are
/// wound against the clock for one who looks along the normal.
pub proof fn lemma_faces_look_outwards(x: int, y: int, side: Side, tex: TexId)
    requires
        -0x3fff_ffff <= x <= 0x3fff_ffff,
        -0x3fff_ffff <= y <= 0x3fff_ffff,
    ensures
        ({
            let q = side_quad(x, y, side, tex);
            let normal = vec_cross(q.dir0, q.dir1);
            &&& normal.y == 0
            &&& neighbour(x, y, side) == (x - normal.x, y - normal.z)
            &&& q.dir1 == (IVec3 { x: 0, y: 1, z: 0 })
        }),
{
}

/// The face of the tile at `(x, y)` on `side` if it shows one.
pub open spec fn face_quads(cells: Seq<Seq<Tile>>, x: int, y: int, side: Side) -> Seq<Quad> {
    if shows_face(cells, x, y, side) {
        seq![side_quad(x, y, side, cells[y][x].tex_id())]
    } else {
        Seq::empty()
    }
}

/// The faces of one tile: north, east, south, west.
pub open spec fn tile_quads(cells: Seq<Seq<Tile>>, x: int, y: int) -> Seq<Quad> {
    face_quads(cells, x, y, Side::North) + face_quads(cells, x, y, Side::East) + face_quads(
        cells,
        x,
        y,
        Side::South,
    ) + face_quads(cells, x, y, Side::West)
}

/// The faces of the first `n` tiles of row `y`.
pub open spec fn row_quads(cells: Seq<Seq<Tile>>, y: int, n: nat) -> Seq<Quad>
    decreases n,
{
    if n == 0 {
        Seq::empty()
    } else {
        row_quads(cells, y, (n - 1) as nat) + tile_quads(cells, n - 1, y)
    }
}

/// The faces of the first `m` rows.
pub open spec fn rows_quads(cells: Seq<Seq<Tile>>, m: nat) -> Seq<Quad>
    decreases m,
{
    if m == 0 {
        Seq::empty()
    } else {
        rows_quads(cells, (m - 1) as nat) + row_quads(cells, m - 1, grid_width(cells))
    }
}

/// All faces of a grid, row by row and tile by tile.
pub open spec fn grid_quads(cells: Seq<Seq<Tile>>) -> Seq<Quad> {
    rows_quads(cells, grid_height(cells))
}

/// A tile shows at most four faces, and none unless it is a wall.
pub proof fn lemma_tile_quads(cells: Seq<Seq<Tile>>, x: int, y: int)
    ensures
        tile_quads(cells, x, y).len() <= 4,
        !in_bounds(cells, x, y) || !cells[y][x].solid() || cells[y][x] == Tile::Void
            ==> tile_quads(cells, x, y).len() == 0,
{
}

/// The faces of a row grow with the number of tiles looked at.
pub proof fn lemma_row_quads_grow(cells: Seq<Seq<Tile>>, y: int, a: nat, b: nat)
    requires
        a <= b,
    ensures
        row_quads(cells, y, a).len() <= row_quads(cells, y, b).len(),
        row_quads(cells, y, b).len() <= 4 * b,
    decreases b,
{
    if b > 0 {
        lemma_tile_quads(cells, b - 1, y);
        if a < b {
            lemma_row_quads_grow(cells, y, a, (b - 1) as nat);
        } else {
            lemma_row_quads_grow(cells, y, (b - 1) as nat, (b - 1) as nat);
        }
    }
}

/// The faces of a grid grow with the number of rows looked at.
pub proof fn lemma_rows_quads_grow(cells: Seq<Seq<Tile>>, a: nat, b: nat)
    requires
        a <= b,
    ensures
        rows_quads(cells, a).len() <= rows_quads(cells, b).len(),
        rows_quads(cells, b).len() <= 4 * grid_width(cells) * b,
    decreases b,
{
    if b > 0 {
        let w = grid_width(cells);
        lemma_row_quads_grow(cells, b - 1, w, w);
        if a < b {
            lemma_rows_quads_grow(cells, a, (b - 1) as nat);
        } else {
            lemma_rows_quads_grow(cells, (b - 1) as nat, (b - 1) as nat);
        }
        assert(4 * w * (b - 1) + 4 * w == 4 * w * b) by (nonlinear_arith);
    }
}

/// A grid shows at most four faces for each of its tiles.
pub proof fn lemma_quad_count_bound(cells: Seq<Seq<Tile>>)
    ensures
        grid_quads(cells).len() <= 4 * grid_width(cells) * grid_height(cells),
{
    lemma_rows_quads_grow(cells, grid_height(cells), grid_height(cells));
}

/// A grid in which no tile is a wall shows no face. This holds of a grid
/// that is all `Void`, and of one that is all floor.
pub proof fn lemma_no_walls_no_faces(cells: Seq<Seq<Tile>>)
    requires
        forall|x: int, y: int|
            in_bounds(cells, x, y) ==> !(#[trigger] cells[y][x]).solid() || cells[y][x] == Tile::Void,
    ensures
        grid_quads(cells).len() == 0,
{
    lemma_rows_without_walls(cells, grid_height(cells));
}

proof fn lemma_row_without_walls(cells: Seq<Seq<Tile>>, y: int, n: nat)
    requires
        forall|x: int, y: int|
            in_bounds(cells, x, y) ==> !(#[trigger] cells[y][x]).solid() || cells[y][x] == Tile::Void,
    ensures
        row_quads(cells, y, n).len() == 0,
    decreases n,
{
    if n > 0 {
        lemma_row_without_walls(cells, y, (n - 1) as nat);
        lemma_tile_quads(cells, n - 1, y);
    }
}

proof fn lemma_rows_without_walls(cells: Seq<Seq<Tile>>, m: nat)
    requires
        forall|x: int, y: int|
            in_bounds(cells, x, y) ==> !(#[trigger] cells[y][x]).solid() || cells[y][x] == Tile::Void,
    ensures
        rows_quads(cells, m).len() == 0,
    decreases m,
{
    if m > 0 {
        lemma_rows_without_walls(cells, (m - 1) as nat);
        lemma_row_without_walls(cells, m - 1, grid_width(cells));
    }
}

/// `q` is the face that the tile at `(x, y)` shows on `side`.
pub open spec fn is_face(cells: Seq<Seq<Tile>>, q: Quad, x: int, y: int, side: Side) -> bool {
    shows_face(cells, x, y, side) && q == side_quad(x, y, side, cells[y][x].tex_id())
}

/// `q` is a face that some tile of the grid shows on some side.
pub open spec fn is_open_side(cells: Seq<Seq<Tile>>, q: Quad) -> bool {
    exists|x: int, y: int, side: Side| #[trigger] is_face(cells, q, x, y, side)
}

/// `q` is among the faces of the tile at `(x, y)`.
spec fn tile_has(cells: Seq<Seq<Tile>>, x: int, y: int, q: Quad) -> bool {
    tile_quads(cells, x, y).contains(q)
}

proof fn lemma_contains_add(a: Seq<Quad>, b: Seq<Quad>, q: Quad)
    ensures
        (a + b).contains(q) <==> a.contains(q) || b.contains(q),
{
    if (a + b).contains(q) {
        let i = choose|i: int| 0 <= i < (a + b).len() && (a + b)[i] == q;
        if i < a.len() {
            assert(a[i] == q);
        } else {
            assert(b[i - a.len()] == q);
        }
    }
    if a.contains(q) {
        let i = choose|i: int| 0 <= i < a.len() && a[i] == q;
        assert((a + b)[i] == q);
    }
    if b.contains(q) {
        let i = choose|i: int| 0 <= i < b.len() && b[i] == q;
        assert((a + b)[a.len() + i] == q);
    }
}

proof fn lemma_face_contains(cells: Seq<Seq<Tile>>, x: int, y: int, side: Side, q: Quad)
    ensures
        face_quads(cells, x, y, side).contains(q) <==> is_face(cells, q, x, y, side),
{
    if shows_face(cells, x, y, side) {
        let f = side_quad(x, y, side, cells[y][x].tex_id());
        assert(face_quads(cells, x, y, side)[0] == f);
    }
}

proof fn lemma_tile_contains(cells: Seq<Seq<Tile>>, x: int, y: int, q: Quad)
    ensures
        tile_has(cells, x, y, q) <==> exists|side: Side| #[trigger] is_face(cells, q, x, y, side),
{
    let n = face_quads(cells, x, y, Side::North);
    let e = face_quads(cells, x, y, Side::East);
    let s = face_quads(cells, x, y, Side::South);
    let w = face_quads(cells, x, y, Side::West);
    lemma_contains_add(n + e + s, w, q);
    lemma_contains_add(n + e, s, q);
    lemma_contains_add(n, e, q);
    lemma_face_contains(cells, x, y, Side::North, q);
    lemma_face_contains(cells, x, y, Side::East, q);
    lemma_face_contains(cells, x, y, Side::South, q);
    lemma_face_contains(cells, x, y, Side::West, q);
    if tile_has(cells, x, y, q) {
        assert(is_face(cells, q, x, y, Side::North) || is_face(cells, q, x, y, Side::East)
            || is_face(cells, q, x, y, Side::South) || is_face(cells, q, x, y, Side::West));
    }
    if exists|side: Side| #[trigger] is_face(cells, q, x, y, side) {
        let side = choose|side: Side| #[trigger] is_face(cells, q, x, y, side);
        match side {
            Side::North => {},
            Side::East => {},
            Side::South => {},
            Side::West => {},
        }
        assert(tile_has(cells, x, y, q));
    }
}

proof fn lemma_row_contains(cells: Seq<Seq<Tile>>, y: int, n: nat, q: Quad)
    ensures
        row_quads(cells, y, n).contains(q) <==> exists|x: int|
            0 <= x < n && #[trigger] tile_has(cells, x, y, q),
    decreases n,
{
    if n > 0 {
        lemma_row_contains(cells, y, (n - 1) as nat, q);
        lemma_contains_add(row_quads(cells, y, (n - 1) as nat), tile_quads(cells, n - 1, y), q);
        if row_quads(cells, y, n).contains(q) {
            if tile_has(cells, n - 1, y, q) {
            } else {
                let x = choose|x: int| 0 <= x < n - 1 && #[trigger] tile_has(cells, x, y, q);
                assert(0 <= x < n && tile_has(cells, x, y, q));
            }
        }
        if exists|x: int| 0 <= x < n && #[trigger] tile_has(cells, x, y, q) {
            let x = choose|x: int| 0 <= x < n && #[trigger] tile_has(cells, x, y, q);
            if x < n - 1 {
                assert(0 <= x < n - 1 && tile_has(cells, x, y, q));
            }
        }
    }
}

/// `q` is among the faces of row `y`.
spec fn row_has(cells: Seq<Seq<Tile>>, y: int, q: Quad) -> bool {
    row_quads(cells, y, grid_width(cells)).contains(q)
}

proof fn lemma_rows_contain(cells: Seq<Seq<Tile>>, m: nat, q: Quad)
    ensures
        rows_quads(cells, m).contains(q) <==> exists|y: int| 0 <= y < m && #[trigger] row_has(cells, y, q),
    decreases m,
{
    if m > 0 {
        lemma_rows_contain(cells, (m - 1) as nat, q);
        lemma_contains_add(
            rows_quads(cells, (m - 1) as nat),
            row_quads(cells, m - 1, grid_width(cells)),
            q,
        );
        if rows_quads(cells, m).contains(q) {
            if row_has(cells, m - 1, q) {
            } else {
                let y = choose|y: int| 0 <= y < m - 1 && #[trigger] row_has(cells, y, q);
                assert(0 <= y < m && row_has(cells, y, q));
            }
        }
        if exists|y: int| 0 <= y < m && #[trigger] row_has(cells, y, q) {
            let y = choose|y: int| 0 <= y < m && #[trigger] row_has(cells, y, q);
            if y < m - 1 {
                assert(0 <= y < m - 1 && row_has(cells, y, q));
            }
        }
    }
}

/// The faces of a grid are exactly the open sides of its walls: a face is
/// produced if and only if it belongs to a solid tile that is not `Void`
/// and looks at a neighbour that is not solid. No face lies between two
/// solid tiles, and no open side of a wall is left out.
pub proof fn lemma_faces_are_the_open_sides(cells: Seq<Seq<Tile>>, q: Quad)
    requires
        map_shaped(cells),
    ensures
        grid_quads(cells).contains(q) <==> is_open_side(cells, q),
{
    lemma_rows_contain(cells, grid_height(cells), q);
    if grid_quads(cells).contains(q) {
        let y = choose|y: int| 0 <= y < grid_height(cells) && #[trigger] row_has(cells, y, q);
        lemma_row_contains(cells, y, grid_width(cells), q);
        let x = choose|x: int| 0 <= x < grid_width(cells) && #[trigger] tile_has(cells, x, y, q);
        lemma_tile_contains(cells, x, y, q);
        let side = choose|side: Side| #[trigger] is_face(cells, q, x, y, side);
        assert(is_face(cells, q, x, y, side));
    }
    if is_open_side(cells, q) {
        let (x, y, side) = choose|x: int, y: int, side: Side| #[trigger] is_face(cells, q, x, y, side);
        assert(is_face(cells, q, x, y, side));
        lemma_tile_contains(cells, x, y, q);
        assert(tile_has(cells, x, y, q));
        assert(cells[y].len() == grid_width(cells));
        lemma_row_contains(cells, y, grid_width(cells), q);
        assert(0 <= x < grid_width(cells) && tile_has(cells, x, y, q));
        assert(row_has(cells, y, q));
        assert(0 <= y < grid_height(cells) && row_has(cells, y, q));
    }
}

/// The faces up to and with the tile `(x, y)` are among the faces of the grid.
proof fn lemma_quads_so_far(cells: Seq<Seq<Tile>>, x: int, y: int)
    requires
        0 <= y < grid_height(cells),
        0 <= x < grid_width(cells),
    ensures
        rows_quads(cells, y as nat).len() + row_quads(cells, y, x as nat).len() + tile_quads(
            cells,
            x,
            y,
        ).len() <= grid_quads(cells).len(),
{
    lemma_row_quads_grow(cells, y, (x + 1) as nat, grid_width(cells));
    lemma_rows_quads_grow(cells, (y + 1) as nat, grid_height(cells));
}

proof fn lemma_mesh_push(quads: Seq<Quad>, q: Quad)
    ensures
        mesh_of(quads.push(q)) == with_quad(mesh_of(quads), q),
{
    assert(quads.push(q).drop_last() =~= quads);
}

/// Adds the face of the tile at `(x, y)` on `side` if it shows one.
fn add_face(
    builder: &mut MeshBuilder,
    map: &TileMap,
    tile: Tile,
    x: i32,
    y: i32,
    side: Side,
    Ghost(done): Ghost<Seq<Quad>>,
)
    requires
        map_shaped(map@),
        in_bounds(map@, x as int, y as int),
        tile == map@[y as int][x as int],
        tile.solid(),
        tile != Tile::Void,
        old(builder)@ == mesh_of(done),
        4 * (done.len() + face_quads(map@, x as int, y as int, side).len()) <= u32::MAX,
    ensures
        final(builder)@ == mesh_of(done + face_quads(map@, x as int, y as int, side)),
{
    let (nx, ny): (i32, i32) = match side {
        Side::North => (x, y - 1),
        Side::East => (x + 1, y),
        Side::South => (x, y + 1),
        Side::West => (x - 1, y),
    };
    if !map.is_solid(nx, ny) {
        let up = IVec3::new(0, 1, 0);
        let tex = tile.get_tex_id();
        proof {
            lemma_mesh_size(done);
            lemma_mesh_push(done, side_quad(x as int, y as int, side, tex));
            assert(done + face_quads(map@, x as int, y as int, side) =~= done.push(
                side_quad(x as int, y as int, side, tex),
            ));
        }
        match side {
            Side::North => builder.add_rect(IVec3::new(x, 0, y), IVec3::new(1, 0, 0), up, tex),
            Side::East => builder.add_rect(IVec3::new(x + 1, 0, y), IVec3::new(0, 0, 1), up, tex),
            Side::South => builder.add_rect(
                IVec3::new(x + 1, 0, y + 1),
                IVec3::new(-1, 0, 0),
                up,
                tex,
            ),
            Side::West => builder.add_rect(IVec3::new(x, 0, y + 1), IVec3::new(0, 0, -1), up, tex),
        }
    } else {
        assert(done + face_quads(map@, x as int, y as int, side) =~= done);
    }
}

/// Builds the mesh of the walls of a map: for every solid tile that is not
/// `Void`, one face towards each of its four neighbours that is not solid.
/// The mesh depends on the grid alone. Vertex indices are `u32`, so the
/// map may show at most `u32::MAX / 4` faces.
pub fn map_to_mesh(map: &TileMap) -> (builder: MeshBuilder)
    requires
        4 * grid_quads(map@).len() <= u32::MAX,
    ensures
        builder@ == mesh_of(grid_quads(map@)),
        builder.positions.len() == 4 * grid_quads(map@).len(),
        builder.indices.len() == 6 * grid_quads(map@).len(),
{
    let mut builder = MeshBuilder::new();
    let width: i32 = map.width();
    let height: i32 = map.height();
    let ghost cells = map@;
    let mut y: i32 = 0;
    while y < height
        invariant
            cells == map@,
            map_shaped(cells),
            width == grid_width(cells),
            height == grid_height(cells),
            4 * grid_quads(cells).len() <= u32::MAX,
            0 <= y <= height,
            builder@ == mesh_of(rows_quads(cells, y as nat)),
        decreases height - y,
    {
        let mut x: i32 = 0;
        while x < width
            invariant
                cells == map@,
                map_shaped(cells),
                width == grid_width(cells),
                height == grid_height(cells),
                4 * grid_quads(cells).len() <= u32::MAX,
                0 <= y < height,
                0 <= x <= width,
                builder@ == mesh_of(rows_quads(cells, y as nat) + row_quads(cells, y as int, x as nat)),
            decreases width - x,
        {
            let tile = map.tile(x, y);
            let ghost done = rows_quads(cells, y as nat) + row_quads(cells, y as int, x as nat);
            let ghost north = face_quads(cells, x as int, y as int, Side::North);
            let ghost east = face_quads(cells, x as int, y as int, Side::East);
            let ghost south = face_quads(cells, x as int, y as int, Side::South);
            let ghost west = face_quads(cells, x as int, y as int, Side::West);
            proof {
                lemma_quads_so_far(cells, x as int, y as int);
                lemma_tile_quads(cells, x as int, y as int);
            }
            if tile.is_solid() && !tile.is_void() {
                add_face(&mut builder, map, tile, x, y, Side::North, Ghost(done));
                add_face(&mut builder, map, tile, x, y, Side::East, Ghost(done + north));
                add_face(&mut builder, map, tile, x, y, Side::South, Ghost(done + north + east));
                add_face(&mut builder, map, tile, x, y, Side::West, Ghost(done + north + east + south));
            }
            proof {
                assert(done + north + east + south + west =~= done + tile_quads(
                    cells,
                    x as int,
                    y as int,
                ));
                assert(done + tile_quads(cells, x as int, y as int) =~= rows_quads(cells, y as nat)
                    + row_quads(cells, y as int, (x + 1) as nat));
            }
            x = x + 1;
        }
        y = y + 1;
    }
    proof {
        lemma_mesh_size(grid_quads(cells));
    }
    builder
}

} // verus!
