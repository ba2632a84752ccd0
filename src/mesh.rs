//! Triangles built from the scanned faces, and their expansion into a flat
//! vertex buffer with a sequential index buffer.
use vstd::prelude::*;

use crate::scanner::{scan_obj, scan_text, ObjError, Position, ScanModel};

verus! {

/// A triangle: its three corner positions, in the order of its face line.
#[derive(Clone, Copy, Debug, PartialEq, Eq)]
pub struct Tri {
    pub v0: Position,
    pub v1: Position,
    pub v2: Position,
}

impl Tri {
    pub fn new(v0: Position, v1: Position, v2: Position) -> (r: Tri)
        ensures
            r == (Tri { v0, v1, v2 }),
    {
        Tri { v0, v1, v2 }
    }

    /// The fresh slot that an `f` marker opens: every corner at the origin.
    pub fn blank() -> (r: Tri)
        ensures
            r == Tri::spec_blank(),
    {
        Tri::new(Position::origin(), Position::origin(), Position::origin())
    }

    pub open spec fn spec_blank() -> Tri {
        Tri {
            v0: Position::spec_origin(),
            v1: Position::spec_origin(),
            v2: Position::spec_origin(),
        }
    }

    /// The corner `k` (0, 1 or 2).
    pub open spec fn corner(self, k: int) -> Position {
        if k == 0 {
            self.v0
        } else if k == 1 {
            self.v1
        } else {
            self.v2
        }
    }

    pub fn get_corner(&self, k: usize) -> (r: Position)
        requires
            k < 3,
        ensures
            r == self.corner(k as int),
    {
        if k == 0 {
            self.v0
        } else if k == 1 {
            self.v1
        } else {
            self.v2
        }
    }

    pub open spec fn spec_with_corner(self, k: int, p: Position) -> Tri {
        if k == 0 {
            Tri { v0: p, ..self }
        } else if k == 1 {
            Tri { v1: p, ..self }
        } else {
            Tri { v2: p, ..self }
        }
    }

    /// This triangle with corner `k` at `p`.
    pub fn with_corner(self, k: usize, p: Position) -> (r: Tri)
        requires
            k < 3,
        ensures
            r == self.spec_with_corner(k as int, p),
    {
        if k == 0 {
            Tri { v0: p, ..self }
        } else if k == 1 {
            Tri { v1: p, ..self }
        } else {
            Tri { v2: p, ..self }
        }
    }
}

/// A representation that can be built from a triangle, one way. Scanning
/// once can thus fill a list of any such representation.
pub trait FromObjTri: Sized {
    /// What `from_obj_tri` builds from `tri`.
    spec fn spec_from_obj_tri(tri: Tri) -> Self;

    fn from_obj_tri(tri: Tri) -> (r: Self)
        ensures
            r == Self::spec_from_obj_tri(tri),
    ;
}

impl FromObjTri for Tri {
    open spec fn spec_from_obj_tri(tri: Tri) -> Tri {
        tri
    }

    fn from_obj_tri(tri: Tri) -> (r: Tri) {
        tri
    }
}

/// One corner of the expanded mesh: its position, and in `norm` the number of
/// the triangle whose normal it carries.
#[derive(Clone, Copy, Debug, PartialEq, Eq)]
pub struct Vertex {
    pub pos: Position,
    pub norm: usize,
}

/// A triangle soup ready for upload: three vertices per triangle and the
/// indices `0, 1, 2, ...` that draw them in order.
pub struct Mesh {
    pub verts: Vec<Vertex>,
    pub indices: Vec<u32>,
}

/// The faces of `text` converted to `T`, in the order of their lines.
pub open spec fn converted_faces<T: FromObjTri>(faces: Seq<Tri>) -> Seq<T> {
    faces.map_values(|f: Tri| T::spec_from_obj_tri(f))
}

/// Scans `text` and appends one converted triangle per face to `tris`. On a
/// malformed token `tris` is left as it was.
pub fn parse_obj_as_tris<T: FromObjTri>(tris: &mut Vec<T>, text: &[char]) -> (r: Result<
    (),
    ObjError,
>)
    ensures
        r is Ok <==> scan_text(text@) is Ok,
        r is Ok ==> final(tris)@ == old(tris)@ + converted_faces::<T>(
            scan_text(text@)->Ok_0.faces,
        ),
        r is Err ==> scan_text(text@) == Err::<ScanModel, ObjError>(r->Err_0)
            && final(tris)@ == old(tris)@,
{
    let tables = match scan_obj(text) {
        Ok(t) => t,
        Err(e) => {
            return Err(e);
        },
    };
    let ghost faces = tables.faces@;
    let ghost start = tris@;
    let mut k: usize = 0;
    while k < tables.faces.len()
        invariant
            k <= faces.len(),
            faces == tables.faces@,
            tris@ == start + converted_faces::<T>(faces.take(k as int)),
        decreases faces.len() - k,
    {
        let f = tables.faces[k];
        let tri = Tri::new(f.v0, f.v1, f.v2);
        tris.push(T::from_obj_tri(tri));
        assert(converted_faces::<T>(faces.take(k + 1)) =~= converted_faces::<T>(faces.take(k as int)).push(
            T::spec_from_obj_tri(faces[k as int]),
        ));
        k = k + 1;
    }
    assert(faces.take(faces.len() as int) =~= faces);
    Ok(())
}

impl Mesh {
    /// Whether this mesh is the expansion of `tris`: corner `j` of triangle `t`
    /// is vertex `3t + j`, carries the normal of triangle `t`, and index `k`
    /// is `k`.
    pub open spec fn expands(self, tris: Seq<Tri>) -> bool {
        &&& self.verts@.len() == 3 * tris.len()
        &&& self.indices@.len() == 3 * tris.len()
        &&& forall|t: int, j: int|
            0 <= t < tris.len() && 0 <= j < 3 ==> #[trigger] self.verts@[3 * t + j] == (Vertex {
                pos: tris[t].corner(j),
                norm: t as usize,
            })
        &&& forall|k: int| 0 <= k < self.indices@.len() ==> #[trigger] self.indices@[k] == k
    }

    /// Expands `tris` into three vertices and three indices per triangle,
    /// sharing no vertex between triangles.
    pub fn from_tris(tris: &Vec<Tri>) -> (r: Mesh)
        requires
            tris@.len() <= 0x5555_5555,
        ensures
            r.expands(tris@),
    {
        let n = tris.len();
        let mut mesh = Mesh { verts: Vec::with_capacity(n * 3), indices: Vec::with_capacity(n * 3) };
        let mut t: usize = 0;
        while t < n
            invariant
                n == tris@.len() <= 0x5555_5555,
                t <= n,
                mesh.verts@.len() == 3 * t,
                mesh.indices@.len() == 3 * t,
                forall|u: int, j: int|
                    0 <= u < t && 0 <= j < 3 ==> #[trigger] mesh.verts@[3 * u + j] == (Vertex {
                        pos: tris@[u].corner(j),
                        norm: u as usize,
                    }),
                forall|k: int| 0 <= k < mesh.indices@.len() ==> #[trigger] mesh.indices@[k] == k,
            decreases n - t,
        {
            let tri = &tris[t];
            let mut j: usize = 0;
            while j < 3
                invariant
                    n == tris@.len() <= 0x5555_5555,
                    t < n,
                    j <= 3,
                    *tri == tris@[t as int],
                    mesh.verts@.len() == 3 * t + j,
                    mesh.indices@.len() == 3 * t + j,
                    forall|u: int, i: int|
                        0 <= u < t && 0 <= i < 3 ==> #[trigger] mesh.verts@[3 * u + i] == (Vertex {
                            pos: tris@[u].corner(i),
                            norm: u as usize,
                        }),
                    forall|i: int|
                        0 <= i < j ==> #[trigger] mesh.verts@[3 * t + i] == (Vertex {
                            pos: tris@[t as int].corner(i),
                            norm: t,
                        }),
                    forall|k: int| 0 <= k < mesh.indices@.len() ==> #[trigger] mesh.indices@[k] == k,
                decreases 3 - j,
            {
                mesh.verts.push(Vertex { pos: tri.get_corner(j), norm: t });
                mesh.indices.push((3 * t + j) as u32);
                j = j + 1;
            }
            t = t + 1;
        }
        mesh
    }

    /// Scans `text` and expands its faces into a mesh.
    pub fn from_obj(text: &[char]) -> (r: Result<Mesh, ObjError>)
        ensures
            match scan_text(text@) {
                Ok(m) => if m.faces.len() <= 0x5555_5555 {
                    r is Ok && r->Ok_0.expands(m.faces)
                } else {
                    r == Err::<Mesh, ObjError>(ObjError::TooManyTriangles)
                },
                Err(e) => r == Err::<Mesh, ObjError>(e),
            },
    {
        let mut tris: Vec<Tri> = Vec::new();
        match parse_obj_as_tris(&mut tris, text) {
            Ok(()) => {},
            Err(e) => {
                return Err(e);
            },
        }
        assert(tris@ =~= scan_text(text@)->Ok_0.faces);
        if tris.len() > 0x5555_5555 {
            return Err(ObjError::TooManyTriangles);
        }
        Ok(Mesh::from_tris(&tris))
    }
}

/// No welding: in the expansion of `tris`, two different triangles never use
/// the same vertex, even where their corners sit at equal positions. Their
/// indices differ, and so do the vertices, which carry different normals.
pub proof fn lemma_triangles_share_no_vertex(
    m: Mesh,
    tris: Seq<Tri>,
    t1: int,
    a: int,
    t2: int,
    b: int,
)
    requires
        m.expands(tris),
        0 <= t1 < tris.len(),
        0 <= t2 < tris.len(),
        t1 != t2,
        0 <= a < 3,
        0 <= b < 3,
    ensures
        m.indices@[3 * t1 + a] != m.indices@[3 * t2 + b],
        m.verts@[3 * t1 + a] != m.verts@[3 * t2 + b],
{
    assert(m.verts@[3 * t1 + a].norm == t1 as usize);
    assert(m.verts@[3 * t2 + b].norm == t2 as usize);
}

} // verus!
