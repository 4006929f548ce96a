//! The index buffers that the rendering of package thumbnails draws from.
use vstd::prelude::*;

use crate::core_model::mesh::Triangles;

verus! {

/// Errors while the render data of a package is gathered.
#[derive(Debug, Clone, Copy, PartialEq, Eq, Structural)]
pub enum DbFrom3mfError {
    /// No object has the id.
    ObjectNotFound(usize),
    /// The composed object with the id has no components.
    EmptyComposedPart(usize),
    /// The object with the id is neither a mesh nor a composition.
    EmptyObject(usize),
}

/// The index buffer of a triangle mesh: the three vertex indices of each
/// triangle in turn, cut to 32 bits.
pub fn convert_triangles_to_indices(triangles: &Triangles) -> (r: Vec<u32>)
    ensures
        r@.len() == 3 * triangles.triangle@.len(),
        forall|k: int| 0 <= k < triangles.triangle@.len() ==> {
            &&& r@[3 * k] == (#[trigger] triangles.triangle@[k]).v1 as u32
            &&& r@[3 * k + 1] == triangles.triangle@[k].v2 as u32
            &&& r@[3 * k + 2] == triangles.triangle@[k].v3 as u32
        },
{
    let ts = &triangles.triangle;
    let mut out: Vec<u32> = Vec::new();
    let mut i: usize = 0;
    while i < ts.len()
        invariant
            ts@ == triangles.triangle@,
            i <= ts.len(),
            out@.len() == 3 * i,
            forall|k: int| 0 <= k < i ==> {
                &&& out@[3 * k] == (#[trigger] ts@[k]).v1 as u32
                &&& out@[3 * k + 1] == ts@[k].v2 as u32
                &&& out@[3 * k + 2] == ts@[k].v3 as u32
            },
        decreases ts.len() - i,
    {
        let t = &ts[i];
        out.push(t.v1 as u32);
        out.push(t.v2 as u32);
        out.push(t.v3 as u32);
        i = i + 1;
    }
    out
}

/// The index buffer of the wireframe of a triangle index buffer: for each
/// triangle `a b c`, the edges `a b`, `b c` and `c a`.
pub fn convert_triangles_to_wireframe_indices(triangles: &[u32]) -> (r: Vec<u32>)
    requires
        triangles@.len() % 3 == 0,
    ensures
        r@.len() == 2 * triangles@.len(),
        forall|k: int| 0 <= k < triangles@.len() / 3 ==> {
            let a = triangles@[3 * k];
            let b = triangles@[3 * k + 1];
            let c = triangles@[3 * k + 2];
            &&& #[trigger] r@[6 * k] == a
            &&& r@[6 * k + 1] == b
            &&& r@[6 * k + 2] == b
            &&& r@[6 * k + 3] == c
            &&& r@[6 * k + 4] == c
            &&& r@[6 * k + 5] == a
        },
{
    let n = triangles.len() / 3;
    let mut out: Vec<u32> = Vec::new();
    let mut i: usize = 0;
    let mut j: usize = 0;
    while i < n
        invariant
            n == triangles@.len() / 3,
            triangles@.len() % 3 == 0,
            i <= n,
            j == 3 * i,
            out@.len() == 6 * i,
            forall|k: int| 0 <= k < i ==> {
                let a = triangles@[3 * k];
                let b = triangles@[3 * k + 1];
                let c = triangles@[3 * k + 2];
                &&& #[trigger] out@[6 * k] == a
                &&& out@[6 * k + 1] == b
                &&& out@[6 * k + 2] == b
                &&& out@[6 * k + 3] == c
                &&& out@[6 * k + 4] == c
                &&& out@[6 * k + 5] == a
            },
        decreases n - i,
    {
        let a = triangles[j];
        let b = triangles[j + 1];
        let c = triangles[j + 2];
        let ghost before = out@;
        out.push(a);
        out.push(b);
        out.push(b);
        out.push(c);
        out.push(c);
        out.push(a);
        proof {
            assert forall|k: int| 0 <= k <= i implies {
                let a = triangles@[3 * k];
                let b = triangles@[3 * k + 1];
                let c = triangles@[3 * k + 2];
                &&& #[trigger] out@[6 * k] == a
                &&& out@[6 * k + 1] == b
                &&& out@[6 * k + 2] == b
                &&& out@[6 * k + 3] == c
                &&& out@[6 * k + 4] == c
                &&& out@[6 * k + 5] == a
            } by {
                if k < i {
                    assert(out@[6 * k] == before[6 * k]);
                    assert(out@[6 * k + 1] == before[6 * k + 1]);
                    assert(out@[6 * k + 2] == before[6 * k + 2]);
                    assert(out@[6 * k + 3] == before[6 * k + 3]);
                    assert(out@[6 * k + 4] == before[6 * k + 4]);
                    assert(out@[6 * k + 5] == before[6 * k + 5]);
                }
            }
        }
        i = i + 1;
        j = j + 3;
    }
    out
}

} // verus!
