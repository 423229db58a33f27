//! Meshes: a list of vertices and the faces that join them.

use vstd::prelude::*;
use crate::triangle::Triangle3D;
use crate::vector::Vec3;

verus! {

/// A mesh as the rasterizer reads it. Each face names three vertices by
/// their place in `vertices`; a face is in range when all three places
/// exist.
///
/// The vertices may be replaced between frames, as the mesh or the camera
/// moves. [`crate::scene::Scene::render`] reads them as points of clip
/// space.
#[derive(Clone, Debug)]
pub struct Object {
    pub vertices: Vec<Vec3>,
    pub triangles: Vec<[usize; 3]>,
}

impl Object {
    /// Whether each of the three places that `face` names holds a vertex.
    pub open spec fn face_in_range(self, face: [usize; 3]) -> bool {
        face[0] < self.vertices@.len() && face[1] < self.vertices@.len() && face[2]
            < self.vertices@.len()
    }

    /// The triangle that `face` joins.
    pub open spec fn triangle_spec(self, face: [usize; 3]) -> Triangle3D {
        Triangle3D {
            v0: self.vertices@[face[0] as int],
            v1: self.vertices@[face[1] as int],
            v2: self.vertices@[face[2] as int],
        }
    }

    /// Whether every face of the mesh is in range.
    pub open spec fn valid(self) -> bool {
        forall|i: int|
            0 <= i < self.triangles@.len() ==> self.face_in_range(#[trigger] self.triangles@[i])
    }

    /// The mesh with the given vertices and faces.
    pub fn new(vertices: Vec<Vec3>, triangles: Vec<[usize; 3]>) -> (r: Self)
        ensures
            r.vertices == vertices,
            r.triangles == triangles,
    {
        Object { vertices, triangles }
    }

    /// The triangle that `indices` joins, or `None` when one of the three
    /// places holds no vertex.
    pub fn get_triangle(&self, indices: [usize; 3]) -> (r: Option<Triangle3D>)
        ensures
            r == if self.face_in_range(indices) {
                Some(self.triangle_spec(indices))
            } else {
                None
            },
    {
        let n = self.vertices.len();
        if indices[0] < n && indices[1] < n && indices[2] < n {
            Some(self.get_triangle_unchecked(indices))
        } else {
            None
        }
    }

    /// The triangle that `indices` joins, for a face that is in range.
    pub fn get_triangle_unchecked(&self, indices: [usize; 3]) -> (r: Triangle3D)
        requires
            self.face_in_range(indices),
        ensures
            r == self.triangle_spec(indices),
    {
        Triangle3D::new(
            self.vertices[indices[0]],
            self.vertices[indices[1]],
            self.vertices[indices[2]],
        )
    }

    /// Whether every face of the mesh is in range.
    pub fn is_valid(&self) -> (r: bool)
        ensures
            r == self.valid(),
    {
        let n = self.vertices.len();
        let mut i: usize = 0;
        while i < self.triangles.len()
            invariant
                i <= self.triangles@.len(),
                n == self.vertices@.len(),
                forall|j: int| 0 <= j < i ==> self.face_in_range(#[trigger] self.triangles@[j]),
            decreases self.triangles@.len() - i,
        {
            let face = self.triangles[i];
            if !(face[0] < n && face[1] < n && face[2] < n) {
                return false;
            }
            i += 1;
        }
        true
    }

    /// Groups a flat list of vertex numbers into faces, three by three in
    /// order. Numbers left over at the end, fewer than three, are dropped.
    pub fn triangles_from_indices(indices: &Vec<u32>) -> (r: Vec<[usize; 3]>)
        ensures
            r@.len() == indices@.len() / 3,
            forall|i: int|
                0 <= i < r@.len() ==> (#[trigger] r@[i])@ == seq![
                    indices@[3 * i] as usize,
                    indices@[3 * i + 1] as usize,
                    indices@[3 * i + 2] as usize,
                ],
    {
        let mut out: Vec<[usize; 3]> = Vec::new();
        let len: usize = indices.len();
        let count: usize = len / 3;
        let mut i: usize = 0;
        while i < count
            invariant
                i <= count,
                len == indices@.len(),
                count == len / 3,
                out@.len() == i,
                forall|j: int|
                    0 <= j < i ==> (#[trigger] out@[j])@ == seq![
                        indices@[3 * j] as usize,
                        indices@[3 * j + 1] as usize,
                        indices@[3 * j + 2] as usize,
                    ],
            decreases count - i,
        {
            let face: [usize; 3] = [
                indices[3 * i] as usize,
                indices[3 * i + 1] as usize,
                indices[3 * i + 2] as usize,
            ];
            proof {
                assert(face@ =~= seq![
                    indices@[3 * i] as usize,
                    indices@[3 * i + 1] as usize,
                    indices@[3 * i + 2] as usize,
                ]);
            }
            out.push(face);
            i += 1;
        }
        out
    }
}

/// Picks `items` by number: the result holds, for each entry of `indices`
/// in order, the item at that place. `None` when an entry names a place
/// that `items` does not have.
pub fn gather<T: Copy>(items: &Vec<T>, indices: &Vec<u32>) -> (r: Option<Vec<T>>)
    ensures
        r is Some <==> forall|i: int|
            0 <= i < indices@.len() ==> (#[trigger] indices@[i]) < items@.len(),
        r is Some ==> r->Some_0@.len() == indices@.len() && forall|i: int|
            0 <= i < indices@.len() ==> (#[trigger] r->Some_0@[i]) == items@[indices@[i] as int],
{
    let mut out: Vec<T> = Vec::new();
    let mut i: usize = 0;
    while i < indices.len()
        invariant
            i <= indices@.len(),
            out@.len() == i,
            forall|j: int| 0 <= j < i ==> (#[trigger] indices@[j]) < items@.len(),
            forall|j: int| 0 <= j < i ==> (#[trigger] out@[j]) == items@[indices@[j] as int],
        decreases indices@.len() - i,
    {
        let place: usize = indices[i] as usize;
        if place >= items.len() {
            return None;
        }
        out.push(items[place]);
        i += 1;
    }
    Some(out)
}

} // verus!
