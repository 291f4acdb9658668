//! The two flat streams of a model: one position and one normal for each
//! corner of each face, with nothing shared.
use crate::model::{all_numeric_in, triples, Coords, Object};
use crate::number::number;
use vstd::prelude::*;

verus! {

impl Coords {
    /// Whether each of the three coordinates is a decimal floating-point
    /// literal.
    pub fn is_numeric(&self) -> (r: bool)
        ensures
            r == self@.numeric(),
    {
        number(&self.x) && number(&self.y) && number(&self.z)
    }
}

/// Whether each entry of a table is numeric.
fn all_numeric(table: &Vec<Coords>) -> (r: bool)
    ensures
        r == all_numeric_in(triples(table@)),
{
    let mut k: usize = 0;
    while k < table.len()
        invariant
            k <= table.len(),
            forall|i: int| 0 <= i < k ==> (#[trigger] triples(table@)[i]).numeric(),
        decreases table.len() - k,
    {
        if !table[k].is_numeric() {
            assert(!triples(table@)[k as int].numeric());
            return false;
        }
        k += 1;
    }
    true
}

impl Object {
    /// Whether the model is well-formed: a model that was read from a text
    /// always is.
    pub fn is_well_formed(&self) -> (r: bool)
        ensures
            r == self@.wf(),
    {
        if self.faces.len() % 3 != 0 {
            return false;
        }
        let mut k: usize = 0;
        while k < self.faces.len()
            invariant
                k <= self.faces.len(),
                self.faces.len() % 3 == 0,
                forall|i: int| 0 <= i < k ==> (#[trigger] self@.faces[i]).vertex < self@.vertices.len(),
                forall|i: int|
                    0 <= i < k ==> match (#[trigger] self@.faces[i]).normal {
                        Some(n) => n < self@.normals.len(),
                        None => true,
                    },
            decreases self.faces.len() - k,
        {
            let corner = self.faces[k];
            assert(self@.faces[k as int] == corner);
            if corner.vertex >= self.vertices.len() {
                return false;
            }
            match corner.normal {
                Some(n) => {
                    if n >= self.normals.len() {
                        return false;
                    }
                },
                None => {},
            }
            k += 1;
        }
        all_numeric(&self.vertices) && all_numeric(&self.normals)
    }

    /// The position of each corner, in the order of the corners.
    pub fn vertices(&self) -> (r: Vec<Coords>)
        requires
            self@.wf(),
        ensures
            triples(r@) == self@.positions(),
            r@.len() == 3 * self@.face_count(),
    {
        let mut r: Vec<Coords> = Vec::new();
        let mut k: usize = 0;
        while k < self.faces.len()
            invariant
                k <= self.faces.len(),
                self@.wf(),
                r@.len() == k,
                forall|i: int| 0 <= i < k ==> (#[trigger] r@[i])@ == self@.positions()[i],
            decreases self.faces.len() - k,
        {
            let corner = self.faces[k];
            assert(self@.faces[k as int] == corner);
            r.push(self.vertices[corner.vertex].copy());
            k += 1;
        }
        assert(triples(r@) =~= self@.positions());
        r
    }

    /// The normal of each corner, in the order of the corners; three zeros
    /// for a corner that has none.
    pub fn normals(&self) -> (r: Vec<Coords>)
        requires
            self@.wf(),
        ensures
            triples(r@) == self@.corner_normals(),
            r@.len() == 3 * self@.face_count(),
    {
        let mut r: Vec<Coords> = Vec::new();
        let mut k: usize = 0;
        while k < self.faces.len()
            invariant
                k <= self.faces.len(),
                self@.wf(),
                r@.len() == k,
                forall|i: int| 0 <= i < k ==> (#[trigger] r@[i])@ == self@.corner_normals()[i],
            decreases self.faces.len() - k,
        {
            let corner = self.faces[k];
            assert(self@.faces[k as int] == corner);
            let coords = match corner.normal {
                Some(n) => self.normals[n].copy(),
                None => Coords::zero(),
            };
            r.push(coords);
            k += 1;
        }
        assert(triples(r@) =~= self@.corner_normals());
        r
    }
}

} // verus!
