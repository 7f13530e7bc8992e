use vstd::prelude::*;
use crate::consts::Tile;
use crate::coords::OffsetCoord;

verus! {

/// An enum that represents the 8 possible transforms on the cartesian
/// tetrominoes.
///
/// Identity refers to the null transformation, while Reflect refers to
/// reflecting the tetromino in a mirror parallel to the y-axis (i.e. a
/// horizontal reflection).
#[derive(Clone, Copy, Debug, PartialEq, Eq, Structural)]
pub enum Transform {
    Identity,
    Rot90,
    Rot180,
    Rot270,
    Reflect,
    ReflRot90,
    ReflRot180,
    ReflRot270,
}

impl Transform {
    /// What the transform does to an offset point.
    pub open spec fn spec_apply_one(self, offset: OffsetCoord) -> OffsetCoord {
        let r = offset.rows;
        let c = offset.cols;
        match self {
            Transform::Identity => OffsetCoord { rows: r, cols: c },
            Transform::Rot90 => OffsetCoord { rows: c, cols: -r as isize },
            Transform::Rot180 => OffsetCoord { rows: -r as isize, cols: -c as isize },
            Transform::Rot270 => OffsetCoord { rows: -c as isize, cols: r },
            Transform::Reflect => OffsetCoord { rows: -r as isize, cols: c },
            Transform::ReflRot90 => OffsetCoord { rows: c, cols: r },
            Transform::ReflRot180 => OffsetCoord { rows: r, cols: -c as isize },
            Transform::ReflRot270 => OffsetCoord { rows: -c as isize, cols: -r as isize },
        }
    }

    /// The most direct transform equal to this one on the given tile kind,
    /// quotienting by the kind's symmetry group.
    pub open spec fn spec_canonicalize(self, lits: Tile) -> Transform {
        match lits {
            Tile::L => self,
            Tile::I => match self {
                Transform::Rot180 | Transform::Reflect | Transform::ReflRot180 => (
                Transform::Identity),
                Transform::Rot270 | Transform::ReflRot90 | Transform::ReflRot270 => (
                Transform::Rot90),
                _ => self,
            },
            Tile::T => match self {
                Transform::Reflect => Transform::Identity,
                Transform::ReflRot270 => Transform::Rot90,
                Transform::ReflRot180 => Transform::Rot180,
                Transform::ReflRot90 => Transform::Rot270,
                _ => self,
            },
            Tile::S => match self {
                Transform::Rot180 => Transform::Identity,
                Transform::Rot270 => Transform::Rot90,
                Transform::ReflRot180 => Transform::Reflect,
                Transform::ReflRot270 => Transform::ReflRot90,
                _ => self,
            },
        }
    }

    /// The transforms of the kind's isomorphism group, in canonical order:
    /// exactly the transforms that canonicalize to themselves.
    pub open spec fn spec_enumerate(kind: Tile) -> Seq<Transform> {
        match kind {
            Tile::L => seq![
                Transform::Identity,
                Transform::Rot90,
                Transform::Rot180,
                Transform::Rot270,
                Transform::Reflect,
                Transform::ReflRot90,
                Transform::ReflRot180,
                Transform::ReflRot270,
            ],
            Tile::I => seq![Transform::Identity, Transform::Rot90],
            Tile::T => seq![
                Transform::Identity,
                Transform::Rot90,
                Transform::Rot180,
                Transform::Rot270,
            ],
            Tile::S => seq![
                Transform::Identity,
                Transform::Rot90,
                Transform::Reflect,
                Transform::ReflRot90,
            ],
        }
    }

    /// Gets all transforms in canonical order.
    pub fn all() -> (r: [Transform; 8])
        ensures
            r@ =~= seq![
                Transform::Identity,
                Transform::Rot90,
                Transform::Rot180,
                Transform::Rot270,
                Transform::Reflect,
                Transform::ReflRot90,
                Transform::ReflRot180,
                Transform::ReflRot270,
            ],
    {
        [
            Transform::Identity,
            Transform::Rot90,
            Transform::Rot180,
            Transform::Rot270,
            Transform::Reflect,
            Transform::ReflRot90,
            Transform::ReflRot180,
            Transform::ReflRot270,
        ]
    }

    /// Applies the transformation to an offset point.
    pub fn apply_one(&self, offset: &OffsetCoord) -> (r: OffsetCoord)
        requires
            -10000 <= offset.rows <= 10000,
            -10000 <= offset.cols <= 10000,
        ensures
            r == self.spec_apply_one(*offset),
    {
        let r = offset.rows;
        let c = offset.cols;
        match self {
            Transform::Identity => OffsetCoord { rows: r, cols: c },
            Transform::Rot90 => OffsetCoord { rows: c, cols: -r },
            Transform::Rot180 => OffsetCoord { rows: -r, cols: -c },
            Transform::Rot270 => OffsetCoord { rows: -c, cols: r },
            Transform::Reflect => OffsetCoord { rows: -r, cols: c },
            Transform::ReflRot90 => OffsetCoord { rows: c, cols: r },
            Transform::ReflRot180 => OffsetCoord { rows: r, cols: -c },
            Transform::ReflRot270 => OffsetCoord { rows: -c, cols: -r },
        }
    }

    /// Returns the canonical (most direct) transform for this transform and
    /// the given tile type.
    pub fn canonicalize(&self, lits: &Tile) -> (r: Transform)
        ensures
            r == self.spec_canonicalize(*lits),
    {
        match lits {
            Tile::L => *self,
            Tile::I => match self {
                Transform::Rot180 | Transform::Reflect | Transform::ReflRot180 => (
                Transform::Identity),
                Transform::Rot270 | Transform::ReflRot90 | Transform::ReflRot270 => (
                Transform::Rot90),
                _ => *self,
            },
            Tile::T => match self {
                Transform::Reflect => Transform::Identity,
                Transform::ReflRot270 => Transform::Rot90,
                Transform::ReflRot180 => Transform::Rot180,
                Transform::ReflRot90 => Transform::Rot270,
                _ => *self,
            },
            Tile::S => match self {
                Transform::Rot180 => Transform::Identity,
                Transform::Rot270 => Transform::Rot90,
                Transform::ReflRot180 => Transform::Reflect,
                Transform::ReflRot270 => Transform::ReflRot90,
                _ => *self,
            },
        }
    }

    /// Returns an in-order list of all transformations applicable to the
    /// given tile type: one representative per symmetry class.
    pub fn enumerate(kind: &Tile) -> (r: Vec<Transform>)
        ensures
            r@ =~= Transform::spec_enumerate(*kind),
            1 <= r@.len() <= 8,
            forall|k: int|
                0 <= k < r@.len() ==> (#[trigger] r@[k]).spec_canonicalize(*kind) == r@[k],
    {
        let mut r: Vec<Transform> = Vec::new();
        match kind {
            Tile::L => {
                r.push(Transform::Identity);
                r.push(Transform::Rot90);
                r.push(Transform::Rot180);
                r.push(Transform::Rot270);
                r.push(Transform::Reflect);
                r.push(Transform::ReflRot90);
                r.push(Transform::ReflRot180);
                r.push(Transform::ReflRot270);
            },
            Tile::I => {
                r.push(Transform::Identity);
                r.push(Transform::Rot90);
            },
            Tile::T => {
                r.push(Transform::Identity);
                r.push(Transform::Rot90);
                r.push(Transform::Rot180);
                r.push(Transform::Rot270);
            },
            Tile::S => {
                r.push(Transform::Identity);
                r.push(Transform::Rot90);
                r.push(Transform::Reflect);
                r.push(Transform::ReflRot90);
            },
        }
        r
    }

    /// Returns the transform given by reflecting this transform.
    pub fn reflect(&self) -> (r: Transform)
        ensures
            r == self.spec_reflect(),
    {
        match self {
            Transform::Identity => Transform::Reflect,
            Transform::Rot90 => Transform::ReflRot270,
            Transform::Rot180 => Transform::ReflRot180,
            Transform::Rot270 => Transform::ReflRot90,
            Transform::Reflect => Transform::Identity,
            Transform::ReflRot90 => Transform::Rot270,
            Transform::ReflRot180 => Transform::Rot180,
            Transform::ReflRot270 => Transform::Rot90,
        }
    }

    /// The reflection of the transform.
    pub open spec fn spec_reflect(self) -> Transform {
        match self {
            Transform::Identity => Transform::Reflect,
            Transform::Rot90 => Transform::ReflRot270,
            Transform::Rot180 => Transform::ReflRot180,
            Transform::Rot270 => Transform::ReflRot90,
            Transform::Reflect => Transform::Identity,
            Transform::ReflRot90 => Transform::Rot270,
            Transform::ReflRot180 => Transform::Rot180,
            Transform::ReflRot270 => Transform::Rot90,
        }
    }

    /// Returns the transform given by rotating this transform by 90 degrees.
    pub fn rotate(&self) -> (r: Transform)
        ensures
            r == self.spec_rotate(),
    {
        match self {
            Transform::Identity => Transform::Rot90,
            Transform::Rot90 => Transform::Rot180,
            Transform::Rot180 => Transform::Rot270,
            Transform::Rot270 => Transform::Identity,
            Transform::Reflect => Transform::ReflRot90,
            Transform::ReflRot90 => Transform::ReflRot180,
            Transform::ReflRot180 => Transform::ReflRot270,
            Transform::ReflRot270 => Transform::Reflect,
        }
    }

    /// The 90-degree rotation of the transform.
    pub open spec fn spec_rotate(self) -> Transform {
        match self {
            Transform::Identity => Transform::Rot90,
            Transform::Rot90 => Transform::Rot180,
            Transform::Rot180 => Transform::Rot270,
            Transform::Rot270 => Transform::Identity,
            Transform::Reflect => Transform::ReflRot90,
            Transform::ReflRot90 => Transform::ReflRot180,
            Transform::ReflRot180 => Transform::ReflRot270,
            Transform::ReflRot270 => Transform::Reflect,
        }
    }

    /// The composition of this transform followed by another: the group
    /// operation of the eight-element transform group.
    pub open spec fn spec_compose(self, rhs: Transform) -> Transform {
        match rhs {
            Transform::Identity => self,
            Transform::Rot90 => self.spec_rotate(),
            Transform::Rot180 => self.spec_rotate().spec_rotate(),
            Transform::Rot270 => self.spec_rotate().spec_rotate().spec_rotate(),
            Transform::Reflect => self.spec_reflect(),
            Transform::ReflRot90 => self.spec_reflect().spec_rotate(),
            Transform::ReflRot180 => self.spec_reflect().spec_rotate().spec_rotate(),
            Transform::ReflRot270 => self.spec_reflect().spec_rotate().spec_rotate().spec_rotate(),
        }
    }

    /// Composes this transform with another.
    pub fn compose(&self, rhs: &Transform) -> (r: Transform)
        ensures
            r == self.spec_compose(*rhs),
    {
        match rhs {
            Transform::Identity => *self,
            Transform::Rot90 => self.rotate(),
            Transform::Rot180 => self.rotate().rotate(),
            Transform::Rot270 => self.rotate().rotate().rotate(),
            Transform::Reflect => self.reflect(),
            Transform::ReflRot90 => self.reflect().rotate(),
            Transform::ReflRot180 => self.reflect().rotate().rotate(),
            Transform::ReflRot270 => self.reflect().rotate().rotate().rotate(),
        }
    }
}

} // verus!
