//! The six face directions of a cube, and their place in the output strip.
//!
//! The assembler stacks the faces in the layer order +X, -X, +Y, -Y, +Z,
//! -Z. With x east, y up and z south, those axes name the directions East,
//! West, Top, Bottom, South, North.

use vstd::prelude::*;

verus! {

/// Which side of a cube a face occupies.
#[derive(Clone, Copy, PartialEq, Eq, Structural, Debug)]
pub enum FaceDirection {
    Bottom,
    Top,
    North,
    South,
    West,
    East,
}

/// The layer of the output strip that shows face `d`: the strip stacks
/// +X, -X, +Y, -Y, +Z, -Z, that is East, West, Top, Bottom, South, North.
pub open spec fn spec_layer_index(d: FaceDirection) -> int {
    match d {
        FaceDirection::East => 0,
        FaceDirection::West => 1,
        FaceDirection::Top => 2,
        FaceDirection::Bottom => 3,
        FaceDirection::South => 4,
        FaceDirection::North => 5,
    }
}

impl FaceDirection {
    /// The layer of the output strip that shows this face.
    pub fn layer_index(&self) -> (i: u32)
        ensures
            i as int == spec_layer_index(*self),
    {
        match self {
            FaceDirection::East => 0,
            FaceDirection::West => 1,
            FaceDirection::Top => 2,
            FaceDirection::Bottom => 3,
            FaceDirection::South => 4,
            FaceDirection::North => 5,
        }
    }
}

/// The faces a full cube exposes: all six directions, in the canonical
/// order Bottom, Top, North, South, West, East.
pub fn full_cube() -> (faces: Vec<FaceDirection>)
    ensures
        faces@ == seq![
            FaceDirection::Bottom,
            FaceDirection::Top,
            FaceDirection::North,
            FaceDirection::South,
            FaceDirection::West,
            FaceDirection::East,
        ],
{
    let mut faces: Vec<FaceDirection> = Vec::new();
    faces.push(FaceDirection::Bottom);
    faces.push(FaceDirection::Top);
    faces.push(FaceDirection::North);
    faces.push(FaceDirection::South);
    faces.push(FaceDirection::West);
    faces.push(FaceDirection::East);
    proof {
        assert(faces@ =~= seq![
            FaceDirection::Bottom,
            FaceDirection::Top,
            FaceDirection::North,
            FaceDirection::South,
            FaceDirection::West,
            FaceDirection::East,
        ]);
    }
    faces
}

} // verus!
