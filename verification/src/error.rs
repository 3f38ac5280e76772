use vstd::prelude::*;

verus! {

/// The ways in which a request on a matrix, a mesh or a problem is turned down.
#[derive(Debug, Clone, Copy, PartialEq, Eq, Structural)]
pub enum FemError {
    /// A row or a column beyond the extent of a matrix.
    IndexOutOfBounds,
    /// Matrix algebra on shapes that do not fit each other.
    DimensionMismatch,
    /// A problem that leaves no free unknown.
    DegenerateSystem,
    /// A system whose elimination meets a pivot too small to divide by.
    SingularSystem,
    /// A mesh with no element, or with coordinates that do not increase.
    InvalidMeshSpec,
}

impl FemError {
    /// What the error says, in words.
    pub open spec fn message_spec(self) -> Seq<char> {
        match self {
            FemError::IndexOutOfBounds => "index out of bounds"@,
            FemError::DimensionMismatch => "matrix dimensions do not match"@,
            FemError::DegenerateSystem => "the problem leaves no free unknown"@,
            FemError::SingularSystem => "the system is singular"@,
            FemError::InvalidMeshSpec => "the mesh is not valid"@,
        }
    }

    /// What the error says, in words.
    pub fn message(&self) -> (s: &'static str)
        ensures
            s@ == self.message_spec(),
    {
        match self {
            FemError::IndexOutOfBounds => "index out of bounds",
            FemError::DimensionMismatch => "matrix dimensions do not match",
            FemError::DegenerateSystem => "the problem leaves no free unknown",
            FemError::SingularSystem => "the system is singular",
            FemError::InvalidMeshSpec => "the mesh is not valid",
        }
    }
}

} // verus!
