use vstd::prelude::*;

use crate::config::EMBEDDING_LENGTH;
use crate::errors::Error;

verus! {

/// A fixed-dimension embedding vector.
///
/// Components are carried as opaque 64-bit patterns: this library never does
/// arithmetic on them, it only enforces the dimension invariant and moves
/// them between the log, the index snapshot and the caller.  The surrounding
/// application interprets each component numerically.
pub struct Vector {
    pub data: Vec<u64>,
}

impl View for Vector {
    type V = Seq<u64>;

    open spec fn view(&self) -> Seq<u64> {
        self.data@
    }
}

impl Vector {
    /// Dimension invariant: every constructed vector has exactly the fixed
    /// embedding length.
    pub open spec fn wf(&self) -> bool {
        self@.len() == EMBEDDING_LENGTH
    }

    /// Validates a raw component array and wraps it into a vector.
    /// Succeeds exactly when the array has the fixed embedding length.
    pub fn from_raw(values: Vec<u64>) -> (r: Result<Vector, Error>)
        ensures
            r is Ok <==> values@.len() == EMBEDDING_LENGTH,
            r matches Ok(v) ==> v@ == values@ && v.wf(),
            r is Err ==> r == Result::<Vector, Error>::Err(Error::DimensionMismatch),
    {
        if values.len() == EMBEDDING_LENGTH {
            Ok(Vector { data: values })
        } else {
            Err(Error::DimensionMismatch)
        }
    }

    /// The components of the vector.
    pub fn components(&self) -> (r: &Vec<u64>)
        ensures
            r@ == self@,
    {
        &self.data
    }
}

impl Clone for Vector {
    fn clone(&self) -> (r: Self)
        ensures
            r@ == self@,
    {
        Vector { data: self.data.clone() }
    }
}

} // verus!
