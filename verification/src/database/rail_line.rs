use vstd::prelude::*;

verus! {

/// A rail line.
#[derive(Debug, PartialEq, Eq)]
pub struct Model {
    pub id: i32,
    pub name: String,
}

impl Clone for Model {
    fn clone(&self) -> (result: Self)
        ensures
            result == *self,
    {
        Model { id: self.id, name: self.name.clone() }
    }
}

} // verus!
