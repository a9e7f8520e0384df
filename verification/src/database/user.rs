use vstd::prelude::*;

verus! {

/// A subscriber.
#[derive(Debug, PartialEq, Eq)]
pub struct Model {
    pub id: i32,
    pub email: String,
}

impl Clone for Model {
    fn clone(&self) -> (result: Self)
        ensures
            result == *self,
    {
        Model { id: self.id, email: self.email.clone() }
    }
}

} // verus!
