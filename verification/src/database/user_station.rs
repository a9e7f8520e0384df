use vstd::prelude::*;

verus! {

/// A link: user `user_id` wants to hear about station `station_id`.
#[derive(Clone, Copy, Debug, PartialEq, Eq, Structural)]
pub struct Model {
    pub user_id: i32,
    pub station_id: i32,
}

} // verus!
