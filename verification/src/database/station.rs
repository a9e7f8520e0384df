use vstd::prelude::*;

verus! {

/// The columns of a station.
pub struct Row {
    pub id: i32,
    pub name: Seq<char>,
}

/// A metro station.
#[derive(Debug, PartialEq, Eq)]
pub struct Model {
    pub id: i32,
    pub name: String,
}

impl Clone for Model {
    fn clone(&self) -> (result: Self)
        ensures
            result == *self,
    {
        Model { id: self.id, name: self.name.clone() }
    }
}

impl View for Model {
    type V = Row;

    open spec fn view(&self) -> Row {
        Row { id: self.id, name: self.name@ }
    }
}

impl Model {
    /// Whether this row agrees with `other` in every column.
    pub fn is_same(&self, other: &Model) -> (result: bool)
        ensures
            result == (self@ == other@),
    {
        self.id == other.id && self.name == other.name
    }
}

/// Two stations are the same row exactly where both their ids and their names agree.
pub proof fn law_rows_tell_both_columns(a: Model, b: Model)
    ensures
        a@.id == a.id,
        a@.name == a.name@,
        a@ == b@ <==> a.id == b.id && a.name@ == b.name@,
{
}

} // verus!
