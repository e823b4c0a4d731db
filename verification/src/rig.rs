use vstd::prelude::*;

verus! {

/// A stored rig record.
pub struct Rig {
    pub id: i32,
    pub title: String,
    pub body: String,
    pub active: bool,
}

/// A rig record about to be inserted, borrowing its text fields.
pub struct NewRig<'a> {
    pub title: &'a str,
    pub body: &'a str,
}

} // verus!
