//! The first, JSON-file based tag model.

use vstd::prelude::*;

use crate::todo::now_rfc3339;

verus! {

/// A tag of the first data model.
#[derive(Debug, Clone)]
pub struct Tag {
    pub id: u64,
    pub name: String,
    pub description: String,
    pub created_at: String,
    pub updated_at: String,
}

impl Tag {
    /// A new tag, stamped with the current time (read once for each stamp).
    pub fn new(id: u64, name: &str, description: &str) -> (r: Tag)
        ensures
            r.id == id,
            r.name@ == name@,
            r.description@ == description@,
    {
        Tag {
            id,
            name: name.to_string(),
            description: description.to_string(),
            created_at: now_rfc3339(),
            updated_at: now_rfc3339(),
        }
    }

    /// The tag's ID.
    pub fn id(&self) -> (r: u64)
        ensures
            r == self.id,
    {
        self.id
    }

    /// The text a tag shows as: its name.
    pub fn display_text(&self) -> (r: String)
        ensures
            r@ == self.name@,
    {
        self.name.clone()
    }
}

} // verus!
