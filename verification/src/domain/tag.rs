use vstd::prelude::*;
use vstd::string::StrSliceExecFns;

use crate::domain::clock::{now, Timestamp};
use crate::error::DomainError;
use crate::text::{is_blank, is_blank_str};

verus! {

/// The identifier of a tag: an integer of at least zero.
#[derive(Debug, Clone, Copy, PartialEq, Eq, Hash, Structural)]
pub struct TagId(i32);

impl View for TagId {
    type V = i32;

    closed spec fn view(&self) -> i32 {
        self.0
    }
}

/// Two tag IDs are equal exactly when their values are.
pub broadcast proof fn lemma_tag_id_view_eq(a: TagId, b: TagId)
    ensures
        (#[trigger] a@ == #[trigger] b@) <==> a == b,
{
}

impl TagId {
    #[verifier::type_invariant]
    spec fn non_negative(self) -> bool {
        self.0 >= 0
    }

    /// A tag ID of `value`; refused when `value` is negative.
    pub fn new(value: i32) -> (r: Result<TagId, DomainError>)
        ensures
            r is Ok <==> value >= 0,
            r matches Ok(id) ==> id@ == value,
            r matches Err(e) ==> e == DomainError::NegativeTagId,
    {
        if value < 0 {
            Err(DomainError::NegativeTagId)
        } else {
            Ok(TagId(value))
        }
    }

    /// The value of the ID, which is never negative.
    pub fn value(&self) -> (r: i32)
        ensures
            r == self@,
            r >= 0,
    {
        proof {
            use_type_invariant(self);
        }
        self.0
    }
}

/// The name of a tag: not blank, and at most 50 bytes long.
#[derive(Debug, PartialEq, Eq, Hash)]
pub struct TagName(String);

impl View for TagName {
    type V = Seq<char>;

    closed spec fn view(&self) -> Seq<char> {
        self.0@
    }
}

impl Clone for TagName {
    fn clone(&self) -> (r: Self)
        ensures
            r@ == self@,
    {
        TagName(self.0.clone())
    }
}

/// Whether `s` is acceptable as a tag name.
pub open spec fn valid_tag_name(s: Seq<char>) -> bool {
    !is_blank(s) && s.len() <= 50
}

impl TagName {
    /// A tag name holding `value` as given (surrounding spaces are kept).
    /// Refused when `value` is blank, or longer than 50 characters.
    pub fn new(value: &str) -> (r: Result<TagName, DomainError>)
        ensures
            r is Ok <==> valid_tag_name(value@),
            r matches Ok(n) ==> n@ == value@,
            r matches Err(e) ==> (e == DomainError::EmptyTagName <==> is_blank(value@)),
            r matches Err(e) ==> (e == DomainError::TagNameTooLong <==> !is_blank(value@)),
    {
        if is_blank_str(value) {
            return Err(DomainError::EmptyTagName);
        }
        if value.unicode_len() > 50 {
            return Err(DomainError::TagNameTooLong);
        }
        Ok(TagName(value.to_string()))
    }

    /// The name.
    pub fn value(&self) -> (r: &str)
        ensures
            r@ == self@,
    {
        self.0.as_str()
    }
}

/// The description of a tag: any text, the empty one included.
#[derive(Debug, PartialEq, Eq)]
pub struct TagDescription(String);

impl View for TagDescription {
    type V = Seq<char>;

    closed spec fn view(&self) -> Seq<char> {
        self.0@
    }
}

impl Clone for TagDescription {
    fn clone(&self) -> (r: Self)
        ensures
            r@ == self@,
    {
        TagDescription(self.0.clone())
    }
}

impl TagDescription {
    /// A description holding `value`; never refused.
    pub fn new(value: &str) -> (r: Result<TagDescription, DomainError>)
        ensures
            r matches Ok(d) && d@ == value@,
    {
        Ok(TagDescription(value.to_string()))
    }

    /// The description.
    pub fn value(&self) -> (r: &str)
        ensures
            r@ == self@,
    {
        self.0.as_str()
    }
}

impl Default for TagDescription {
    fn default() -> (r: Self)
        ensures
            r@ == Seq::<char>::empty(),
    {
        TagDescription(String::new())
    }
}

/// What a tag holds.
pub struct TagModel {
    pub id: TagId,
    pub name: Seq<char>,
    pub description: Seq<char>,
    pub created_at: Timestamp,
    pub updated_at: Timestamp,
}

/// The fields from which a stored tag is rebuilt.
pub struct TagReconstructParams {
    pub id: TagId,
    pub name: TagName,
    pub description: TagDescription,
    pub created_at: Timestamp,
    pub updated_at: Timestamp,
}

/// A tag: the aggregate root that guards the tag's rules.
#[derive(Debug, PartialEq)]
pub struct TagAggregate {
    id: TagId,
    name: TagName,
    description: TagDescription,
    created_at: Timestamp,
    updated_at: Timestamp,
}

impl View for TagAggregate {
    type V = TagModel;

    closed spec fn view(&self) -> TagModel {
        TagModel {
            id: self.id,
            name: self.name@,
            description: self.description@,
            created_at: self.created_at,
            updated_at: self.updated_at,
        }
    }
}

impl Clone for TagAggregate {
    fn clone(&self) -> (r: Self)
        ensures
            r@ == self@,
    {
        TagAggregate {
            id: self.id,
            name: self.name.clone(),
            description: self.description.clone(),
            created_at: self.created_at,
            updated_at: self.updated_at,
        }
    }
}

impl TagAggregate {
    /// A new tag with ID 0 (a repository gives it its ID) and the current
    /// time as both its creation and its update time.
    pub fn new(name: TagName, description: TagDescription) -> (r: TagAggregate)
        ensures
            r@.id@ == 0,
            r@.name == name@,
            r@.description == description@,
            r@.updated_at == r@.created_at,
    {
        let t = now();
        TagAggregate { id: TagId(0), name, description, created_at: t, updated_at: t }
    }

    /// Rebuilds a stored tag from its fields.
    pub fn reconstruct(params: TagReconstructParams) -> (r: TagAggregate)
        ensures
            r@ == (TagModel {
                id: params.id,
                name: params.name@,
                description: params.description@,
                created_at: params.created_at,
                updated_at: params.updated_at,
            }),
    {
        TagAggregate {
            id: params.id,
            name: params.name,
            description: params.description,
            created_at: params.created_at,
            updated_at: params.updated_at,
        }
    }

    /// The same tag under another ID.
    pub fn with_id(self, id: TagId) -> (r: TagAggregate)
        ensures
            r@ == (TagModel { id, ..self@ }),
    {
        TagAggregate { id, ..self }
    }

    /// Renames the tag and stamps the update time.
    pub fn change_name(&mut self, new_name: TagName) -> (r: Result<(), DomainError>)
        ensures
            r is Ok,
            final(self)@ == (TagModel { name: new_name@, updated_at: final(self)@.updated_at, ..old(self)@ }),
    {
        self.name = new_name;
        self.updated_at = now();
        Ok(())
    }

    /// Replaces the description and stamps the update time.
    pub fn change_description(&mut self, new_description: TagDescription) -> (r: Result<(), DomainError>)
        ensures
            r is Ok,
            final(self)@ == (TagModel {
                description: new_description@,
                updated_at: final(self)@.updated_at,
                ..old(self)@
            }),
    {
        self.description = new_description;
        self.updated_at = now();
        Ok(())
    }

    /// The tag's identifier.
    pub fn id(&self) -> (r: &TagId)
        ensures
            *r == self@.id,
    {
        &self.id
    }

    /// The tag's name.
    pub fn name(&self) -> (r: &TagName)
        ensures
            r@ == self@.name,
    {
        &self.name
    }

    /// The tag's description.
    pub fn description(&self) -> (r: &TagDescription)
        ensures
            r@ == self@.description,
    {
        &self.description
    }

    /// When the tag was created.
    pub fn created_at(&self) -> (r: &Timestamp)
        ensures
            *r == self@.created_at,
    {
        &self.created_at
    }

    /// When the tag was last changed.
    pub fn updated_at(&self) -> (r: &Timestamp)
        ensures
            *r == self@.updated_at,
    {
        &self.updated_at
    }
}

} // verus!
