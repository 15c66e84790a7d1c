//! Permission tokens: proof that an account may perform a kind of action.

use vstd::prelude::*;

verus! {

/// Identifier of a permission token definition.
pub type PermissionTokenId = String;

/// A kind of permission token. Definitions are equal when their ids are.
#[derive(Debug)]
pub struct PermissionTokenDefinition {
    /// Token identifier.
    pub id: PermissionTokenId,
    /// Description of the token type, as JSON.
    pub metadata: String,
}

impl PartialEq for PermissionTokenDefinition {
    fn eq(&self, other: &PermissionTokenDefinition) -> (r: bool) {
        self.id == other.id
    }
}

impl vstd::std_specs::cmp::PartialEqSpecImpl for PermissionTokenDefinition {
    open spec fn obeys_eq_spec() -> bool {
        true
    }

    open spec fn eq_spec(&self, other: &PermissionTokenDefinition) -> bool {
        self.id@ == other.id@
    }
}

impl Clone for PermissionTokenDefinition {
    fn clone(&self) -> (r: Self)
        ensures
            r == *self,
    {
        PermissionTokenDefinition { id: self.id.clone(), metadata: self.metadata.clone() }
    }
}

impl PermissionTokenDefinition {
    /// Definition with the given id and metadata.
    pub fn new(id: PermissionTokenId, metadata: String) -> (r: PermissionTokenDefinition)
        ensures
            r.id == id,
            r.metadata == metadata,
    {
        PermissionTokenDefinition { id, metadata }
    }

    /// Token identifier.
    pub fn id(&self) -> (r: &PermissionTokenId)
        ensures
            *r == self.id,
    {
        &self.id
    }

    /// Description of the token type.
    pub fn metadata(&self) -> (r: &String)
        ensures
            *r == self.metadata,
    {
        &self.metadata
    }

    /// How the definition is shown: its id.
    pub fn to_display_string(&self) -> (r: String)
        ensures
            r@ == self.id@,
    {
        self.id.clone()
    }
}

/// Stored proof that an account holds a permission: the definition it
/// instantiates and its encoded payload.
#[derive(Debug, Clone, PartialEq, Eq, PartialOrd, Ord, Hash)]
pub struct PermissionToken {
    /// Token identifier.
    pub definition_id: PermissionTokenId,
    /// Encoded token payload.
    pub payload: Vec<u8>,
}

impl PermissionToken {
    /// Token of definition `definition_id` with `payload`.
    pub fn new(definition_id: PermissionTokenId, payload: Vec<u8>) -> (r: PermissionToken)
        ensures
            r.definition_id == definition_id,
            r.payload == payload,
    {
        PermissionToken { definition_id, payload }
    }

    /// Token identifier.
    pub fn definition_id(&self) -> (r: &PermissionTokenId)
        ensures
            *r == self.definition_id,
    {
        &self.definition_id
    }

    /// Encoded token payload.
    pub fn payload(&self) -> (r: &Vec<u8>)
        ensures
            *r == self.payload,
    {
        &self.payload
    }

    /// How the token is shown: its definition id.
    pub fn to_display_string(&self) -> (r: String)
        ensures
            r@ == self.definition_id@,
    {
        self.definition_id.clone()
    }
}

} // verus!
