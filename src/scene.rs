use vstd::prelude::*;

use crate::id_vendor::IdVendor;

verus! {

/// The kinds of object that a scene hands out ids for.
#[derive(Debug, Clone, Copy, PartialEq, Eq, Structural)]
pub enum ObjectType {
    Camera,
    Sphere,
    TriangleMesh,
    Triangle,
}

/// The id and the kind of one named object of a scene.
#[derive(Debug, Clone, Copy, PartialEq, Eq, Structural)]
pub struct ObjectInfo {
    pub id: usize,
    pub o_type: ObjectType,
}

impl ObjectInfo {
    pub fn new(id: usize, o_type: ObjectType) -> (r: ObjectInfo)
        ensures
            r.id == id,
            r.o_type == o_type,
    {
        ObjectInfo { id, o_type }
    }
}

/// Whether `obj_type` is one of `invalid_types`.
pub fn check_type(obj_type: ObjectType, invalid_types: Vec<ObjectType>) -> (r: bool)
    ensures
        r == invalid_types@.contains(obj_type),
{
    let mut i: usize = 0;
    while i < invalid_types.len()
        invariant
            i <= invalid_types.len(),
            forall|k: int| 0 <= k < i ==> invalid_types@[k] != obj_type,
        decreases invalid_types.len() - i,
    {
        if invalid_types[i] == obj_type {
            return true;
        }
        i = i + 1;
    }
    false
}

/// Why an animation step refuses the object that an alias names.
#[derive(Debug, Clone, Copy, PartialEq, Eq, Structural)]
pub enum AliasError {
    /// No object is registered under the alias.
    Unknown,
    /// The object is of a kind that the step cannot apply to.
    InvalidType,
}

/// The object that `alias` names, provided that its kind is not one of
/// `invalid_types`.
pub fn check_and_get_alias(vendor: &IdVendor, alias: &str, invalid_types: &Vec<ObjectType>) -> (r: Result<ObjectInfo, AliasError>)
    ensures
        !vendor.aliases().contains_key(alias@) ==> r == Err::<ObjectInfo, AliasError>(AliasError::Unknown),
        vendor.aliases().contains_key(alias@) ==> r == (if invalid_types@.contains(vendor.aliases()[alias@].o_type) {
            Err(AliasError::InvalidType)
        } else {
            Ok(vendor.aliases()[alias@])
        }),
{
    match vendor.alias_lookup(alias) {
        None => Err(AliasError::Unknown),
        Some(info) => {
            if check_type(info.o_type, invalid_types.clone()) {
                Err(AliasError::InvalidType)
            } else {
                Ok(info)
            }
        },
    }
}

} // verus!
