//! The pointers and method implementations that messages are made of.

use std::any::TypeId;
use vstd::prelude::*;

verus! {

/// A pointer to an Objective-C object in guest memory.
#[derive(Clone, Copy, PartialEq, Eq, Structural, Debug)]
pub struct id {
    /// The guest address.
    pub bits: u32,
}

/// A pointer to a class object.
pub type Class = id;

/// A selector: a pointer to the C string in guest memory that names a method.
#[derive(Clone, Copy, PartialEq, Eq, Structural, Debug)]
pub struct SEL {
    /// The guest address of the name.
    pub bits: u32,
}

/// The null object pointer, which is also the null class pointer.
#[verifier::allow_in_spec]
pub fn nil() -> id
    returns
        (id { bits: 0 }),
{
    id { bits: 0 }
}

impl id {
    /// The pointer with the given guest address.
    #[verifier::allow_in_spec]
    pub fn from_bits(bits: u32) -> id
        returns
            (id { bits }),
    {
        id { bits }
    }
}

impl SEL {
    /// The selector whose name is at the given guest address.
    #[verifier::allow_in_spec]
    pub fn from_bits(bits: u32) -> SEL
        returns
            (SEL { bits }),
    {
        SEL { bits }
    }
}

/// `std::any::TypeId`: an opaque identifier of a Rust type.
#[verifier::external_type_specification]
#[verifier::external_body]
pub struct ExTypeId(TypeId);

/// The identity of a message's Rust signature, and a description of it for
/// people to read.
pub type TypeInfo = (TypeId, &'static str);

/// `TypeId`'s `==`: two identifiers compare equal exactly if they are the same
/// identifier.
#[verifier::external_body]
pub(crate) fn same_type(a: &TypeId, b: &TypeId) -> (same: bool)
    ensures
        same == (*a == *b),
{
    *a == *b
}

/// A method implemented in the host: a number by which the host finds it, and
/// the Rust signature that it was written with.
#[derive(Clone, Copy)]
pub struct HostIMP {
    pub number: u32,
    pub type_info: TypeInfo,
}

/// A method implemented in guest code, at the given address.
#[derive(Clone, Copy)]
pub struct GuestFunction {
    pub address: u32,
}

/// A method implementation.
#[derive(Clone, Copy)]
pub enum IMP {
    Host(HostIMP),
    Guest(GuestFunction),
}

/// A pointer to this struct replaces the normal receiver parameter for
/// `objc_msgSendSuper2` and `msg_send_super2`.
#[derive(Clone, Copy, PartialEq, Eq, Structural, Debug)]
pub struct objc_super {
    pub receiver: id,
    /// A class. The method is looked up from its superclass on.
    pub class: Class,
}

/// A pointer to an `objc_super` in guest memory.
#[derive(Clone, Copy, PartialEq, Eq, Structural, Debug)]
pub struct SuperPtr {
    /// The guest address.
    pub bits: u32,
}

} // verus!
