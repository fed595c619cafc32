//! Types nested in the wire admission request.
use vstd::prelude::*;

verus! {

/// The type of resource operation being admitted, as carried on the wire
/// (protocol numbers `0`, `1` and `2`, in declaration order).
#[derive(Clone, Copy, Debug, PartialEq, Eq, Hash, Structural)]
pub enum Operation {
    /// The object is being created.
    Create,
    /// The object is being updated.
    Update,
    /// The object is being deleted.
    Delete,
}

/// The protocol number of an operation.
pub open spec fn operation_number(op: Operation) -> int {
    match op {
        Operation::Create => 0,
        Operation::Update => 1,
        Operation::Delete => 2,
    }
}

/// The operation that a protocol number reads as; a number that names no
/// operation reads as `Create`, the protocol's default.
pub open spec fn operation_of(n: int) -> Operation {
    if n == 1 {
        Operation::Update
    } else if n == 2 {
        Operation::Delete
    } else {
        Operation::Create
    }
}

/// An operation reads back as itself from its protocol number, and each of
/// the protocol numbers `0`, `1` and `2` is the number of the operation it
/// reads as.
pub proof fn law_operation_number_round_trip(op: Operation, n: int)
    ensures
        operation_of(operation_number(op)) == op,
        0 <= n <= 2 ==> operation_number(operation_of(n)) == n,
{
}

impl Operation {
    /// The operation with protocol number `value`, if there is one.
    pub fn from_i32(value: i32) -> (op: Option<Operation>)
        ensures
            match op {
                Some(o) => operation_number(o) == value,
                None => !(0 <= value <= 2),
            },
    {
        if value == 0 {
            Some(Operation::Create)
        } else if value == 1 {
            Some(Operation::Update)
        } else if value == 2 {
            Some(Operation::Delete)
        } else {
            None
        }
    }

    /// The protocol number of this operation.
    pub fn number(&self) -> (n: i32)
        ensures
            n == operation_number(*self),
    {
        match self {
            Operation::Create => 0,
            Operation::Update => 1,
            Operation::Delete => 2,
        }
    }
}

} // verus!
