//! JSON-valued identifiers used to correlate requests with responses.
//!
//! The protocol allows an id to be a JSON string, a JSON number, or JSON
//! null.  Equality is structural: two ids correlate exactly when they hold
//! the same kind of value and the values themselves are equal.

use vstd::prelude::*;

verus! {

/// A request/response identifier: a JSON string, number, or null.
///
/// Numbers are restricted to unsigned integers, which is what this client
/// ever issues (ids come from a monotonically increasing counter).
#[derive(Debug, PartialEq, Eq, Hash)]
pub enum Id {
    /// JSON null; servers answer with it when they could not read the
    /// request well enough to echo its id.
    Null,
    /// A JSON number.
    Num(u64),
    /// A JSON string.
    Text(String),
}

/// The mathematical value of an [`Id`]: the string case is abstracted to
/// its character sequence.
pub ghost enum IdRep {
    Null,
    Num(u64),
    Text(Seq<char>),
}

impl View for Id {
    type V = IdRep;

    open spec fn view(&self) -> IdRep {
        match self {
            Id::Null => IdRep::Null,
            Id::Num(n) => IdRep::Num(*n),
            Id::Text(s) => IdRep::Text(s@),
        }
    }
}

impl Clone for Id {
    fn clone(&self) -> (res: Self)
        ensures
            res@ == self@,
    {
        match self {
            Id::Null => Id::Null,
            Id::Num(n) => Id::Num(*n),
            Id::Text(s) => Id::Text(s.clone()),
        }
    }
}

/// Structural equality of two identifiers, the relation that decides which
/// response belongs to which request.
pub fn id_equal(a: &Id, b: &Id) -> (r: bool)
    ensures
        r == (a@ == b@),
{
    match a {
        Id::Null => matches!(b, Id::Null),
        Id::Num(x) => match b {
            Id::Num(y) => *x == *y,
            _ => false,
        },
        Id::Text(s) => match b {
            Id::Text(t) => *s == *t,
            _ => false,
        },
    }
}

} // verus!
