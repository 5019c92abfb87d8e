//! Session identifiers.
use vstd::prelude::*;

verus! {

/// Identifier of a session.
#[derive(Debug, Clone, PartialEq, Eq, Hash)]
pub struct SessionId {
    raw: String,
}

impl View for SessionId {
    type V = Seq<char>;

    closed spec fn view(&self) -> Seq<char> {
        self.raw@
    }
}

impl SessionId {
    /// The identifier with the given text.
    pub fn from_raw(raw: &str) -> (r: SessionId)
        ensures
            r@ == raw@,
    {
        SessionId { raw: raw.to_owned() }
    }

    pub fn as_str(&self) -> (r: &str)
        ensures
            r@ == self@,
    {
        self.raw.as_str()
    }
}

} // verus!
