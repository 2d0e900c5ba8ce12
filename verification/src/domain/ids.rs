//! Identities of resources and profiles.

use vstd::prelude::*;
use crate::text::{text_equal, text_precedes, precedes};

verus! {

/// The stable identity of a resource, qualified by the profile that declares it.
#[derive(Debug, PartialEq, Eq)]
pub struct FullyQualifiedResourceId {
    text: String,
}

impl View for FullyQualifiedResourceId {
    type V = Seq<char>;

    closed spec fn view(&self) -> Seq<char> {
        self.text@
    }
}

impl Clone for FullyQualifiedResourceId {
    fn clone(&self) -> (copy: Self)
        ensures
            copy@ == self@,
    {
        FullyQualifiedResourceId { text: self.text.clone() }
    }
}

impl FullyQualifiedResourceId {
    /// The identity written as `text`.
    pub fn new(text: String) -> (id: Self)
        ensures
            id@ == text@,
    {
        FullyQualifiedResourceId { text }
    }

    /// The written form of the identity.
    pub fn as_str(&self) -> (text: &str)
        ensures
            text@ == self@,
    {
        self.text.as_str()
    }

    /// Whether two identities are the same.
    pub fn same(&self, other: &Self) -> (equal: bool)
        ensures
            equal == (self@ == other@),
    {
        text_equal(self.as_str(), other.as_str())
    }

    /// Whether this identity is listed before another.
    pub fn is_before(&self, other: &Self) -> (before: bool)
        ensures
            before == precedes(self@, other@),
    {
        text_precedes(self.as_str(), other.as_str())
    }
}

/// The identity of a profile.
#[derive(Debug, PartialEq, Eq)]
pub struct ProfileId {
    text: String,
}

impl View for ProfileId {
    type V = Seq<char>;

    closed spec fn view(&self) -> Seq<char> {
        self.text@
    }
}

impl Clone for ProfileId {
    fn clone(&self) -> (copy: Self)
        ensures
            copy@ == self@,
    {
        ProfileId { text: self.text.clone() }
    }
}

impl ProfileId {
    /// The identity written as `text`.
    pub fn new(text: String) -> (id: Self)
        ensures
            id@ == text@,
    {
        ProfileId { text }
    }

    /// The written form of the identity.
    pub fn as_str(&self) -> (text: &str)
        ensures
            text@ == self@,
    {
        self.text.as_str()
    }

    /// Whether two identities are the same.
    pub fn same(&self, other: &Self) -> (equal: bool)
        ensures
            equal == (self@ == other@),
    {
        text_equal(self.as_str(), other.as_str())
    }
}

} // verus!
