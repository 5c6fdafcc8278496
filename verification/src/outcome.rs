//! What a finished session reports to its caller.

use vstd::prelude::*;

verus! {

/// The outcome of a session: the part of the text that the session consumed,
/// and whether the chain of steps matched. Each outcome carries a flag that
/// says whether the scanner is to move past that part; it starts out `true`,
/// and the caller may change it before the scanner acts on it.
#[derive(Clone, Copy, Debug)]
pub enum MatchType<'a> {
    /// Every required step matched, or the caller declared the match
    /// complete.
    All(&'a str, bool),
    /// A required step failed; the part holds what was consumed before.
    Few(&'a str, bool),
}

impl<'a> MatchType<'a> {
    /// The part of the text that this outcome carries.
    pub open spec fn part(self) -> &'a str {
        match self {
            MatchType::All(v, _) => v,
            MatchType::Few(v, _) => v,
        }
    }

    /// Whether the scanner is to move past the part.
    pub open spec fn consumes(self) -> bool {
        match self {
            MatchType::All(_, c) => c,
            MatchType::Few(_, c) => c,
        }
    }

    /// This outcome after `consume_on_match(v)`.
    pub open spec fn on_match(self, v: bool) -> Self {
        match self {
            MatchType::All(s, _) => MatchType::All(s, v),
            MatchType::Few(s, c) => MatchType::Few(s, c),
        }
    }

    /// This outcome after `consume_on_not_match(v)`.
    pub open spec fn on_not_match(self, v: bool) -> Self {
        match self {
            MatchType::All(s, c) => MatchType::All(s, c),
            MatchType::Few(s, _) => MatchType::Few(s, v),
        }
    }

    /// The part of the text that the session consumed.
    pub fn value(&self) -> (v: &'a str)
        ensures
            v == self.part(),
    {
        match self {
            Self::All(v, _) => v,
            Self::Few(v, _) => v,
        }
    }

    /// Whether the chain matched.
    pub fn is_matched(&self) -> (b: bool)
        ensures
            b == (*self is All),
    {
        match self {
            Self::All(_, _) => true,
            Self::Few(_, _) => false,
        }
    }

    /// Whether the chain did not match.
    pub fn is_not_matched(&self) -> (b: bool)
        ensures
            b == (*self is Few),
    {
        match self {
            Self::All(_, _) => false,
            Self::Few(_, _) => true,
        }
    }

    /// Sets the flag of an outcome that matched: with `true`, as at the
    /// start, the scanner moves past the part; with `false` it stays. An
    /// outcome that did not match is left as it is.
    pub fn consume_on_match(&mut self, v: bool)
        ensures
            *final(self) == old(self).on_match(v),
    {
        if let Self::All(part, _) = *self {
            *self = Self::All(part, v);
        }
    }

    /// Sets the flag of an outcome that did not match: with `true`, as at
    /// the start, the scanner moves past the part; with `false` it stays.
    /// An outcome that matched is left as it is.
    pub fn consume_on_not_match(&mut self, v: bool)
        ensures
            *final(self) == old(self).on_not_match(v),
    {
        if let Self::Few(part, _) = *self {
            *self = Self::Few(part, v);
        }
    }
}

} // verus!
