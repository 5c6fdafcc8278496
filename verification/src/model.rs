//! The mathematical model of a scanner.
//!
//! A scanner is a text, the index of the first character that has not been
//! consumed for good, and at most one session. A session is a second index
//! that runs ahead of the first, with a phase that says how its chain of
//! steps has fared. Everything else that a scanner reports (characters,
//! byte offsets, line numbers, the matched part) follows from these.

use vstd::prelude::*;
use crate::outcome::MatchType;
use crate::text::{byte_offset, line_number};

verus! {

/// How the chain of steps of a session has fared so far.
#[derive(Clone, Copy, Debug, PartialEq, Eq, Structural)]
pub enum Phase {
    /// No required step has failed; steps are still evaluated.
    Live,
    /// A required step has failed; later steps do nothing.
    Failed,
    /// The caller has declared the match complete; later steps do nothing.
    Matched,
}

/// A session: the position it has reached and its phase.
pub struct SessionState {
    pub at: nat,
    pub phase: Phase,
}

/// A scanner: its text, its committed position and its session, if one is open.
pub struct ScanState {
    pub text: Seq<char>,
    pub cursor: nat,
    pub session: Option<SessionState>,
}

impl ScanState {
    /// The state of a new scanner over `text`.
    pub open spec fn start(text: Seq<char>) -> ScanState {
        ScanState { text, cursor: 0, session: None }
    }

    /// Positions lie inside the text, and a session never stands before the
    /// committed position.
    pub open spec fn wf(self) -> bool {
        &&& self.cursor <= self.text.len()
        &&& self.session matches Some(s) ==> self.cursor <= s.at <= self.text.len()
    }

    /// The two states have the same text and the same committed position,
    /// and a session is open in this one.
    pub open spec fn same_ground(self, other: ScanState) -> bool {
        &&& self.text == other.text
        &&& self.cursor == other.cursor
        &&& self.session is Some
    }

    /// The position that reading and consuming work on: that of the session
    /// while one is open, the committed one otherwise.
    pub open spec fn active(self) -> nat {
        match self.session {
            Some(s) => s.at,
            None => self.cursor,
        }
    }

    /// The number of characters from the active position to the end.
    pub open spec fn unread(self) -> nat {
        if self.active() < self.text.len() {
            (self.text.len() - self.active()) as nat
        } else {
            0
        }
    }

    /// The character `n` places after the active position, if the text
    /// reaches that far.
    pub open spec fn lookahead(self, n: nat) -> Option<char> {
        if self.active() + n < self.text.len() {
            Some(self.text[(self.active() + n) as int])
        } else {
            None
        }
    }

    /// A session is open and its chain has come to an end, by failure or by
    /// the caller's word: the steps of a chain do nothing in such a state.
    pub open spec fn frozen(self) -> bool {
        self.session matches Some(s) && s.phase != Phase::Live
    }

    /// A session is open and has not failed, or was declared matched.
    pub open spec fn succeeded(self) -> bool {
        self.session matches Some(s) && s.phase != Phase::Failed
    }

    /// The state with the active position `k` characters further on.
    pub open spec fn moved(self, k: nat) -> ScanState {
        match self.session {
            Some(s) => ScanState {
                session: Some(SessionState { at: s.at + k, phase: s.phase }),
                ..self
            },
            None => ScanState { cursor: self.cursor + k, ..self },
        }
    }

    /// `after` is this state with the active position some characters
    /// further on, inside the text, and nothing else changed.
    pub open spec fn ran_to(self, after: ScanState) -> bool {
        &&& self.active() <= after.active() <= self.text.len()
        &&& after == self.moved((after.active() - self.active()) as nat)
    }

    /// The state after consuming one character, if there is one left.
    pub open spec fn advanced(self) -> ScanState {
        if self.active() < self.text.len() {
            self.moved(1)
        } else {
            self
        }
    }

    /// A character is left in this state, and `next` is the state after
    /// consuming it.
    pub open spec fn bumped_to(self, next: ScanState) -> bool {
        self.lookahead(0) is Some && next == self.advanced()
    }

    /// The state after asking for a session: a new live session at the
    /// committed position, unless one is open already.
    pub open spec fn opened(self) -> ScanState {
        match self.session {
            Some(_) => self,
            None => ScanState {
                session: Some(SessionState { at: self.cursor, phase: Phase::Live }),
                ..self
            },
        }
    }

    /// The state after a required step has failed: a live session becomes a
    /// failed one. A session that was declared matched stays so, and without
    /// a session there is nothing to mark.
    pub open spec fn failed(self) -> ScanState {
        match self.session {
            Some(s) if s.phase == Phase::Live => ScanState {
                session: Some(SessionState { at: s.at, phase: Phase::Failed }),
                ..self
            },
            _ => self,
        }
    }

    /// The state after the caller has declared the match complete, whatever
    /// the phase was.
    pub open spec fn marked(self) -> ScanState {
        match self.session {
            Some(s) => ScanState {
                session: Some(SessionState { at: s.at, phase: Phase::Matched }),
                ..self
            },
            None => self,
        }
    }

    /// The state after a step that looks at the next character: on a hit the
    /// character is consumed; on a miss a required step fails the session
    /// and an optional one changes nothing.
    pub open spec fn stepped(self, hit: bool, required: bool) -> ScanState {
        if hit {
            self.advanced()
        } else if required {
            self.failed()
        } else {
            self
        }
    }

    /// The state after a step has heard a verdict on the text ahead: a
    /// verdict against it fails the session.
    pub open spec fn judged(self, verdict: bool) -> ScanState {
        if verdict {
            self
        } else {
            self.failed()
        }
    }

    /// The state after the session has been removed: with `commit` the
    /// committed position takes over that of the session, without it the
    /// committed position stays.
    pub open spec fn closed(self, commit: bool) -> ScanState {
        ScanState {
            cursor: if commit {
                self.active()
            } else {
                self.cursor
            },
            session: None,
            ..self
        }
    }

    /// The characters between the committed position and the active one:
    /// what the session has consumed.
    pub open spec fn consumed(self) -> Seq<char> {
        self.text.subrange(self.cursor as int, self.active() as int)
    }

    /// `m` is what a session in this state reports when it is finalized: the
    /// characters that the session consumed, as matched unless the session
    /// has failed, with the flag set.
    pub open spec fn reports<'a>(self, m: MatchType<'a>) -> bool {
        &&& m.part()@ == self.consumed()
        &&& (m is All) == self.succeeded()
        &&& m.consumes()
    }

    /// The byte offsets of the committed and of the active position.
    pub open spec fn byte_span(self) -> (nat, nat) {
        (byte_offset(self.text, self.cursor as int), byte_offset(self.text, self.active() as int))
    }

    /// The line numbers of the committed and of the active position.
    pub open spec fn line_span(self) -> (nat, nat) {
        (line_number(self.text, self.cursor as int), line_number(self.text, self.active() as int))
    }
}

} // verus!
