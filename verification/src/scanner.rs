//! The scanner: a text, a committed position, and at most one session.
//!
//! The steps of a chain take the scanner by mutable reference and hand it
//! back, so that they can be written one after the other. A step that takes
//! a predicate on the scanner hands the predicate the same reference: what
//! the predicate consumes is consumed.
//!
//! Contracts speak of the scanner's view, a [`ScanState`]. Where a step calls
//! a predicate, its contract says what the scanner holds in terms of what the
//! predicate's own contract allows.

use vstd::prelude::*;
use vstd::string::StringSliceAdditionalSpecFns;
use crate::model::{Phase, ScanState, SessionState};
use crate::outcome::MatchType;
use crate::pos::WithPos;
use crate::text::{
    byte_offset, lemma_newlines_bounded, lemma_offsets_ordered, lemma_step, lemma_width_bounds,
    line_number, nth_char, slice_between, tail_from, width_of,
};

verus! {

/// A position in the text: the byte offset and the line number of the
/// character with the given index.
#[derive(Clone, Copy)]
struct Mark {
    byte_pos: usize,
    line: usize,
    index: Ghost<nat>,
}

impl Mark {
    /// The offset and the line are those of the index in `text`.
    spec fn sits_in(self, text: Seq<char>) -> bool {
        &&& self.index@ <= text.len()
        &&& self.byte_pos == byte_offset(text, self.index@ as int)
        &&& self.line == line_number(text, self.index@ as int)
    }
}

/// A session: the position it has reached, and how its chain has fared.
#[derive(Clone, Copy)]
struct Matcher {
    at: Mark,
    phase: Phase,
}

/// A scanner over a text that stays as it is.
///
/// Reading and consuming work on the session while one is open, and on the
/// committed position otherwise. The session is opened by [`Scanny::matcher`]
/// and removed by [`Scanny::finalize`], which alone decides whether the
/// committed position follows it.
pub struct Scanny<'a> {
    whole: &'a str,
    cursor: Mark,
    matcher: Option<Matcher>,
}

impl<'a> View for Scanny<'a> {
    type V = ScanState;

    closed spec fn view(&self) -> ScanState {
        ScanState {
            text: self.whole@,
            cursor: self.cursor.index@,
            session: match self.matcher {
                Some(m) => Some(SessionState { at: m.at.index@, phase: m.phase }),
                None => None,
            },
        }
    }
}

impl<'a> Scanny<'a> {
    #[verifier::type_invariant]
    spec fn inv(self) -> bool {
        &&& self.whole@.len() < usize::MAX
        &&& self.whole.spec_bytes().len() <= usize::MAX
        &&& self.cursor.sits_in(self.whole@)
        &&& self.matcher matches Some(m) ==> m.at.sits_in(self.whole@) && self.cursor.index@
            <= m.at.index@
    }

    /// A scanner over `value`, at its first character, on line 1 and with no
    /// session. The text must be short enough for its line numbers to fit.
    pub fn new(value: &'a str) -> (sc: Self)
        requires
            value@.len() < usize::MAX,
        ensures
            sc@ == ScanState::start(value@),
            sc@.wf(),
    {
        // The bytes of a slice are counted in a `usize`, so every byte offset fits.
        let _ = value.as_bytes().len();
        proof {
            assert(value@.take(0) =~= Seq::<char>::empty());
        }
        Scanny { whole: value, cursor: Mark { byte_pos: 0, line: 1, index: Ghost(0) }, matcher: None }
    }

    /// The position that reading and consuming work on.
    fn active_mark(&self) -> (m: Mark)
        ensures
            m.sits_in(self.whole@),
            m.index@ == self@.active(),
            self.cursor.index@ <= m.index@,
            self@.wf(),
    {
        proof {
            use_type_invariant(self);
        }
        match self.matcher {
            Some(m) => m.at,
            None => self.cursor,
        }
    }

    /// Opens a session at the committed position. While a session is open
    /// this does nothing: the session keeps its position and its phase.
    pub fn matcher(&mut self) -> (r: &mut Self)
        ensures
            *final(self) == *final(r),
            r@ == old(self)@.opened(),
            old(self)@.session is Some ==> *r == *old(self),
            r@.wf(),
    {
        proof {
            use_type_invariant(&*self);
        }
        if self.matcher.is_none() {
            self.matcher = Some(Matcher { at: self.cursor, phase: Phase::Live });
        }
        self
    }

    /// Whether a session is open and the caller has declared its match
    /// complete.
    pub fn is_matched(&self) -> (b: bool)
        ensures
            b == (self@.session matches Some(s) && s.phase == Phase::Matched),
    {
        match self.matcher {
            Some(Matcher { phase: Phase::Matched, .. }) => true,
            _ => false,
        }
    }

    /// Whether steps are still to be evaluated as far as failure goes: no
    /// session is open, or the open one has not failed.
    fn next_match(&self) -> (b: bool)
        ensures
            b == !(self@.session matches Some(s) && s.phase == Phase::Failed),
    {
        match self.matcher {
            Some(Matcher { phase: Phase::Failed, .. }) => false,
            _ => true,
        }
    }

    /// Records that a required step has failed.
    fn set_failed(&mut self)
        ensures
            final(self)@ == old(self)@.failed(),
            final(self)@.wf(),
    {
        proof {
            use_type_invariant(&*self);
        }
        match self.matcher {
            Some(Matcher { at, phase: Phase::Live }) => {
                self.matcher = Some(Matcher { at, phase: Phase::Failed });
            },
            _ => {},
        }
    }

    /// Declares the match complete. The session counts as matched from here
    /// on, whatever its steps found before and whatever the steps after this
    /// would find; without a session nothing happens.
    pub fn matched(&mut self) -> (r: &mut Self)
        ensures
            *final(self) == *final(r),
            r@ == old(self)@.marked(),
            r@.wf(),
    {
        proof {
            use_type_invariant(&*self);
        }
        if let Some(m) = self.matcher {
            self.matcher = Some(Matcher { at: m.at, phase: Phase::Matched });
        }
        self
    }

    /// The next character, which stays unconsumed; `None` at the end of the
    /// text.
    pub fn peek(&self) -> (c: Option<char>)
        ensures
            c == self@.lookahead(0),
            self@.wf(),
    {
        self.peek_nth(0)
    }

    /// The character after the next one, if the text reaches that far.
    pub fn peek_second(&self) -> (c: Option<char>)
        ensures
            c == self@.lookahead(1),
            self@.wf(),
    {
        self.peek_nth(1)
    }

    /// The third character from here, if the text reaches that far.
    pub fn peek_third(&self) -> (c: Option<char>)
        ensures
            c == self@.lookahead(2),
            self@.wf(),
    {
        self.peek_nth(2)
    }

    /// The character `n` places after the next one, if the text reaches that
    /// far. Takes time in proportion to `n`.
    pub fn peek_nth(&self, n: usize) -> (c: Option<char>)
        ensures
            c == self@.lookahead(n as nat),
            self@.wf(),
    {
        let at = self.active_mark();
        let rest = tail_from(self.whole, at.byte_pos, Ghost(at.index@ as int));
        nth_char(rest, n)
    }

    /// Consumes the next character and returns it; at the end of the text
    /// nothing is consumed. The byte offset grows by the width of the
    /// character, and the line number by one if it is a newline.
    pub fn bump(&mut self) -> (c: Option<char>)
        ensures
            c == old(self)@.lookahead(0),
            final(self)@ == old(self)@.advanced(),
            final(self)@.wf(),
    {
        let c = self.peek();
        if let Some(ch) = c {
            let at = self.active_mark();
            proof {
                use_type_invariant(&*self);
                let text = self.whole@;
                let i = at.index@ as int;
                lemma_step(text, i);
                lemma_width_bounds(ch);
                lemma_newlines_bounded(text.take(i + 1));
                lemma_offsets_ordered(text, i + 1, text.len() as int);
                lemma_offsets_ordered(text, 0, i + 1);
                assert(text.take(text.len() as int) =~= text);
            }
            let next = Mark {
                byte_pos: at.byte_pos + width_of(ch),
                line: if ch == '\n' {
                    at.line + 1
                } else {
                    at.line
                },
                index: Ghost((at.index@ + 1) as nat),
            };
            match self.matcher {
                Some(m) => {
                    self.matcher = Some(Matcher { at: next, phase: m.phase });
                },
                None => {
                    self.cursor = next;
                },
            }
        }
        c
    }

    /// Consumes characters for as long as `f` accepts the next one. Does
    /// nothing in a frozen session.
    pub fn skeep_while<F: Fn(char) -> bool>(&mut self, f: F) -> (r: &mut Self)
        requires
            !old(self)@.frozen() ==> forall|i: int|
                #![trigger old(self)@.text[i]]
                old(self)@.active() <= i < old(self)@.text.len() ==> f.requires(
                    (old(self)@.text[i],),
                ),
        ensures
            *final(self) == *final(r),
            r@.wf(),
            old(self)@.frozen() ==> *r == *old(self),
            !old(self)@.frozen() ==> old(self)@.ran_to(r@),
            !old(self)@.frozen() ==> forall|i: int|
                #![trigger r@.text[i]]
                old(self)@.active() <= i < r@.active() ==> f.ensures((r@.text[i],), true),
            !old(self)@.frozen() && r@.active() < r@.text.len() ==> f.ensures(
                (r@.text[r@.active() as int],),
                false,
            ),
    {
        proof {
            use_type_invariant(&*self);
        }
        if self.is_matched() {
            return self;
        }
        if !self.next_match() {
            return self;
        }
        let ghost start = self@;
        loop
            invariant
                start == old(self)@,
                start.wf(),
                start.ran_to(self@),
                forall|i: int|
                    #![trigger start.text[i]]
                    start.active() <= i < start.text.len() ==> f.requires((start.text[i],)),
                forall|i: int|
                    #![trigger start.text[i]]
                    start.active() <= i < self@.active() ==> f.ensures((start.text[i],), true),
            ensures
                start.ran_to(self@),
                self@.wf(),
                forall|i: int|
                    #![trigger start.text[i]]
                    start.active() <= i < self@.active() ==> f.ensures((start.text[i],), true),
                self@.active() < self@.text.len() ==> f.ensures(
                    (self@.text[self@.active() as int],),
                    false,
                ),
            decreases self@.unread(),
        {
            match self.peek() {
                Some(c) => {
                    if f(c) {
                        self.bump();
                    } else {
                        break ;
                    }
                },
                None => {
                    break ;
                },
            }
        }
        self
    }

    /// A required step: consumes the next character where `f` accepts it.
    /// Where `f` refuses it the session fails and nothing is consumed; at the
    /// end of the text nothing happens. Does nothing in a frozen session.
    pub fn match_char<F: Fn(&char) -> bool>(&mut self, f: F) -> (r: &mut Self)
        requires
            !old(self)@.frozen() ==> (old(self)@.lookahead(0) matches Some(c) ==> f.requires((&c,))),
        ensures
            *final(self) == *final(r),
            r@.wf(),
            old(self)@.frozen() || old(self)@.lookahead(0) is None ==> *r == *old(self),
            !old(self)@.frozen() ==> (old(self)@.lookahead(0) matches Some(c) ==> exists|b: bool|
                #[trigger] f.ensures((&c,), b) && r@ == old(self)@.stepped(b, true)),
    {
        proof {
            use_type_invariant(&*self);
        }
        if self.is_matched() {
            return self;
        }
        if !self.next_match() {
            return self;
        }
        match self.peek() {
            Some(ch) => {
                if f(&ch) {
                    self.bump();
                    self
                } else {
                    self.set_failed();
                    self
                }
            },
            None => self,
        }
    }

    /// An optional step: consumes the next character where `f` accepts it;
    /// otherwise nothing happens.
    pub fn match_char_optional<F: Fn(&char) -> bool>(&mut self, f: F) -> (r: &mut Self)
        requires
            !old(self)@.frozen() ==> (old(self)@.lookahead(0) matches Some(c) ==> f.requires((&c,))),
        ensures
            *final(self) == *final(r),
            r@.wf(),
            old(self)@.frozen() || old(self)@.lookahead(0) is None ==> *r == *old(self),
            !old(self)@.frozen() ==> (old(self)@.lookahead(0) matches Some(c) ==> exists|b: bool|
                #[trigger] f.ensures((&c,), b) && r@ == old(self)@.stepped(b, false)),
    {
        proof {
            use_type_invariant(&*self);
        }
        if self.is_matched() {
            return self;
        }
        if !self.next_match() {
            return self;
        }
        match self.peek() {
            Some(ch) => {
                if f(&ch) {
                    self.bump();
                    self
                } else {
                    self
                }
            },
            None => self,
        }
    }

    /// A required step: consumes the next character where it is `ch`. Where
    /// it is another one, or the text has ended, the session fails and
    /// nothing is consumed. Does nothing in a frozen session.
    pub fn then(&mut self, ch: char) -> (r: &mut Self)
        ensures
            *final(self) == *final(r),
            r@.wf(),
            old(self)@.frozen() ==> *r == *old(self),
            !old(self)@.frozen() ==> r@ == old(self)@.stepped(
                old(self)@.lookahead(0) == Some(ch),
                true,
            ),
    {
        proof {
            use_type_invariant(&*self);
        }
        if self.is_matched() {
            return self;
        }
        if !self.next_match() {
            return self;
        }
        match self.peek() {
            Some(c) if c == ch => {
                self.bump();
                self
            },
            _ => {
                self.set_failed();
                self
            },
        }
    }

    /// An optional step: consumes the next character where it is `ch`;
    /// otherwise nothing happens.
    pub fn then_optional(&mut self, ch: char) -> (r: &mut Self)
        ensures
            *final(self) == *final(r),
            r@.wf(),
            old(self)@.frozen() ==> *r == *old(self),
            !old(self)@.frozen() ==> r@ == old(self)@.stepped(
                old(self)@.lookahead(0) == Some(ch),
                false,
            ),
    {
        proof {
            use_type_invariant(&*self);
        }
        if self.is_matched() {
            return self;
        }
        if !self.next_match() {
            return self;
        }
        match self.peek() {
            Some(c) if c == ch => {
                self.bump();
                self
            },
            _ => self,
        }
    }

    /// A required step: hands `f` the next character, or `None` at the end of
    /// the text. Where `f` accepts, the character is consumed; where it
    /// refuses, the session fails. Does nothing in a frozen session.
    pub fn then_any<F: Fn(Option<char>) -> bool>(&mut self, f: F) -> (r: &mut Self)
        requires
            !old(self)@.frozen() ==> f.requires((old(self)@.lookahead(0),)),
        ensures
            *final(self) == *final(r),
            r@.wf(),
            old(self)@.frozen() ==> *r == *old(self),
            !old(self)@.frozen() ==> exists|b: bool| #[trigger]
                f.ensures((old(self)@.lookahead(0),), b) && r@ == old(self)@.stepped(b, true),
    {
        proof {
            use_type_invariant(&*self);
        }
        if self.is_matched() {
            return self;
        }
        if !self.next_match() {
            return self;
        }
        if f(self.peek()) {
            self.bump();
            self
        } else {
            self.set_failed();
            self
        }
    }

    /// A required step that leaves the reading to `f`: `f` is handed this
    /// scanner itself and may read and consume on it before it gives its
    /// verdict; what it consumed stays consumed. A verdict of `false` fails
    /// the session. Does nothing in a frozen session.
    pub fn then_peek<F: Fn(&mut Scanny<'a>) -> bool>(&mut self, f: F) -> (r: &mut Self)
        requires
            !old(self)@.frozen() ==> forall|q: &mut Scanny<'a>|
                *q == *old(self) ==> #[trigger] f.requires((q,)),
        ensures
            *final(self) == *final(r),
            r@.wf(),
            old(self)@.frozen() ==> *r == *old(self),
            !old(self)@.frozen() ==> exists|q: &mut Scanny<'a>, b: bool|
                *q == *old(self) && #[trigger] f.ensures((q,), b) && r@ == final(q)@.judged(b),
    {
        proof {
            use_type_invariant(&*self);
        }
        if self.is_matched() {
            return self;
        }
        if !self.next_match() {
            return self;
        }
        let verdict = f(self);
        proof {
            use_type_invariant(&*self);
        }
        if verdict {
            self
        } else {
            self.set_failed();
            self
        }
    }

    /// An optional step: consumes the next character where it is one of
    /// `chars`; otherwise nothing happens.
    pub fn then_any_optional(&mut self, chars: &[char]) -> (r: &mut Self)
        ensures
            *final(self) == *final(r),
            r@.wf(),
            old(self)@.frozen() ==> *r == *old(self),
            !old(self)@.frozen() ==> r@ == old(self)@.stepped(
                old(self)@.lookahead(0) matches Some(c) && chars@.contains(c),
                false,
            ),
    {
        proof {
            use_type_invariant(&*self);
        }
        if self.is_matched() {
            return self;
        }
        if !self.next_match() {
            return self;
        }
        match self.peek() {
            Some(c) if is_one_of(chars, c) => {
                self.bump();
                self
            },
            _ => self,
        }
    }

    /// Consumes in rounds: in each round `f` is handed this scanner itself
    /// and may consume on it before it gives its verdict; on `true` the next
    /// character is consumed and another round follows. The rounds end where
    /// `f` says `false`, and where it says `true` with no character left to
    /// consume. `f` must not move the scanner backwards. Does nothing in a
    /// frozen session.
    ///
    /// The contract speaks of the calls of `f` in their order: each but the
    /// last accepted and was followed by one consumed character, each began
    /// where the one before it had led, and the last one left the scanner as
    /// it is returned.
    pub fn peek_and_consume<F: Fn(&mut Scanny<'a>) -> bool>(&mut self, f: F) -> (r: &mut Self)
        requires
            !old(self)@.frozen() ==> forall|q: &mut Scanny<'a>| #[trigger] f.requires((q,)),
            !old(self)@.frozen() ==> forall|q: &mut Scanny<'a>, b: bool| #[trigger]
                f.ensures((q,), b) ==> final(q)@.unread() <= q@.unread(),
        ensures
            *final(self) == *final(r),
            r@.wf(),
            old(self)@.frozen() ==> *r == *old(self),
            !old(self)@.frozen() ==> exists|calls: Seq<&mut Scanny<'a>>, b: bool|
                #![trigger f.ensures((calls.last(),), b)]
                calls.len() > 0
                    && calls[0]@ == old(self)@
                    && (forall|i: int|
                        #![trigger calls[i]]
                        0 <= i < calls.len() - 1 ==> f.ensures((calls[i],), true)
                            && final(calls[i])@.bumped_to(calls[i + 1]@))
                    && f.ensures((calls.last(),), b)
                    && (!b || final(calls.last())@.lookahead(0) is None)
                    && r@ == final(calls.last())@,
    {
        proof {
            use_type_invariant(&*self);
        }
        if self.is_matched() {
            return self;
        }
        if !self.next_match() {
            return self;
        }
        let ghost start = self@;
        // No round is done yet.
        assert(Seq::<&mut Scanny<'a>>::empty().len() == 0);
        loop
            invariant_except_break
                forall|q: &mut Scanny<'a>| #[trigger] f.requires((q,)),
                forall|q: &mut Scanny<'a>, b: bool| #[trigger]
                    f.ensures((q,), b) ==> final(q)@.unread() <= q@.unread(),
                // The calls of the rounds that are done: all accepted, each
                // led to the next, and the last one led here.
                exists|done: Seq<&mut Scanny<'a>>|
                    #![trigger done.len()]
                    (done.len() == 0 ==> self@ == start)
                        && (done.len() > 0 ==> done[0]@ == start
                            && final(done.last())@.bumped_to(self@))
                        && (forall|i: int|
                            #![trigger done[i]]
                            0 <= i < done.len() ==> f.ensures((done[i],), true))
                        && (forall|i: int|
                            #![trigger done[i]]
                            0 <= i < done.len() - 1 ==> final(done[i])@.bumped_to(done[i + 1]@)),
            ensures
                self@.wf(),
                exists|calls: Seq<&mut Scanny<'a>>, b: bool|
                    #![trigger f.ensures((calls.last(),), b)]
                    calls.len() > 0
                        && calls[0]@ == start
                        && (forall|i: int|
                            #![trigger calls[i]]
                            0 <= i < calls.len() - 1 ==> f.ensures((calls[i],), true)
                                && final(calls[i])@.bumped_to(calls[i + 1]@))
                        && f.ensures((calls.last(),), b)
                        && (!b || final(calls.last())@.lookahead(0) is None)
                        && self@ == final(calls.last())@,
            decreases self@.unread(),
        {
            let ghost before = self@;
            let go = f(self);
            proof {
                use_type_invariant(&*self);
            }
            let ghost done = choose|done: Seq<&mut Scanny<'a>>|
                #![trigger done.len()]
                (done.len() == 0 ==> before == start)
                    && (done.len() > 0 ==> done[0]@ == start
                        && final(done.last())@.bumped_to(before))
                    && (forall|i: int|
                        #![trigger done[i]]
                        0 <= i < done.len() ==> f.ensures((done[i],), true))
                    && (forall|i: int|
                        #![trigger done[i]]
                        0 <= i < done.len() - 1 ==> final(done[i])@.bumped_to(done[i + 1]@));
            let ghost call = choose|q: &mut Scanny<'a>|
                q@ == before && #[trigger] f.ensures((q,), go) && final(q)@ == self@;
            let ghost calls = done.push(call);
            if !go {
                assert(f.ensures((calls.last(),), go));
                break ;
            }
            if self.bump().is_none() {
                assert(f.ensures((calls.last(),), go));
                break ;
            }
        }
        self
    }

    /// Consumes characters for as long as `f` accepts the next one. Does
    /// nothing in a frozen session.
    pub fn consume_while<F: Fn(&char) -> bool>(&mut self, f: F) -> (r: &mut Self)
        requires
            !old(self)@.frozen() ==> forall|i: int|
                #![trigger old(self)@.text[i]]
                old(self)@.active() <= i < old(self)@.text.len() ==> f.requires(
                    (&old(self)@.text[i],),
                ),
        ensures
            *final(self) == *final(r),
            r@.wf(),
            old(self)@.frozen() ==> *r == *old(self),
            !old(self)@.frozen() ==> old(self)@.ran_to(r@),
            !old(self)@.frozen() ==> forall|i: int|
                #![trigger r@.text[i]]
                old(self)@.active() <= i < r@.active() ==> f.ensures((&r@.text[i],), true),
            !old(self)@.frozen() && r@.active() < r@.text.len() ==> f.ensures(
                (&r@.text[r@.active() as int],),
                false,
            ),
    {
        proof {
            use_type_invariant(&*self);
        }
        if self.is_matched() {
            return self;
        }
        if !self.next_match() {
            return self;
        }
        let ghost start = self@;
        loop
            invariant
                start == old(self)@,
                start.wf(),
                start.ran_to(self@),
                forall|i: int|
                    #![trigger start.text[i]]
                    start.active() <= i < start.text.len() ==> f.requires((&start.text[i],)),
                forall|i: int|
                    #![trigger start.text[i]]
                    start.active() <= i < self@.active() ==> f.ensures((&start.text[i],), true),
            ensures
                start.ran_to(self@),
                self@.wf(),
                forall|i: int|
                    #![trigger start.text[i]]
                    start.active() <= i < self@.active() ==> f.ensures((&start.text[i],), true),
                self@.active() < self@.text.len() ==> f.ensures(
                    (&self@.text[self@.active() as int],),
                    false,
                ),
            decreases self@.unread(),
        {
            match self.peek() {
                Some(ch) if f(&ch) => {
                    self.bump();
                },
                _ => {
                    break ;
                },
            }
        }
        self
    }

    /// Ends the session.
    ///
    /// Without a session this returns `None` and changes nothing. With one,
    /// the session is removed, and `f` is handed the outcome: the part of
    /// the text that the session consumed, as `All` unless the session has
    /// failed, with its flag set. When `f` is done the flag decides: if it
    /// is still set, the committed position moves to where the session
    /// stood; if not, it stays where it was. What `f` returned comes back
    /// with the byte range and the line range of the part, whatever the
    /// flag says.
    pub fn finalize<T, F: Fn(&mut MatchType<'a>) -> T>(&mut self, f: F) -> (r: Option<WithPos<T>>)
        requires
            old(self)@.session is Some ==> forall|m: &mut MatchType<'a>|
                old(self)@.reports(*m) ==> #[trigger] f.requires((m,)),
        ensures
            final(self)@.wf(),
            old(self)@.session is None ==> r is None && *final(self) == *old(self),
            old(self)@.session is Some ==> r is Some,
            old(self)@.session is Some ==> r->0.covers(
                old(self)@.byte_span(),
                old(self)@.line_span(),
            ),
            old(self)@.session is Some ==> exists|m: &mut MatchType<'a>|
                old(self)@.reports(*m) && #[trigger] f.ensures((m,), r->0.value()) && final(self)@
                    == old(self)@.closed(final(m).consumes()),
    {
        proof {
            use_type_invariant(&*self);
        }
        let session = match self.matcher {
            Some(m) => m,
            None => {
                return None;
            },
        };
        let from = self.cursor;
        let to = session.at;
        let part = slice_between(
            self.whole,
            from.byte_pos,
            to.byte_pos,
            Ghost(from.index@ as int),
            Ghost(to.index@ as int),
        );
        let mut outcome = match session.phase {
            Phase::Failed => MatchType::Few(part, true),
            _ => MatchType::All(part, true),
        };
        let got = f(&mut outcome);
        let commit = match outcome {
            MatchType::All(_, consume) => consume,
            MatchType::Few(_, consume) => consume,
        };
        if commit {
            self.cursor = to;
        }
        self.matcher = None;
        let r = Some(
            WithPos::new(got).set_byte_pos(from.byte_pos..to.byte_pos).set_line_pos(
                from.line..=to.line,
            ),
        );
        assert(r->0.value() == got);
        r
    }
}

/// Whether `c` is one of `chars`.
fn is_one_of(chars: &[char], c: char) -> (b: bool)
    ensures
        b == chars@.contains(c),
{
    let mut i: usize = 0;
    while i < chars.len()
        invariant
            i <= chars@.len(),
            forall|j: int| 0 <= j < i ==> chars@[j] != c,
        decreases chars@.len() - i,
    {
        if chars[i] == c {
            return true;
        }
        i = i + 1;
    }
    false
}

} // verus!
