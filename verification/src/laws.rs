//! What holds of every scanner, stated over its model and proved.
//!
//! The functions of the scanner say in their contracts how each of them
//! changes the model. The facts here relate several of them: what a second
//! request for a session does, what committing and rolling back leave behind,
//! that failure and an early match are final, and how bytes and lines are
//! counted.

use vstd::prelude::*;
use vstd::utf8::encode_utf8;
use crate::model::ScanState;
use crate::outcome::MatchType;
use crate::text::{byte_offset, lemma_encode_concat, lemma_step, lemma_width_bounds, utf8_width};

verus! {

/// Asking for a session while one is open changes nothing, however far the
/// open one has come; so asking twice is the same as asking once.
pub proof fn lemma_open_is_idempotent(s: ScanState)
    ensures
        s.session is Some ==> s.opened() == s,
        s.opened().opened() == s.opened(),
{
}

/// A new session starts where the committed position stands, is live, and
/// has consumed nothing.
pub proof fn lemma_open_starts_at_cursor(s: ScanState)
    requires
        s.wf(),
        s.session is None,
    ensures
        s.opened().wf(),
        s.opened().active() == s.cursor,
        !s.opened().frozen(),
        s.opened().consumed() == Seq::<char>::empty(),
{
}

/// Every step keeps a well-formed state well-formed.
pub proof fn lemma_steps_keep_wf(s: ScanState, k: nat, hit: bool, required: bool, verdict: bool)
    requires
        s.wf(),
    ensures
        s.opened().wf(),
        s.advanced().wf(),
        s.failed().wf(),
        s.marked().wf(),
        s.stepped(hit, required).wf(),
        s.judged(verdict).wf(),
        s.closed(verdict).wf(),
        s.active() + k <= s.text.len() ==> s.moved(k).wf(),
{
}

/// While a session is open, no step touches the text or the committed
/// position, and none removes the session.
pub proof fn lemma_session_frames_cursor(
    s: ScanState,
    k: nat,
    hit: bool,
    required: bool,
    verdict: bool,
)
    requires
        s.session is Some,
    ensures
        s.moved(k).same_ground(s),
        s.advanced().same_ground(s),
        s.failed().same_ground(s),
        s.marked().same_ground(s),
        s.stepped(hit, required).same_ground(s),
        s.judged(verdict).same_ground(s),
        s.opened().same_ground(s),
{
}

/// Finalizing with the flag still set puts the committed position where the
/// session stood, whether the session matched or failed.
pub proof fn lemma_default_commit<'a>(s: ScanState, m: MatchType<'a>)
    requires
        s.session is Some,
        s.reports(m),
    ensures
        s.closed(m.consumes()).session is None,
        s.closed(m.consumes()).cursor == s.active(),
        s.closed(m.consumes()).active() == s.active(),
{
}

/// Clearing the flag of the branch that occurred makes finalizing a
/// rollback; clearing the flag of the other branch does nothing.
pub proof fn lemma_flag_of_the_branch<'a>(s: ScanState, m: MatchType<'a>, v: bool)
    requires
        s.reports(m),
    ensures
        s.succeeded() ==> m.on_match(v).consumes() == v && m.on_not_match(v) == m,
        !s.succeeded() ==> m.on_not_match(v).consumes() == v && m.on_match(v) == m,
        m.on_match(v).part() == m.part(),
        m.on_not_match(v).part() == m.part(),
{
}

/// Rolling back restores the scanner: if `s` is any state of a session that
/// was opened in the state `before`, finalizing without commit gives
/// `before` again, and so every read gives what it gave then.
pub proof fn lemma_rollback_restores(before: ScanState, s: ScanState)
    requires
        before.session is None,
        s.same_ground(before),
    ensures
        s.closed(false) == before,
        forall|n: nat| s.closed(false).lookahead(n) == before.lookahead(n),
{
}

/// The part that a session reports lies, in the encoded text, exactly
/// between the byte offsets that are reported with it.
pub proof fn lemma_part_is_byte_range(text: Seq<char>, i: int, j: int)
    requires
        0 <= i <= j <= text.len(),
    ensures
        byte_offset(text, i) <= byte_offset(text, j) <= encode_utf8(text).len(),
        encode_utf8(text.subrange(i, j)) == encode_utf8(text).subrange(
            byte_offset(text, i) as int,
            byte_offset(text, j) as int,
        ),
{
    let head = text.take(i);
    let part = text.subrange(i, j);
    let tail = text.skip(j);
    assert(text.take(j) =~= head + part);
    assert(text =~= text.take(j) + tail);
    lemma_encode_concat(head, part);
    lemma_encode_concat(text.take(j), tail);
    assert(encode_utf8(part) =~= encode_utf8(text).subrange(
        byte_offset(text, i) as int,
        byte_offset(text, j) as int,
    ));
}

/// No step moves the scanner backwards: the number of characters that are
/// left to read never grows while the session stays.
pub proof fn lemma_steps_never_rewind(s: ScanState, k: nat, hit: bool, required: bool, verdict: bool)
    ensures
        s.advanced().unread() <= s.unread(),
        s.moved(k).unread() <= s.unread(),
        s.failed().unread() == s.unread(),
        s.marked().unread() == s.unread(),
        s.stepped(hit, required).unread() <= s.unread(),
        s.judged(verdict).unread() == s.unread(),
        s.session is Some ==> s.opened().unread() == s.unread(),
{
}

/// Failure is final: a failed session is frozen, and no step makes it live
/// again or moves it.
pub proof fn lemma_failure_is_final(s: ScanState, hit: bool, required: bool, verdict: bool)
    requires
        s.session is Some,
    ensures
        s.failed().frozen(),
        s.frozen() ==> s.failed() == s,
        s.frozen() ==> s.judged(verdict) == s,
        s.frozen() ==> s.opened() == s,
        s.frozen() ==> s.advanced().frozen() && s.marked().frozen() && s.stepped(
            hit,
            required,
        ).frozen(),
{
}

/// An early match wins: once the caller has declared the match complete,
/// the session is frozen and counts as matched, whether or not it had
/// failed before, and a later failure does not take that back.
pub proof fn lemma_marked_wins(s: ScanState)
    requires
        s.session is Some,
    ensures
        s.marked().frozen(),
        s.marked().succeeded(),
        s.failed().marked().succeeded(),
        s.marked().failed() == s.marked(),
        s.marked().active() == s.active(),
{
}

/// Consuming a newline adds one to the line number and one to the byte
/// offset; consuming any other character adds its encoded width to the byte
/// offset and leaves the line number.
pub proof fn lemma_bump_accounting(s: ScanState)
    requires
        s.wf(),
        s.lookahead(0) is Some,
    ensures
        s.advanced().active() == s.active() + 1,
        s.lookahead(0) == Some('\n') ==> s.advanced().byte_span().1 == s.byte_span().1 + 1
            && s.advanced().line_span().1 == s.line_span().1 + 1,
        s.lookahead(0) != Some('\n') ==> s.advanced().byte_span().1 == s.byte_span().1
            + utf8_width(s.lookahead(0)->0) && s.advanced().line_span().1 == s.line_span().1,
        1 <= utf8_width(s.lookahead(0)->0) <= 4,
{
    lemma_step(s.text, s.active() as int);
    lemma_width_bounds(s.text[s.active() as int]);
}

} // verus!
