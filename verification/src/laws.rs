//! Laws of the cursor's navigation: end detection, and the inverse pairing
//! of forward and backward steps, raw and normalized.

use vstd::prelude::*;
use crate::bytes::advance_pos;
use crate::bytes::lfn_byte;
use crate::bytes::lfn_rewind_pos;
use crate::bytes::lfn_step_len;
use crate::bytes::peek_spec;
use crate::bytes::rewind_pos;
use crate::bytes::Cursor;
use crate::bytes::Recorder;
use crate::bytes::CARRIAGE_RETURN;
use crate::bytes::LINE_FEED;

verus! {

/// A cursor has a next byte exactly when `peek` — and with it `next`, which
/// returns the same value — reports a present byte.
pub proof fn lemma_end_detection<'a>(c: Cursor<'a>)
    requires
        c.wf(),
    ensures
        !c.spec_has_next() <==> peek_spec(c.bytes(), c.pos()) is None,
{
}

/// The position after `n` raw forward steps from `p` in `s`.
pub open spec fn advance_pos_n(s: Seq<u8>, p: int, n: nat) -> int
    decreases n,
{
    if n == 0 {
        p
    } else {
        advance_pos_n(s, advance_pos(s, p), (n - 1) as nat)
    }
}

/// The position after `n` raw backward steps from `p`.
pub open spec fn rewind_pos_n(p: int, n: nat) -> int
    decreases n,
{
    if n == 0 {
        p
    } else {
        rewind_pos(rewind_pos_n(p, (n - 1) as nat))
    }
}

/// Raw navigation is a true inverse pair: advancing `n` bytes — as far as
/// the buffer allows — and then rewinding `n` bytes restores the position.
pub proof fn lemma_raw_round_trip(s: Seq<u8>, p: int, n: nat)
    requires
        0 <= p,
        p + n <= s.len(),
    ensures
        rewind_pos_n(advance_pos_n(s, p, n), n) == p,
    decreases n,
{
    if n > 0 {
        lemma_raw_round_trip(s, p + 1, (n - 1) as nat);
    }
}

/// The position one normalized forward step at `p` in `s` reaches.
pub open spec fn lfn_next_pos(s: Seq<u8>, p: int) -> int {
    p + lfn_step_len(s, p)
}

/// Whether `p` points at the LF of a CRLF pair — the one place a
/// normalized forward step can never stop at.
pub open spec fn mid_crlf(s: Seq<u8>, p: int) -> bool {
    0 < p < s.len() && s[p] == LINE_FEED && s[p - 1] == CARRIAGE_RETURN
}

/// Whether `n` normalized forward steps from `p` each find a next byte.
pub open spec fn lfn_steps_fit(s: Seq<u8>, p: int, n: nat) -> bool
    decreases n,
{
    n > 0 ==> p < s.len() && lfn_steps_fit(s, lfn_next_pos(s, p), (n - 1) as nat)
}

/// The position after `n` normalized forward steps from `p` in `s`.
pub open spec fn lfn_next_pos_n(s: Seq<u8>, p: int, n: nat) -> int
    decreases n,
{
    if n == 0 {
        p
    } else {
        lfn_next_pos_n(s, lfn_next_pos(s, p), (n - 1) as nat)
    }
}

/// The position after `n` normalized backward steps from `p` in `s`.
pub open spec fn lfn_rewind_pos_n(s: Seq<u8>, p: int, n: nat) -> int
    decreases n,
{
    if n == 0 {
        p
    } else {
        lfn_rewind_pos(s, lfn_rewind_pos_n(s, p, (n - 1) as nat))
    }
}

/// One normalized backward step undoes one normalized forward step, as
/// long as the starting point does not sit inside a CRLF pair; and no
/// forward step ever stops inside one.
proof fn lemma_lfn_step_inverse(s: Seq<u8>, p: int)
    requires
        0 <= p < s.len(),
        !mid_crlf(s, p),
    ensures
        lfn_next_pos(s, p) <= s.len(),
        lfn_rewind_pos(s, lfn_next_pos(s, p)) == p,
        !mid_crlf(s, lfn_next_pos(s, p)),
{
}

/// Normalization is invertible: `n` forward `next_lfn` steps — each
/// finding a next byte — followed by `n` backward `rewind_lfn` steps
/// restore the original position, provided the walk does not begin in the
/// middle of a CRLF pair.
pub proof fn lemma_lfn_round_trip(s: Seq<u8>, p: int, n: nat)
    requires
        0 <= p <= s.len(),
        !mid_crlf(s, p),
        lfn_steps_fit(s, p, n),
    ensures
        lfn_rewind_pos_n(s, lfn_next_pos_n(s, p, n), n) == p,
    decreases n,
{
    if n > 0 {
        lemma_lfn_step_inverse(s, p);
        lemma_lfn_round_trip(s, lfn_next_pos(s, p), (n - 1) as nat);
    }
}

/// The normalized step functions describe exactly what `next_lfn` and
/// `rewind_lfn` do to the position, so the round trip above speaks of the
/// very positions those calls leave behind.
pub proof fn lemma_lfn_round_trip_cursor<'a>(c: Cursor<'a>, n: nat)
    requires
        c.wf(),
        !mid_crlf(c.bytes(), c.pos()),
        lfn_steps_fit(c.bytes(), c.pos(), n),
    ensures
        lfn_rewind_pos_n(c.bytes(), lfn_next_pos_n(c.bytes(), c.pos(), n), n) == c.pos(),
{
    lemma_lfn_round_trip(c.bytes(), c.pos(), n);
}

/// The view a recording yields is exactly as long as the absolute byte
/// distance the cursor travelled between the recording's two end points —
/// whatever collapsing happened at the character level, none happens at
/// the byte level.
pub proof fn lemma_recorded_length<'a, 'c>(r: Recorder<'a, 'c>)
    requires
        r.wf(),
    ensures
        r.recorded().len() == if r.start <= old(r.cursor).pos() {
            old(r.cursor).pos() - r.start
        } else {
            r.start - old(r.cursor).pos()
        },
{
}

} // verus!
