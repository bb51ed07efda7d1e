//! A position-tracked cursor over an immutable byte buffer.
//!
//! The cursor walks a fixed byte range one logical unit at a time: a raw
//! byte, a normalized line terminator (CR, LF and CRLF all read as LF), or
//! one UTF-8 encoded character whose shape is validated as it is consumed.
//! A [`Recorder`] captures the bytes traversed between two points as a
//! zero-copy text view.

use vstd::prelude::*;
use vstd::pervasive::unreached;
use vstd::slice::slice_subrange;
use vstd::string::StringSliceAdditionalSpecFns;
use vstd::utf8::valid_utf8;

verus! {

/// The carriage-return byte.
pub const CARRIAGE_RETURN: u8 = 0x0D;

/// The line-feed byte.
pub const LINE_FEED: u8 = 0x0A;

/// Width of the UTF-8 sequence introduced by the lead byte `b`: 1 for an
/// ASCII byte, 2, 3 or 4 for a multi-byte lead byte, and 0 for a
/// continuation byte or a byte that can begin no sequence at all.
pub open spec fn width_of(b: u8) -> int {
    if b < 0x80 {
        1
    } else if b < 0xC2 {
        0
    } else if b < 0xE0 {
        2
    } else if b < 0xF0 {
        3
    } else if b < 0xF5 {
        4
    } else {
        0
    }
}

/// Whether `b` is a UTF-8 continuation byte, i.e. its top two bits are `10`.
pub open spec fn is_continuation(b: u8) -> bool {
    b & 0xC0 == 0x80
}

/// All errors this module can produce.
#[derive(Ord, PartialOrd, Eq, PartialEq, Copy, Clone, Debug, Structural)]
pub enum Error {
    /// Encountered a continuation byte where the byte 1 was expected.
    EncounteredContinuationByte,
    /// The input ended while decoding the second byte of a two byte sequence.
    Missing2ndOf2,
    /// The second byte of a two byte sequence is not a continuation byte.
    Invalid2ndOf2,
    /// The input ended while decoding the second byte of a three byte sequence.
    Missing2ndOf3,
    /// The second byte of a three byte sequence is not a continuation byte.
    Invalid2ndOf3,
    /// The input ended while decoding the third byte of a three byte sequence.
    Missing3rdOf3,
    /// The third byte of a three byte sequence is not a continuation byte.
    Invalid3rdOf3,
    /// The input ended while decoding the second byte of a four byte sequence.
    Missing2ndOf4,
    /// The second byte of a four byte sequence is not a continuation byte.
    Invalid2ndOf4,
    /// The input ended while decoding the third byte of a four byte sequence.
    Missing3rdOf4,
    /// The third byte of a four byte sequence is not a continuation byte.
    Invalid3rdOf4,
    /// The input ended while decoding the fourth byte of a four byte sequence.
    Missing4thOf4,
    /// The fourth byte of a four byte sequence is not a continuation byte.
    Invalid4thOf4,
}

/// The error reported when the input ends before byte `i` of a `w` byte
/// sequence, for `w` in 2..=4 and `i` in 2..=w.
pub open spec fn missing_err(w: int, i: int) -> Error {
    if w == 2 {
        Error::Missing2ndOf2
    } else if w == 3 {
        if i == 2 {
            Error::Missing2ndOf3
        } else {
            Error::Missing3rdOf3
        }
    } else {
        if i == 2 {
            Error::Missing2ndOf4
        } else if i == 3 {
            Error::Missing3rdOf4
        } else {
            Error::Missing4thOf4
        }
    }
}

/// The error reported when byte `i` of a `w` byte sequence is present but
/// is not a continuation byte, for `w` in 2..=4 and `i` in 2..=w.
pub open spec fn invalid_err(w: int, i: int) -> Error {
    if w == 2 {
        Error::Invalid2ndOf2
    } else if w == 3 {
        if i == 2 {
            Error::Invalid2ndOf3
        } else {
            Error::Invalid3rdOf3
        }
    } else {
        if i == 2 {
            Error::Invalid2ndOf4
        } else if i == 3 {
            Error::Invalid3rdOf4
        } else {
            Error::Invalid4thOf4
        }
    }
}

/// Reads the continuation bytes `i..=w` of a `w` byte sequence, each through
/// one normalized step, starting at position `q` of `s`. Yields the outcome
/// and the position just past the last byte examined.
pub open spec fn scan_continuations(s: Seq<u8>, q: int, w: int, i: int) -> (Result<(), Error>, int)
    decreases w + 1 - i,
{
    if i > w {
        (Ok(()), q)
    } else if !(0 <= q < s.len()) {
        (Err(missing_err(w, i)), q)
    } else if !is_continuation(lfn_byte(s, q)) {
        (Err(invalid_err(w, i)), q + lfn_step_len(s, q))
    } else {
        scan_continuations(s, q + lfn_step_len(s, q), w, i + 1)
    }
}

/// The outcome of consuming one UTF-8 encoded character (or one normalized
/// line terminator) at position `p` of `s`: the reported result and the
/// position just past the last byte examined. End of input succeeds
/// trivially without moving.
pub open spec fn advance_char_spec(s: Seq<u8>, p: int) -> (Result<(), Error>, int) {
    if !(0 <= p < s.len()) {
        (Ok(()), p)
    } else {
        let b0 = s[p];
        let w = width_of(b0);
        if w == 0 {
            (Err(Error::EncounteredContinuationByte), p + 1)
        } else if w == 1 {
            if b0 == CARRIAGE_RETURN && p + 1 < s.len() && s[p + 1] == LINE_FEED {
                (Ok(()), p + 2)
            } else {
                (Ok(()), p + 1)
            }
        } else {
            scan_continuations(s, p + 1, w, 2)
        }
    }
}

/// An iterator over a slice.
pub struct Cursor<'a> {
    /// The underlying buffer; never mutated while the cursor exists.
    buf: &'a [u8],
    /// The offset of the next byte, between 0 and the buffer length.
    position: usize,
    /// The number of logical units consumed.
    index: u64,
}

/// Classifies a lead byte: the width of the sequence it begins, or 0 when
/// it can begin none.
fn char_width(b: u8) -> (w: u8)
    ensures
        w as int == width_of(b),
{
    if b < 0x80 {
        1
    } else if b < 0xC2 {
        0
    } else if b < 0xE0 {
        2
    } else if b < 0xF0 {
        3
    } else if b < 0xF5 {
        4
    } else {
        0
    }
}

/// A slice's length always fits in `usize`.
proof fn lemma_slice_len_fits(s: &[u8])
    ensures
        s@.len() <= usize::MAX,
{
    assert(vstd::slice::spec_slice_len(s) == s@.len()) by {
        broadcast use vstd::slice::axiom_spec_len;
    }
}

/// The byte `peek` returns at position `p` of `s`: absent at the end.
pub open spec fn peek_spec(s: Seq<u8>, p: int) -> Option<u8> {
    if 0 <= p < s.len() {
        Some(s[p])
    } else {
        None
    }
}

/// The position one raw forward step from `p` in `s` reaches: saturates at
/// the end of the buffer.
pub open spec fn advance_pos(s: Seq<u8>, p: int) -> int {
    if p < s.len() {
        p + 1
    } else {
        p
    }
}

/// The position one raw backward step from `p` reaches: saturates at the
/// start of the buffer.
pub open spec fn rewind_pos(p: int) -> int {
    if p > 0 {
        p - 1
    } else {
        p
    }
}

/// How many raw bytes one normalized forward step at position `p` of `s`
/// consumes: 2 for a CRLF pair, 1 for any other byte, 0 at the end.
pub open spec fn lfn_step_len(s: Seq<u8>, p: int) -> int {
    if !(0 <= p < s.len()) {
        0
    } else if s[p] == CARRIAGE_RETURN && p + 1 < s.len() && s[p + 1] == LINE_FEED {
        2
    } else {
        1
    }
}

/// The byte a normalized forward step at position `p` of `s` reports:
/// LF in place of CR (and of a whole CRLF pair), any other byte unchanged.
pub open spec fn lfn_byte(s: Seq<u8>, p: int) -> u8 {
    if s[p] == CARRIAGE_RETURN {
        LINE_FEED
    } else {
        s[p]
    }
}

/// The position one normalized backward step from `p` in `s` reaches:
/// two bytes back when that lands just after a CRLF pair, one byte back
/// otherwise, and `p` itself at the start of the buffer.
pub open spec fn lfn_rewind_pos(s: Seq<u8>, p: int) -> int {
    if p <= 0 {
        p
    } else if s[p - 1] == LINE_FEED && p - 1 > 0 && s[p - 2] == CARRIAGE_RETURN {
        p - 2
    } else {
        p - 1
    }
}

impl<'a> Cursor<'a> {
    /// The bytes of the underlying buffer.
    pub closed spec fn bytes(&self) -> Seq<u8> {
        self.buf@
    }

    /// The current offset into the buffer.
    pub closed spec fn pos(&self) -> int {
        self.position as int
    }

    /// The logical-unit counter.
    pub closed spec fn idx(&self) -> u64 {
        self.index
    }

    /// Validity: the position never leaves the buffer range.
    pub open spec fn wf(&self) -> bool {
        0 <= self.pos() <= self.bytes().len()
    }

    /// Whether a next byte exists.
    pub open spec fn spec_has_next(&self) -> bool {
        self.pos() < self.bytes().len()
    }

    /// Whether the cursor stands past the start of the buffer.
    pub open spec fn spec_can_rewind(&self) -> bool {
        self.pos() > 0
    }

    /// Makes a cursor standing at the start of `slice`.
    pub fn new(slice: &'a [u8]) -> (c: Self)
        ensures
            c.wf(),
            c.bytes() == slice@,
            c.pos() == 0,
            c.idx() == 0,
    {
        Cursor { buf: slice, position: 0, index: 0 }
    }

    /// The full underlying buffer.
    pub fn as_slice(&self) -> (r: &'a [u8])
        ensures
            r@ == self.bytes(),
    {
        self.buf
    }

    /// The current offset into the buffer.
    pub fn cursor(&self) -> (r: usize)
        ensures
            r == self.pos(),
    {
        self.position
    }

    /// Checks if the cursor has a next byte.
    pub fn has_next(&self) -> (r: bool)
        ensures
            r == self.spec_has_next(),
    {
        self.position < self.buf.len()
    }

    /// Peeks into the next byte. Does not advance the iterator.
    pub fn peek(&self) -> (r: Option<u8>)
        ensures
            r == peek_spec(self.bytes(), self.pos()),
    {
        if self.position < self.buf.len() {
            Some(self.buf[self.position])
        } else {
            None
        }
    }

    /// Peeks into the next byte. Does not advance the iterator.
    ///
    /// The cursor must have a next byte.
    pub fn peek_unchecked(&self) -> (r: u8)
        requires
            self.spec_has_next(),
        ensures
            Some(r) == peek_spec(self.bytes(), self.pos()),
    {
        self.buf[self.position]
    }

    /// Gets the next byte. Normalizes line terminators by mapping CR, CRLF
    /// and LF sequences to LF.
    pub fn next_lfn(&mut self) -> (r: Option<u8>)
        requires
            old(self).wf(),
            old(self).spec_has_next() ==> old(self).idx() < u64::MAX,
        ensures
            final(self).wf(),
            final(self).bytes() == old(self).bytes(),
            final(self).pos() == old(self).pos() + lfn_step_len(old(self).bytes(), old(self).pos()),
            !old(self).spec_has_next() ==> r == Option::<u8>::None && *final(self) == *old(self),
            old(self).spec_has_next() ==> r == Some(lfn_byte(old(self).bytes(), old(self).pos()))
                && final(self).idx() == old(self).idx() + 1,
    {
        match self.peek() {
            None => None,
            Some(byte) => {
                self.advance_unchecked();
                if byte == CARRIAGE_RETURN {
                    let lf_follows = match self.peek() {
                        Some(b) => b == LINE_FEED,
                        None => false,
                    };
                    if lf_follows {
                        proof {
                            lemma_slice_len_fits(self.buf);
                        }
                        // The LF of a CRLF pair belongs to the same logical unit.
                        self.position = self.position + 1;
                    }
                    Some(LINE_FEED)
                } else {
                    Some(byte)
                }
            },
        }
    }

    /// Rewinds one normalized logical unit: one byte, or a whole CRLF pair.
    /// Saturates at the lower boundary.
    pub fn rewind_lfn(&mut self)
        requires
            old(self).wf(),
            old(self).spec_can_rewind() ==> old(self).idx() >= 1,
        ensures
            final(self).wf(),
            final(self).bytes() == old(self).bytes(),
            final(self).pos() == lfn_rewind_pos(old(self).bytes(), old(self).pos()),
            !old(self).spec_can_rewind() ==> *final(self) == *old(self),
            old(self).spec_can_rewind() ==> final(self).idx() == old(self).idx() - 1,
    {
        if self.can_rewind() {
            self.index = self.index - 1;
            self.position = self.position - 1;
            if self.buf[self.position] == LINE_FEED && self.position != 0 && self.buf[self.position
                - 1] == CARRIAGE_RETURN {
                self.position = self.position - 1;
            }
        }
    }

    /// Gets the next byte. Does not normalize line terminators.
    pub fn next(&mut self) -> (r: Option<u8>)
        requires
            old(self).wf(),
            old(self).spec_has_next() ==> old(self).idx() < u64::MAX,
        ensures
            final(self).wf(),
            final(self).bytes() == old(self).bytes(),
            r == peek_spec(old(self).bytes(), old(self).pos()),
            final(self).pos() == advance_pos(old(self).bytes(), old(self).pos()),
            old(self).spec_has_next() ==> final(self).idx() == old(self).idx() + 1,
            !old(self).spec_has_next() ==> *final(self) == *old(self),
    {
        if !self.has_next() {
            None
        } else {
            let byte = self.peek_unchecked();
            self.advance_unchecked();
            Some(byte)
        }
    }

    /// Gets the next byte. Does not normalize line terminators.
    ///
    /// The cursor must have a next byte.
    pub fn next_unchecked(&mut self) -> (r: u8)
        requires
            old(self).wf(),
            old(self).spec_has_next(),
            old(self).idx() < u64::MAX,
        ensures
            final(self).wf(),
            final(self).bytes() == old(self).bytes(),
            Some(r) == peek_spec(old(self).bytes(), old(self).pos()),
            final(self).pos() == old(self).pos() + 1,
            final(self).idx() == old(self).idx() + 1,
    {
        let byte = self.peek_unchecked();
        self.advance_unchecked();
        byte
    }

    /// Checks if the cursor can be rewinded.
    pub fn can_rewind(&mut self) -> (r: bool)
        ensures
            *final(self) == *old(self),
            r == old(self).spec_can_rewind(),
    {
        self.position > 0
    }

    /// Rewinds one byte. Saturates at the lower boundary.
    pub fn rewind(&mut self)
        requires
            old(self).wf(),
            old(self).spec_can_rewind() ==> old(self).idx() >= 1,
        ensures
            final(self).wf(),
            final(self).bytes() == old(self).bytes(),
            final(self).pos() == rewind_pos(old(self).pos()),
            old(self).spec_can_rewind() ==> final(self).idx() == old(self).idx() - 1,
            !old(self).spec_can_rewind() ==> *final(self) == *old(self),
    {
        if self.can_rewind() {
            self.rewind_unchecked();
        }
    }

    /// Rewinds one byte.
    ///
    /// The cursor must be able to rewind, and must have consumed at least
    /// one logical unit.
    pub fn rewind_unchecked(&mut self)
        requires
            old(self).wf(),
            old(self).spec_can_rewind(),
            old(self).idx() >= 1,
        ensures
            final(self).wf(),
            final(self).bytes() == old(self).bytes(),
            final(self).pos() == old(self).pos() - 1,
            final(self).idx() == old(self).idx() - 1,
    {
        self.index = self.index - 1;
        self.position = self.position - 1;
    }

    /// Advances one byte, saturates at the upper boundary.
    pub fn advance(&mut self)
        requires
            old(self).wf(),
            old(self).spec_has_next() ==> old(self).idx() < u64::MAX,
        ensures
            final(self).wf(),
            final(self).bytes() == old(self).bytes(),
            final(self).pos() == advance_pos(old(self).bytes(), old(self).pos()),
            old(self).spec_has_next() ==> final(self).idx() == old(self).idx() + 1,
            !old(self).spec_has_next() ==> *final(self) == *old(self),
    {
        if self.has_next() {
            self.advance_unchecked();
        }
    }

    /// Advances the cursor one byte.
    ///
    /// The cursor must not be at the end.
    pub fn advance_unchecked(&mut self)
        requires
            old(self).wf(),
            old(self).spec_has_next(),
            old(self).idx() < u64::MAX,
        ensures
            final(self).wf(),
            final(self).bytes() == old(self).bytes(),
            final(self).pos() == old(self).pos() + 1,
            final(self).idx() == old(self).idx() + 1,
    {
        proof {
            lemma_slice_len_fits(self.buf);
        }
        self.index = self.index + 1;
        self.position = self.position + 1;
    }

    /// Moves one byte forward without touching the logical-unit counter.
    fn step(&mut self) -> (r: Option<u8>)
        requires
            old(self).wf(),
        ensures
            final(self).wf(),
            final(self).bytes() == old(self).bytes(),
            final(self).idx() == old(self).idx(),
            r == peek_spec(old(self).bytes(), old(self).pos()),
            old(self).spec_has_next() ==> final(self).pos() == old(self).pos() + 1,
            !old(self).spec_has_next() ==> *final(self) == *old(self),
    {
        if self.position < self.buf.len() {
            let byte = self.buf[self.position];
            self.position = self.position + 1;
            Some(byte)
        } else {
            None
        }
    }

    /// Moves one normalized unit forward without touching the logical-unit
    /// counter.
    fn step_lfn(&mut self) -> (r: Option<u8>)
        requires
            old(self).wf(),
        ensures
            final(self).wf(),
            final(self).bytes() == old(self).bytes(),
            final(self).idx() == old(self).idx(),
            !old(self).spec_has_next() ==> r == Option::<u8>::None && *final(self) == *old(self),
            old(self).spec_has_next() ==> r == Some(lfn_byte(old(self).bytes(), old(self).pos()))
                && final(self).pos() == old(self).pos() + lfn_step_len(
                old(self).bytes(),
                old(self).pos(),
            ),
    {
        match self.step() {
            None => None,
            Some(byte) => {
                if byte == CARRIAGE_RETURN {
                    let lf_follows = match self.peek() {
                        Some(b) => b == LINE_FEED,
                        None => false,
                    };
                    if lf_follows {
                        proof {
                            lemma_slice_len_fits(self.buf);
                        }
                        self.position = self.position + 1;
                    }
                    Some(LINE_FEED)
                } else {
                    Some(byte)
                }
            },
        }
    }

    /// Reads one continuation byte through a normalized step, reporting
    /// `missing` when the input is exhausted and `invalid` when the byte
    /// read is not a continuation byte.
    fn expect_continuation(&mut self, missing: Error, invalid: Error) -> (r: Result<(), Error>)
        requires
            old(self).wf(),
        ensures
            final(self).wf(),
            final(self).bytes() == old(self).bytes(),
            final(self).idx() == old(self).idx(),
            ({
                let s = old(self).bytes();
                let q = old(self).pos();
                if q >= s.len() {
                    r == Err::<(), Error>(missing) && final(self).pos() == q
                } else if !is_continuation(lfn_byte(s, q)) {
                    r == Err::<(), Error>(invalid) && final(self).pos() == q + lfn_step_len(s, q)
                } else {
                    r == Ok::<(), Error>(()) && final(self).pos() == q + lfn_step_len(s, q)
                }
            }),
    {
        match self.step_lfn() {
            None => Err(missing),
            Some(x) => {
                if x & 0xC0 != 0x80 {
                    Err(invalid)
                } else {
                    Ok(())
                }
            },
        }
    }

    /// Advances the cursor by one char encoded as UTF-8.
    pub fn advance_char(&mut self) -> (r: Result<(), Error>)
        requires
            old(self).wf(),
            old(self).idx() < u64::MAX,
        ensures
            final(self).wf(),
            final(self).bytes() == old(self).bytes(),
            final(self).idx() == old(self).idx() + 1,
            r == advance_char_spec(old(self).bytes(), old(self).pos()).0,
            final(self).pos() == advance_char_spec(old(self).bytes(), old(self).pos()).1,
    {
        proof {
            reveal_with_fuel(scan_continuations, 5);
        }
        self.index = self.index + 1;

        let first_byte = match self.step() {
            Some(x) => x,
            None => {
                return Ok(());
            },
        };

        match char_width(first_byte) {
            0 => Err(Error::EncounteredContinuationByte),
            1 => {
                if first_byte == CARRIAGE_RETURN {
                    let lf_follows = match self.peek() {
                        Some(b) => b == LINE_FEED,
                        None => false,
                    };
                    if lf_follows {
                        proof {
                            lemma_slice_len_fits(self.buf);
                        }
                        self.position = self.position + 1;
                    }
                }
                Ok(())
            },
            2 => {
                self.expect_continuation(Error::Missing2ndOf2, Error::Invalid2ndOf2)?;
                Ok(())
            },
            3 => {
                self.expect_continuation(Error::Missing2ndOf3, Error::Invalid2ndOf3)?;
                self.expect_continuation(Error::Missing3rdOf3, Error::Invalid3rdOf3)?;
                Ok(())
            },
            _ => {
                self.expect_continuation(Error::Missing2ndOf4, Error::Invalid2ndOf4)?;
                self.expect_continuation(Error::Missing3rdOf4, Error::Invalid3rdOf4)?;
                self.expect_continuation(Error::Missing4thOf4, Error::Invalid4thOf4)?;
                Ok(())
            },
        }
    }

    /// Advances the cursor past one whole UTF-8 sequence at once, going by
    /// the width its lead byte announces.
    ///
    /// The cursor must have a next byte, and the announced width must not
    /// run past the end of the buffer.
    pub fn advance_char_unchecked(&mut self)
        requires
            old(self).wf(),
            old(self).spec_has_next(),
            old(self).idx() < u64::MAX,
            old(self).pos() + width_of(old(self).bytes()[old(self).pos()]) <= old(
                self,
            ).bytes().len(),
        ensures
            final(self).wf(),
            final(self).bytes() == old(self).bytes(),
            final(self).idx() == old(self).idx() + 1,
            final(self).pos() == old(self).pos() + width_of(old(self).bytes()[old(self).pos()]),
    {
        proof {
            lemma_slice_len_fits(self.buf);
        }
        self.index = self.index + 1;
        let w = char_width(self.peek_unchecked());
        self.position = self.position + w as usize;
    }

    /// The number of logical units consumed.
    pub fn index(&self) -> (r: u64)
        ensures
            r == self.idx(),
    {
        self.index
    }

    /// Opens a recording at the current position. While the recording is
    /// open, the only way to move this cursor is through the recorder's
    /// `cursor` field.
    pub fn begin_recording<'c>(&'c mut self) -> (r: Recorder<'a, 'c>)
        requires
            old(self).wf(),
        ensures
            r.wf(),
            *r.cursor == *old(self),
            r.start == old(self).pos(),
            *final(self) == *final(r.cursor),
    {
        Recorder { start: self.position, cursor: self }
    }
}

/// A short-lived handle, exclusively bound to one cursor, that captures the
/// byte range between its creation point and the cursor's position at
/// release time.
pub struct Recorder<'a, 'c> {
    /// The recorded cursor; navigation during the recording goes through
    /// this handle.
    pub cursor: &'c mut Cursor<'a>,
    /// The cursor's offset when the recording began.
    pub start: usize,
}

/// Relies on `core::str::from_utf8`: it returns `Ok` exactly when the bytes
/// are valid UTF-8, and the returned view is over those same bytes.
#[verifier::external_body]
fn str_from_bytes<'a>(v: &'a [u8]) -> (r: Option<&'a str>)
    ensures
        r is Some <==> valid_utf8(v@),
        r matches Some(s) ==> s.spec_bytes() == v@,
{
    core::str::from_utf8(v).ok()
}

impl<'a, 'c> Recorder<'a, 'c> {
    /// Validity: the cursor is valid and the recorded start lies within
    /// its buffer.
    pub open spec fn wf(&self) -> bool {
        self.cursor.wf() && self.start <= self.cursor.bytes().len()
    }

    /// The bytes between the recorded start and the cursor's current
    /// position, whichever way round the two stand.
    pub open spec fn recorded(&self) -> Seq<u8> {
        if self.start <= self.cursor.pos() {
            self.cursor.bytes().subrange(self.start as int, self.cursor.pos())
        } else {
            self.cursor.bytes().subrange(self.cursor.pos(), self.start as int)
        }
    }

    /// Releases the recording and yields the traversed bytes as a text
    /// view aliasing the original buffer.
    ///
    /// The caller must have driven the cursor only across whole UTF-8
    /// sequences, so that the recorded range is valid UTF-8.
    pub fn stop(self) -> (r: &'a str)
        requires
            self.wf(),
            valid_utf8(self.recorded()),
        ensures
            r.spec_bytes() == self.recorded(),
            *final(self.cursor) == *old(self.cursor),
    {
        let pos = self.cursor.cursor();
        let first: usize = self.start;
        let buf: &'a [u8] = self.cursor.as_slice();
        let bytes: &'a [u8] = if first <= pos {
            slice_subrange(buf, first, pos)
        } else {
            slice_subrange(buf, pos, first)
        };
        match str_from_bytes(bytes) {
            Some(s) => s,
            None => unreached(),
        }
    }
}

} // verus!
