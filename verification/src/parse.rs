//! Decoder for the raw byte stream a terminal sends: an explicit state
//! machine that turns bytes into [`Event`]s, entered fresh for every token.
//!
//! Escape sequences are a prefix code with no announced length, so the
//! decoder commits to the most specific reading it can confirm and falls
//! back to [`Event::UnrecognizedControlSequence`] rather than waiting for
//! bytes a single read may never supply.

use crate::events::{plain_key, Event, EventBatch, KeyCode, KeyEvent, KeyModifiers};
use vstd::prelude::*;

verus! {

/// Hard cap on the byte budget of one numeric-parameter scan, counted as in
/// [`spec_parse_numerical`]; it bounds the worst-case walk of a malformed
/// stream.
pub const NUMERIC_SCAN_CAP: u8 = 126;

/// One decoded token: either a recognized input event, or the opening of a
/// mouse report, which this layer does not yet decode and must not pass off
/// as [`Event::UnrecognizedControlSequence`].
#[derive(Debug, PartialEq, Eq, Clone, Copy, Structural)]
pub enum Decoded {
    /// A recognized input token.
    Token(Event),
    /// A mouse-report introducer; decoding it is not supported.
    Unsupported,
}

/// Raised when the byte stream holds a sequence the decoder recognizes as
/// one it cannot yet decode (a mouse report). A caller must not treat this
/// as ordinary unrecognized data.
#[derive(Debug, PartialEq, Eq, Clone, Copy, Structural)]
pub struct UnsupportedSequence;

/// True for the ASCII digits `0` through `9`.
pub open spec fn is_ascii_digit(b: u8) -> bool {
    0x30 <= b <= 0x39
}

/// True when every byte of `ds` is an ASCII digit.
pub open spec fn all_digits(ds: Seq<u8>) -> bool {
    forall|k: int| 0 <= k < ds.len() ==> is_ascii_digit(#[trigger] ds[k])
}

/// The number an ASCII-digit string denotes, most significant digit first.
pub open spec fn digits_val(ds: Seq<u8>) -> int
    decreases ds.len(),
{
    if ds.len() == 0 {
        0
    } else {
        digits_val(ds.drop_last()) * 10 + (ds.last() - 0x30)
    }
}

/// What parsing `ds` as an unsigned 16-bit decimal yields: the denoted
/// number, or nothing when `ds` is empty, holds a non-digit, or denotes a
/// number above `u16::MAX`.
pub open spec fn spec_u16_from_digits(ds: Seq<u8>) -> Option<u16> {
    if ds.len() > 0 && all_digits(ds) && digits_val(ds) <= 0xffff {
        Some(digits_val(ds) as u16)
    } else {
        None
    }
}

/// The numeric-parameter sub-state of the decoder, after `ESC [` and at
/// least one digit: `i` is the position of the next byte, `len` the byte
/// budget already charged, `count` the number of registers so far, and
/// `r0`, `r1` the digit runs of the first two registers. Digit runs of
/// later registers are consumed but can never reach the result.
pub open spec fn spec_parse_numerical(
    s: Seq<u8>,
    i: int,
    len: int,
    count: int,
    r0: Seq<u8>,
    r1: Seq<u8>,
) -> (Event, int)
    decreases s.len() - i,
{
    if len + 1 > NUMERIC_SCAN_CAP {
        (Event::UnrecognizedControlSequence, i)
    } else if i < 0 || i >= s.len() {
        (Event::UnrecognizedControlSequence, i)
    } else if is_ascii_digit(s[i]) {
        spec_parse_numerical(
            s,
            i + 1,
            len + 1,
            count,
            if count == 1 {
                r0.push(s[i])
            } else {
                r0
            },
            if count == 2 {
                r1.push(s[i])
            } else {
                r1
            },
        )
    } else if s[i] == 0x3b {
        spec_parse_numerical(s, i + 1, len + 1, count + 1, r0, r1)
    } else if s[i] == 0x52 && count == 2 {
        match (spec_u16_from_digits(r0), spec_u16_from_digits(r1)) {
            (Some(row), Some(col)) => (Event::Cursor(row, col), i + 1),
            _ => (Event::UnrecognizedControlSequence, i + 1),
        }
    } else {
        (Event::UnrecognizedControlSequence, i + 1)
    }
}

/// The SS3 state, after `ESC O`: the historical function-key and
/// navigation mapping, preserved as the terminals send it.
pub open spec fn spec_parse_o(s: Seq<u8>, i: int) -> (Event, int) {
    if i < 0 || i >= s.len() {
        (Event::UnrecognizedControlSequence, i)
    } else if s[i] == 0x44 {
        (plain_key(KeyCode::LeftArrow), i + 1)
    } else if s[i] == 0x43 {
        (plain_key(KeyCode::UpArrow), i + 1)
    } else if s[i] == 0x42 {
        (plain_key(KeyCode::DownArrow), i + 1)
    } else if s[i] == 0x48 {
        (plain_key(KeyCode::Home), i + 1)
    } else if s[i] == 0x46 {
        (plain_key(KeyCode::End), i + 1)
    } else if 0x50 <= s[i] <= 0x53 {
        (plain_key(KeyCode::F((1 + (s[i] - 0x50)) as u8)), i + 1)
    } else {
        (Event::UnrecognizedControlSequence, i + 1)
    }
}

/// The CSI state, after `ESC [`.
pub open spec fn spec_parse_bracket(s: Seq<u8>, i: int) -> (Decoded, int) {
    if i < 0 || i >= s.len() {
        (Decoded::Token(Event::UnrecognizedControlSequence), i)
    } else if s[i] == 0x41 {
        (Decoded::Token(plain_key(KeyCode::UpArrow)), i + 1)
    } else if s[i] == 0x42 {
        (Decoded::Token(plain_key(KeyCode::DownArrow)), i + 1)
    } else if s[i] == 0x43 {
        (Decoded::Token(plain_key(KeyCode::RightArrow)), i + 1)
    } else if s[i] == 0x44 {
        (Decoded::Token(plain_key(KeyCode::LeftArrow)), i + 1)
    } else if s[i] == 0x46 {
        (Decoded::Token(plain_key(KeyCode::End)), i + 1)
    } else if s[i] == 0x48 {
        (Decoded::Token(plain_key(KeyCode::Home)), i + 1)
    } else if s[i] == 0x5a {
        (
            Decoded::Token(
                Event::Key(
                    KeyEvent { code: KeyCode::BackTab, modifiers: KeyModifiers { bits: 0x01 } },
                ),
            ),
            i + 1,
        )
    } else if s[i] == 0x4d || s[i] == 0x3c {
        (Decoded::Unsupported, i)
    } else if s[i] == 0x49 {
        (Decoded::Token(Event::FocusGained), i + 1)
    } else if s[i] == 0x4f {
        (Decoded::Token(Event::FocusLost), i + 1)
    } else if is_ascii_digit(s[i]) {
        let (ev, j) = spec_parse_numerical(s, i + 1, 4, 1, seq![s[i]], Seq::empty());
        (Decoded::Token(ev), j)
    } else {
        (Decoded::Token(Event::UnrecognizedControlSequence), i + 1)
    }
}

/// The escape state, after one `ESC` byte.
pub open spec fn spec_parse_esc(s: Seq<u8>, i: int) -> (Decoded, int) {
    if i < 0 || i >= s.len() {
        (Decoded::Token(Event::UnrecognizedControlSequence), i)
    } else if s[i] == 0x5b {
        spec_parse_bracket(s, i + 1)
    } else if s[i] == 0x4f {
        let (ev, j) = spec_parse_o(s, i + 1);
        (Decoded::Token(ev), j)
    } else if s[i] == 0x1b {
        (Decoded::Token(plain_key(KeyCode::Escape)), i + 1)
    } else {
        (Decoded::Token(Event::UnrecognizedControlSequence), i + 1)
    }
}

/// One step of the decoder at position `i`: the next token and the position
/// after it, or `None` when the input is exhausted (nothing to report,
/// distinct from garbled input).
pub open spec fn spec_parse_event(s: Seq<u8>, i: int) -> Option<(Decoded, int)> {
    if i < 0 || i >= s.len() {
        None
    } else if s[i] == 0x1b {
        Some(spec_parse_esc(s, i + 1))
    } else {
        Some((Decoded::Token(plain_key(KeyCode::Char(s[i] as char))), i + 1))
    }
}

/// The numeric-parameter scan never steps backwards and never passes the
/// end of the input.
pub proof fn lemma_numerical_advances(s: Seq<u8>, i: int, len: int, count: int, r0: Seq<u8>, r1: Seq<u8>)
    requires
        0 <= i <= s.len(),
    ensures
        i <= spec_parse_numerical(s, i, len, count, r0, r1).1 <= s.len(),
    decreases s.len() - i,
{
    if len + 1 > NUMERIC_SCAN_CAP {
    } else if i >= s.len() {
    } else if is_ascii_digit(s[i]) {
        lemma_numerical_advances(
            s,
            i + 1,
            len + 1,
            count,
            if count == 1 {
                r0.push(s[i])
            } else {
                r0
            },
            if count == 2 {
                r1.push(s[i])
            } else {
                r1
            },
        );
    } else if s[i] == 0x3b {
        lemma_numerical_advances(s, i + 1, len + 1, count + 1, r0, r1);
    } else {
    }
}

/// One decoding step always consumes at least one byte and never passes the
/// end of the input.
pub proof fn lemma_parse_event_advances(s: Seq<u8>, i: int)
    requires
        spec_parse_event(s, i) is Some,
    ensures
        i < spec_parse_event(s, i).unwrap().1 <= s.len(),
{
    if s[i] == 0x1b {
        if i + 1 < s.len() {
            if s[i + 1] == 0x5b {
                if i + 2 < s.len() && is_ascii_digit(s[i + 2]) {
                    lemma_numerical_advances(s, i + 3, 4, 1, seq![s[i + 2]], Seq::empty());
                }
            }
        }
    }
}

/// True when no token of the decode of `s` from `i` onwards is a mouse
/// report the decoder cannot handle.
pub open spec fn decode_supported(s: Seq<u8>, i: int) -> bool
    decreases s.len() - i,
    via decode_supported_decreases
{
    match spec_parse_event(s, i) {
        Option::None => true,
        Option::Some((Decoded::Token(ev), j)) => decode_supported(s, j),
        Option::Some((Decoded::Unsupported, j)) => false,
    }
}

#[via_fn]
proof fn decode_supported_decreases(s: Seq<u8>, i: int) {
    if spec_parse_event(s, i) is Some {
        lemma_parse_event_advances(s, i);
    }
}

/// The full decode of `s` from `i` onwards: every token in arrival order.
/// Where the decode runs into an unsupported mouse report the sequence ends;
/// [`decode_supported`] tells the two apart.
pub open spec fn decode_all(s: Seq<u8>, i: int) -> Seq<Event>
    decreases s.len() - i,
    via decode_all_decreases
{
    match spec_parse_event(s, i) {
        Option::None => Seq::empty(),
        Option::Some((Decoded::Token(ev), j)) => seq![ev] + decode_all(s, j),
        Option::Some((Decoded::Unsupported, j)) => Seq::empty(),
    }
}

#[via_fn]
proof fn decode_all_decreases(s: Seq<u8>, i: int) {
    if spec_parse_event(s, i) is Some {
        lemma_parse_event_advances(s, i);
    }
}

/// Parses a digit run as an unsigned 16-bit decimal, exactly as
/// [`spec_u16_from_digits`] states: `None` on an empty run, a non-digit, or
/// a value above `u16::MAX`, however long the run of leading zeros.
fn u16_from_digits(ds: &Vec<u8>) -> (r: Option<u16>)
    ensures
        r == spec_u16_from_digits(ds@),
{
    if ds.len() == 0 {
        return None;
    }
    let mut acc: u32 = 0;
    let mut over = false;
    let mut k: usize = 0;
    while k < ds.len()
        invariant
            k <= ds@.len(),
            forall|j: int| 0 <= j < k ==> is_ascii_digit(#[trigger] ds@[j]),
            acc <= 0xffff,
            !over ==> acc == digits_val(ds@.take(k as int)),
            over ==> digits_val(ds@.take(k as int)) > 0xffff,
        decreases ds@.len() - k,
    {
        let b = ds[k];
        if !(0x30 <= b && b <= 0x39) {
            assert(!all_digits(ds@));
            return None;
        }
        proof {
            assert(ds@.take(k as int + 1).drop_last() =~= ds@.take(k as int));
            assert(ds@.take(k as int + 1).last() == ds@[k as int]);
        }
        if !over {
            let v = acc * 10 + (b - 0x30) as u32;
            if v > 0xffff {
                over = true;
            } else {
                acc = v;
            }
        }
        k += 1;
    }
    proof {
        assert(ds@.take(k as int) =~= ds@);
    }
    if over {
        None
    } else {
        Some(acc as u16)
    }
}

/// Decodes the byte after `ESC O`: the SS3 navigation and function-key
/// mapping, exactly as [`spec_parse_o`] states.
pub fn parse_opening_o(bytes: &Vec<u8>, pos: usize) -> (r: (Event, usize))
    requires
        pos <= bytes@.len(),
    ensures
        r.0 == spec_parse_o(bytes@, pos as int).0,
        r.1 as int == spec_parse_o(bytes@, pos as int).1,
{
    if pos >= bytes.len() {
        return (Event::UnrecognizedControlSequence, pos);
    }
    let b = bytes[pos];
    let ev = if b == 0x44 {
        Event::Key(KeyEvent { code: KeyCode::LeftArrow, modifiers: KeyModifiers::empty() })
    } else if b == 0x43 {
        Event::Key(KeyEvent { code: KeyCode::UpArrow, modifiers: KeyModifiers::empty() })
    } else if b == 0x42 {
        Event::Key(KeyEvent { code: KeyCode::DownArrow, modifiers: KeyModifiers::empty() })
    } else if b == 0x48 {
        Event::Key(KeyEvent { code: KeyCode::Home, modifiers: KeyModifiers::empty() })
    } else if b == 0x46 {
        Event::Key(KeyEvent { code: KeyCode::End, modifiers: KeyModifiers::empty() })
    } else if 0x50 <= b && b <= 0x53 {
        Event::Key(KeyEvent { code: KeyCode::F(1 + (b - 0x50)), modifiers: KeyModifiers::empty() })
    } else {
        Event::UnrecognizedControlSequence
    };
    (ev, pos + 1)
}

/// Decodes the numeric-parameter sub-state entered after `ESC [` and a
/// first digit `val`: digit runs split on `;` into registers, a byte budget
/// capped at [`NUMERIC_SCAN_CAP`], and terminator `R` with exactly two
/// registers yielding a cursor report, exactly as [`spec_parse_numerical`]
/// states.
pub fn parse_numerical(bytes: &Vec<u8>, pos: usize, val: u8) -> (r: (Event, usize))
    requires
        pos <= bytes@.len(),
    ensures
        r.0 == spec_parse_numerical(bytes@, pos as int, 4, 1, seq![val], Seq::<u8>::empty()).0,
        r.1 as int == spec_parse_numerical(bytes@, pos as int, 4, 1, seq![val], Seq::<u8>::empty()).1,
{
    let mut r0: Vec<u8> = Vec::new();
    r0.push(val);
    let mut r1: Vec<u8> = Vec::new();
    let mut count: usize = 1;
    let mut len: u8 = 4;
    let mut i: usize = pos;
    proof {
        assert(r0@ =~= seq![val]);
        assert(r1@ =~= Seq::<u8>::empty());
    }
    loop
        invariant
            pos <= i <= bytes@.len(),
            4 <= len <= NUMERIC_SCAN_CAP,
            1 <= count <= len,
            spec_parse_numerical(bytes@, pos as int, 4, 1, seq![val], Seq::<u8>::empty())
                == spec_parse_numerical(
                bytes@,
                i as int,
                len as int,
                count as int,
                r0@,
                r1@,
            ),
        decreases NUMERIC_SCAN_CAP - len,
    {
        if len + 1 > NUMERIC_SCAN_CAP {
            return (Event::UnrecognizedControlSequence, i);
        }
        len = len + 1;
        if i >= bytes.len() {
            return (Event::UnrecognizedControlSequence, i);
        }
        let b = bytes[i];
        if 0x30 <= b && b <= 0x39 {
            if count == 1 {
                r0.push(b);
            } else if count == 2 {
                r1.push(b);
            }
            i = i + 1;
        } else if b == 0x3b {
            count = count + 1;
            i = i + 1;
        } else if b == 0x52 && count == 2 {
            let row = u16_from_digits(&r0);
            let col = u16_from_digits(&r1);
            match (row, col) {
                (Some(row), Some(col)) => {
                    return (Event::Cursor(row, col), i + 1);
                },
                _ => {
                    return (Event::UnrecognizedControlSequence, i + 1);
                },
            }
        } else {
            return (Event::UnrecognizedControlSequence, i + 1);
        }
    }
}

/// Decodes the byte after `ESC [`, exactly as [`spec_parse_bracket`]
/// states. A mouse-report introducer (`M` or `<`) comes back as
/// [`Decoded::Unsupported`], never as an ordinary event.
pub fn parse_opening_bracket(bytes: &Vec<u8>, pos: usize) -> (r: (Decoded, usize))
    requires
        pos <= bytes@.len(),
    ensures
        r.0 == spec_parse_bracket(bytes@, pos as int).0,
        r.1 as int == spec_parse_bracket(bytes@, pos as int).1,
{
    if pos >= bytes.len() {
        return (Decoded::Token(Event::UnrecognizedControlSequence), pos);
    }
    let b = bytes[pos];
    if b == 0x41 {
        (Decoded::Token(Event::Key(KeyEvent { code: KeyCode::UpArrow, modifiers: KeyModifiers::empty() })), pos + 1)
    } else if b == 0x42 {
        (Decoded::Token(Event::Key(KeyEvent { code: KeyCode::DownArrow, modifiers: KeyModifiers::empty() })), pos + 1)
    } else if b == 0x43 {
        (Decoded::Token(Event::Key(KeyEvent { code: KeyCode::RightArrow, modifiers: KeyModifiers::empty() })), pos + 1)
    } else if b == 0x44 {
        (Decoded::Token(Event::Key(KeyEvent { code: KeyCode::LeftArrow, modifiers: KeyModifiers::empty() })), pos + 1)
    } else if b == 0x46 {
        (Decoded::Token(Event::Key(KeyEvent { code: KeyCode::End, modifiers: KeyModifiers::empty() })), pos + 1)
    } else if b == 0x48 {
        (Decoded::Token(Event::Key(KeyEvent { code: KeyCode::Home, modifiers: KeyModifiers::empty() })), pos + 1)
    } else if b == 0x5a {
        (Decoded::Token(Event::Key(KeyEvent { code: KeyCode::BackTab, modifiers: KeyModifiers::shift() })), pos + 1)
    } else if b == 0x4d || b == 0x3c {
        (Decoded::Unsupported, pos)
    } else if b == 0x49 {
        (Decoded::Token(Event::FocusGained), pos + 1)
    } else if b == 0x4f {
        (Decoded::Token(Event::FocusLost), pos + 1)
    } else if 0x30 <= b && b <= 0x39 {
        let (ev, j) = parse_numerical(bytes, pos + 1, b);
        (Decoded::Token(ev), j)
    } else {
        (Decoded::Token(Event::UnrecognizedControlSequence), pos + 1)
    }
}

/// Decodes the byte after one `ESC`, exactly as [`spec_parse_esc`] states:
/// `[` opens the CSI state, `O` the SS3 state, a second `ESC` is the escape
/// key itself, and anything else (or exhausted input) is unrecognized.
pub fn parse_esc(bytes: &Vec<u8>, pos: usize) -> (r: (Decoded, usize))
    requires
        pos <= bytes@.len(),
    ensures
        r.0 == spec_parse_esc(bytes@, pos as int).0,
        r.1 as int == spec_parse_esc(bytes@, pos as int).1,
{
    if pos >= bytes.len() {
        return (Decoded::Token(Event::UnrecognizedControlSequence), pos);
    }
    let b = bytes[pos];
    if b == 0x5b {
        parse_opening_bracket(bytes, pos + 1)
    } else if b == 0x4f {
        let (ev, j) = parse_opening_o(bytes, pos + 1);
        (Decoded::Token(ev), j)
    } else if b == 0x1b {
        (Decoded::Token(Event::Key(KeyEvent { code: KeyCode::Escape, modifiers: KeyModifiers::empty() })), pos + 1)
    } else {
        (Decoded::Token(Event::UnrecognizedControlSequence), pos + 1)
    }
}

/// Decodes the next token at `pos`, exactly as [`spec_parse_event`] states:
/// `None` with the position unchanged when the input is exhausted, else the
/// token and the position after it. A byte other than `ESC` is one
/// printable character.
pub fn parse_event(bytes: &Vec<u8>, pos: usize) -> (r: (Option<Decoded>, usize))
    requires
        pos <= bytes@.len(),
    ensures
        spec_parse_event(bytes@, pos as int) is None ==> r.0 is None && r.1 == pos,
        spec_parse_event(bytes@, pos as int) matches Some((t, j)) ==> r.0 == Some(t) && r.1 as int
            == j,
        pos <= r.1 <= bytes@.len(),
        r.0 is Some ==> pos < r.1,
{
    proof {
        if spec_parse_event(bytes@, pos as int) is Some {
            lemma_parse_event_advances(bytes@, pos as int);
        }
    }
    if pos >= bytes.len() {
        return (None, pos);
    }
    let b = bytes[pos];
    if b == 0x1b {
        let (d, j) = parse_esc(bytes, pos + 1);
        (Some(d), j)
    } else {
        (
            Some(Decoded::Token(Event::Key(KeyEvent { code: KeyCode::Char(b as char), modifiers: KeyModifiers::empty() }))),
            pos + 1,
        )
    }
}

/// Decodes a whole buffer: the single-token decoder is re-entered over the
/// same byte cursor until the input is exhausted, and the tokens are
/// collected in arrival order. The batch is exactly [`decode_all`] of the
/// buffer; a mouse report anywhere in the buffer yields
/// [`UnsupportedSequence`] instead, exactly when [`decode_supported`] fails.
pub fn parse_batch(sequence: Vec<u8>) -> (r: Result<EventBatch, UnsupportedSequence>)
    ensures
        decode_supported(sequence@, 0) ==> (r matches Ok(b) && b@ == decode_all(sequence@, 0)),
        !decode_supported(sequence@, 0) ==> r is Err,
{
    let mut batch: Vec<Event> = Vec::new();
    let mut pos: usize = 0;
    loop
        invariant
            pos <= sequence@.len(),
            decode_supported(sequence@, 0) == decode_supported(sequence@, pos as int),
            decode_supported(sequence@, 0) ==> decode_all(sequence@, 0) == batch@ + decode_all(
                sequence@,
                pos as int,
            ),
        ensures
            pos as int >= sequence@.len(),
            decode_supported(sequence@, 0),
            decode_all(sequence@, 0) == batch@,
        decreases sequence@.len() - pos,
    {
        let (t, j) = parse_event(&sequence, pos);
        match t {
            None => {
                proof {
                    assert(decode_all(sequence@, pos as int) =~= Seq::<Event>::empty());
                    assert(batch@ + Seq::<Event>::empty() =~= batch@);
                }
                break;
            },
            Some(Decoded::Token(ev)) => {
                proof {
                    assert(decode_all(sequence@, pos as int) == seq![ev] + decode_all(
                        sequence@,
                        j as int,
                    ));
                    assert(batch@ + decode_all(sequence@, pos as int) =~= batch@.push(ev)
                        + decode_all(sequence@, j as int));
                }
                batch.push(ev);
                pos = j;
            },
            Some(Decoded::Unsupported) => {
                return Err(UnsupportedSequence);
            },
        }
    }
    Ok(EventBatch::from_events(batch))
}

/// The escape encoding a key code is decoded from, for the codes that have
/// one: the CSI navigation bytes, the SS3 function keys, the doubled `ESC`,
/// and the single byte of a printable character outside the escape byte.
/// Codes the byte stream never encodes on their own have none.
pub open spec fn key_encoding(code: KeyCode) -> Option<Seq<u8>> {
    match code {
        KeyCode::Char(c) => if (c as u32) < 256 && c as u32 != 0x1b {
            Some(seq![c as u8])
        } else {
            None
        },
        KeyCode::Escape => Some(seq![0x1bu8, 0x1bu8]),
        KeyCode::UpArrow => Some(seq![0x1bu8, 0x5bu8, 0x41u8]),
        KeyCode::DownArrow => Some(seq![0x1bu8, 0x5bu8, 0x42u8]),
        KeyCode::RightArrow => Some(seq![0x1bu8, 0x5bu8, 0x43u8]),
        KeyCode::LeftArrow => Some(seq![0x1bu8, 0x5bu8, 0x44u8]),
        KeyCode::End => Some(seq![0x1bu8, 0x5bu8, 0x46u8]),
        KeyCode::Home => Some(seq![0x1bu8, 0x5bu8, 0x48u8]),
        KeyCode::BackTab => Some(seq![0x1bu8, 0x5bu8, 0x5au8]),
        KeyCode::F(n) => if 1 <= n <= 4 {
            Some(seq![0x1bu8, 0x4fu8, (0x50 + n - 1) as u8])
        } else {
            None
        },
        _ => None,
    }
}

/// The event decoding a key code's encoding yields: the key itself, with no
/// modifiers — except `BackTab`, which the terminal only sends shifted.
pub open spec fn encoded_event(code: KeyCode) -> Event {
    if code == KeyCode::BackTab {
        Event::Key(KeyEvent { code, modifiers: KeyModifiers { bits: 0x01 } })
    } else {
        plain_key(code)
    }
}

/// Ordering law: where a key code's full encoding stands at position `i` of
/// a longer stream, the decode from `i` is exactly that key's event followed
/// by the decode of what comes after the encoding. Decoding therefore keeps
/// arrival order across concatenated sequences.
pub proof fn lemma_encoding_prepend(code: KeyCode, s: Seq<u8>, i: int)
    requires
        key_encoding(code) is Some,
        0 <= i,
        i + key_encoding(code).unwrap().len() <= s.len(),
        s.subrange(i, i + key_encoding(code).unwrap().len() as int) == key_encoding(code).unwrap(),
    ensures
        decode_all(s, i) == seq![encoded_event(code)] + decode_all(
            s,
            i + key_encoding(code).unwrap().len() as int,
        ),
        decode_supported(s, i) == decode_supported(s, i + key_encoding(code).unwrap().len() as int),
{
    let enc = key_encoding(code).unwrap();
    assert forall|k: int| 0 <= k < enc.len() implies s[i + k] == enc[k] by {
        assert(s.subrange(i, i + enc.len() as int)[k] == s[i + k]);
    }
    match code {
        KeyCode::Char(c) => {
            let u: u32 = c as u32;
            assert(enc[0] == c as u8);
            assert(s[i + 0] == enc[0]);
            assert(s[i] == c as u8);
            assert(u < 256 ==> (u as u8) as u32 == u) by (bit_vector);
            assert(s[i] as u32 == u);
            vstd::utf8::char_u32_cast(c, u);
            assert(s[i] as char == c);
            assert(spec_parse_event(s, i) == Some((Decoded::Token(plain_key(code)), i + 1)));
        },
        _ => {},
    }
}

/// Round trip: decoding exactly the escape encoding of a key code yields
/// exactly that key's event — with no modifiers, except `BackTab`, which
/// carries Shift — and nothing else.
pub proof fn lemma_key_round_trip(code: KeyCode)
    requires
        key_encoding(code) is Some,
    ensures
        decode_all(key_encoding(code).unwrap(), 0) == seq![encoded_event(code)],
        decode_supported(key_encoding(code).unwrap(), 0),
{
    let enc = key_encoding(code).unwrap();
    assert(enc.subrange(0, enc.len() as int) == enc);
    lemma_encoding_prepend(code, enc, 0);
    assert(decode_all(enc, enc.len() as int) =~= Seq::<Event>::empty());
    assert(seq![encoded_event(code)] + Seq::<Event>::empty() =~= seq![encoded_event(code)]);
}

/// Decoding an empty byte sequence yields an empty batch and never runs
/// into anything unsupported.
pub proof fn lemma_empty_decode()
    ensures
        decode_all(Seq::<u8>::empty(), 0) == Seq::<Event>::empty(),
        decode_supported(Seq::<u8>::empty(), 0),
{
}

/// A numeric-parameter scan over input that ends without a terminator
/// consumes everything that is left and reports nothing but failure.
proof fn lemma_numeric_exhausts(s: Seq<u8>, i: int, len: int, count: int, r0: Seq<u8>, r1: Seq<u8>)
    requires
        0 <= i <= s.len(),
        forall|j: int| i <= j < s.len() ==> is_ascii_digit(#[trigger] s[j]) || s[j] == 0x3b,
        len + (s.len() - i) <= NUMERIC_SCAN_CAP,
    ensures
        spec_parse_numerical(s, i, len, count, r0, r1) == (
            Event::UnrecognizedControlSequence,
            s.len() as int,
        ),
    decreases s.len() - i,
{
    if i < s.len() {
        if is_ascii_digit(s[i]) {
            lemma_numeric_exhausts(
                s,
                i + 1,
                len + 1,
                count,
                if count == 1 {
                    r0.push(s[i])
                } else {
                    r0
                },
                if count == 2 {
                    r1.push(s[i])
                } else {
                    r1
                },
            );
        } else {
            lemma_numeric_exhausts(s, i + 1, len + 1, count + 1, r0, r1);
        }
    }
}

/// A numeric-parameter scan walks a run of digits in one go: it charges
/// one budget byte per digit and appends the run to the open register;
/// runs past the second register are consumed without effect.
pub proof fn lemma_numeric_digits_run(
    s: Seq<u8>,
    i: int,
    j: int,
    len: int,
    count: int,
    r0: Seq<u8>,
    r1: Seq<u8>,
)
    requires
        0 <= i <= j <= s.len(),
        forall|m: int| i <= m < j ==> is_ascii_digit(#[trigger] s[m]),
        len + (j - i) + 1 <= NUMERIC_SCAN_CAP,
    ensures
        spec_parse_numerical(s, i, len, count, r0, r1) == spec_parse_numerical(
            s,
            j,
            len + (j - i),
            count,
            if count == 1 {
                r0 + s.subrange(i, j)
            } else {
                r0
            },
            if count == 2 {
                r1 + s.subrange(i, j)
            } else {
                r1
            },
        ),
    decreases j - i,
{
    if i < j {
        let r0_next = if count == 1 {
            r0.push(s[i])
        } else {
            r0
        };
        let r1_next = if count == 2 {
            r1.push(s[i])
        } else {
            r1
        };
        lemma_numeric_digits_run(s, i + 1, j, len + 1, count, r0_next, r1_next);
        assert(r0.push(s[i]) + s.subrange(i + 1, j) =~= r0 + s.subrange(i, j));
        assert(r1.push(s[i]) + s.subrange(i + 1, j) =~= r1 + s.subrange(i, j));
    } else {
        assert(r0 + s.subrange(i, j) =~= r0);
        assert(r1 + s.subrange(i, j) =~= r1);
    }
}

/// Robustness: a byte sequence that begins an escape sequence — one `ESC`,
/// `ESC [`, or `ESC [` with an unterminated numeric-parameter run — and
/// then ends yields exactly one `UnrecognizedControlSequence`, consuming
/// the whole remaining input. A truncated cursor report cut anywhere after
/// its first byte has exactly this shape.
pub proof fn lemma_truncated_csi_unrecognized(s: Seq<u8>)
    requires
        1 <= s.len() <= 125,
        s[0] == 0x1b,
        s.len() >= 2 ==> s[1] == 0x5b,
        s.len() >= 3 ==> is_ascii_digit(s[2]),
        forall|j: int| 3 <= j < s.len() ==> is_ascii_digit(#[trigger] s[j]) || s[j] == 0x3b,
    ensures
        decode_all(s, 0) == seq![Event::UnrecognizedControlSequence],
{
    if s.len() >= 3 {
        lemma_numeric_exhausts(s, 3, 4, 1, seq![s[2]], Seq::<u8>::empty());
    }
    assert(decode_all(s, s.len() as int) =~= Seq::<Event>::empty());
    assert(seq![Event::UnrecognizedControlSequence] + Seq::<Event>::empty() =~= seq![
        Event::UnrecognizedControlSequence,
    ]);
}

/// Robustness for the short escape openers: any proper, non-empty prefix of
/// a key code's multi-byte escape encoding decodes to exactly one
/// `UnrecognizedControlSequence`, consuming the whole remaining input.
pub proof fn lemma_truncated_key_encoding(code: KeyCode, k: int)
    requires
        key_encoding(code) is Some,
        1 <= k < key_encoding(code).unwrap().len(),
    ensures
        decode_all(key_encoding(code).unwrap().take(k), 0) == seq![
            Event::UnrecognizedControlSequence,
        ],
{
    let enc = key_encoding(code).unwrap();
    let t = enc.take(k);
    assert(t[0] == 0x1b);
    assert(decode_all(t, t.len() as int) =~= Seq::<Event>::empty());
    assert(seq![Event::UnrecognizedControlSequence] + Seq::<Event>::empty() =~= seq![
        Event::UnrecognizedControlSequence,
    ]);
}

/// The decoder never reports `OutOfRange`: that variant is reserved for
/// platform reports outside the representable range, which the byte decoder
/// cannot produce.
pub proof fn lemma_decode_no_out_of_range(s: Seq<u8>, i: int)
    ensures
        forall|k: int|
            0 <= k < decode_all(s, i).len() ==> #[trigger] decode_all(s, i)[k]
                != Event::OutOfRange,
    decreases s.len() - i,
{
    match spec_parse_event(s, i) {
        Option::None => {},
        Option::Some((Decoded::Token(ev), j)) => {
            lemma_parse_event_advances(s, i);
            lemma_decode_no_out_of_range(s, j);
            if s[i] == 0x1b {
                lemma_esc_no_out_of_range(s, i + 1);
            }
        },
        Option::Some((Decoded::Unsupported, j)) => {},
    }
}

/// No state the escape path can reach produces `OutOfRange`.
proof fn lemma_esc_no_out_of_range(s: Seq<u8>, i: int)
    ensures
        spec_parse_esc(s, i).0 matches Decoded::Token(ev) ==> ev != Event::OutOfRange,
{
    if 0 <= i < s.len() && s[i] == 0x5b {
        if i + 1 < s.len() && is_ascii_digit(s[i + 1]) {
            lemma_numeric_no_out_of_range(s, i + 2, 4, 1, seq![s[i + 1]], Seq::<u8>::empty());
        }
    }
}

/// The numeric-parameter scan yields a cursor report or a failure, never
/// `OutOfRange`.
proof fn lemma_numeric_no_out_of_range(
    s: Seq<u8>,
    i: int,
    len: int,
    count: int,
    r0: Seq<u8>,
    r1: Seq<u8>,
)
    ensures
        spec_parse_numerical(s, i, len, count, r0, r1).0 != Event::OutOfRange,
    decreases s.len() - i,
{
    if len + 1 > NUMERIC_SCAN_CAP {
    } else if i < 0 || i >= s.len() {
    } else if is_ascii_digit(s[i]) {
        lemma_numeric_no_out_of_range(
            s,
            i + 1,
            len + 1,
            count,
            if count == 1 {
                r0.push(s[i])
            } else {
                r0
            },
            if count == 2 {
                r1.push(s[i])
            } else {
                r1
            },
        );
    } else if s[i] == 0x3b {
        lemma_numeric_no_out_of_range(s, i + 1, len + 1, count + 1, r0, r1);
    } else {
    }
}

} // verus!
