//! The uniform terminal-control surface: raw-mode and screen-buffer
//! toggling, cursor and screen commands, the read scheduler that drains
//! available bytes into event batches, and the cursor-position query
//! protocol.
//!
//! The escape commands are built as exact byte sequences by verified
//! builders and handed to the caller's output sink; none of them implies a
//! flush. The platform-specific system calls stand behind the [`RawOs`]
//! capability trait, with one concrete implementation per target OS chosen
//! by the embedding application.

use crate::events::{Event, EventBatch};
use crate::parse::{
    decode_all, decode_supported, lemma_decode_no_out_of_range, lemma_empty_decode, parse_batch,
    parse_event, spec_parse_event, spec_parse_numerical, Decoded, NUMERIC_SCAN_CAP,
};
use vstd::prelude::*;

verus! {

/// The OS error type every operation surfaces verbatim; this layer never
/// retries and never swallows one.
#[verifier::external_type_specification]
#[verifier::external_body]
pub struct ExIoError(std::io::Error);

/// Relies on std::io::Write::write_all: it hands the whole buffer to the
/// sink, or returns the first error of the sink verbatim.
#[verifier::external_body]
fn write_all_to<Output: std::io::Write>(output: &mut Output, bytes: &Vec<u8>) -> (r: Result<
    (),
    std::io::Error,
>) {
    output.write_all(bytes.as_slice())
}

/// Relies on std::io::Write::flush: it pushes buffered output down to the
/// sink, or returns the sink's error verbatim.
#[verifier::external_body]
fn flush_to<Output: std::io::Write>(output: &mut Output) -> (r: Result<(), std::io::Error>) {
    output.flush()
}

/// Relies on std::io::Error::new: wraps this layer's explicit "not
/// supported" signal (a mouse report in the stream) as an I/O error, so it
/// is never passed off as ordinary data.
#[verifier::external_body]
fn unsupported_sequence_error() -> (r: std::io::Error) {
    std::io::Error::new(std::io::ErrorKind::Unsupported, "mouse reports are not decodable yet")
}

/// The decimal digits of `n`, most significant first, with no sign and no
/// leading zero (a lone zero for 0).
pub open spec fn dec_digits(n: int) -> Seq<u8>
    decreases n,
{
    if n < 0 {
        Seq::empty()
    } else if n < 10 {
        seq![(0x30 + n) as u8]
    } else {
        dec_digits(n / 10).push((0x30 + n % 10) as u8)
    }
}

/// Writes the decimal digits of `n` onto the end of `out`, exactly as
/// [`dec_digits`] states.
fn push_decimal(n: u16, out: &mut Vec<u8>)
    ensures
        final(out)@ == old(out)@ + dec_digits(n as int),
    decreases n,
{
    if n < 10 {
        out.push(0x30 + n as u8);
        proof {
            assert(out@ =~= old(out)@ + dec_digits(n as int));
        }
    } else {
        push_decimal(n / 10, out);
        out.push(0x30 + (n % 10) as u8);
        proof {
            assert(out@ =~= old(out)@ + dec_digits(n as int));
        }
    }
}

/// What the decimal digits of a non-negative number denote, and how many
/// of them there are.
pub proof fn lemma_dec_digits_value(n: int)
    requires
        0 <= n,
    ensures
        crate::parse::all_digits(dec_digits(n)),
        crate::parse::digits_val(dec_digits(n)) == n,
        dec_digits(n).len() >= 1,
        n < 10 ==> dec_digits(n).len() == 1,
        n < 100 ==> dec_digits(n).len() <= 2,
        n < 1000 ==> dec_digits(n).len() <= 3,
        n < 10000 ==> dec_digits(n).len() <= 4,
        n < 100000 ==> dec_digits(n).len() <= 5,
    decreases n,
{
    if n < 10 {
        let ds = dec_digits(n);
        assert(crate::parse::digits_val(Seq::<u8>::empty()) == 0);
        assert(ds.drop_last() =~= Seq::<u8>::empty());
        assert(ds.last() == (0x30 + n) as u8);
        assert(crate::parse::digits_val(ds) == crate::parse::digits_val(ds.drop_last()) * 10 + (
        ds.last() - 0x30));
        assert(crate::parse::digits_val(ds) == n);
    } else {
        lemma_dec_digits_value(n / 10);
        vstd::arithmetic::div_mod::lemma_fundamental_div_mod(n, 10);
        vstd::arithmetic::div_mod::lemma_mod_bound(n, 10);
        let head = dec_digits(n / 10);
        let d = (0x30 + n % 10) as u8;
        let ds = dec_digits(n);
        assert(ds == head.push(d));
        assert(ds.drop_last() =~= head);
        assert(crate::parse::digits_val(ds) == n / 10 * 10 + n % 10);
        assert forall|k: int| 0 <= k < ds.len() implies crate::parse::is_ascii_digit(
            #[trigger] ds[k],
        ) by {
            if k < head.len() {
                assert(ds[k] == head[k]);
            } else {
                assert(ds[k] == d);
            }
        }
    }
}

/// The reply a terminal sends to the cursor-position request:
/// `ESC [ {row} ; {column} R`, the one input of the wire table this layer
/// decodes back.
pub open spec fn cursor_report_bytes(row: u16, column: u16) -> Seq<u8> {
    seq![0x1bu8, 0x5bu8] + dec_digits(row as int) + seq![0x3bu8] + dec_digits(column as int)
        + seq![0x52u8]
}

/// Round trip for the cursor-position protocol's reply: decoding exactly
/// the report the terminal sends for a position yields exactly that
/// `Cursor` event, whatever the row and column.
pub proof fn lemma_cursor_report_round_trip(row: u16, column: u16)
    ensures
        decode_all(cursor_report_bytes(row, column), 0) == seq![Event::Cursor(row, column)],
        decode_supported(cursor_report_bytes(row, column), 0),
{
    let dr = dec_digits(row as int);
    let dc = dec_digits(column as int);
    lemma_dec_digits_value(row as int);
    lemma_dec_digits_value(column as int);
    let s = cursor_report_bytes(row, column);
    let a = 2 + dr.len() as int;
    let b = a + 1 + dc.len() as int;
    assert(s.len() == b + 1);
    assert(s[0] == 0x1b);
    assert(s[1] == 0x5b);
    assert forall|m: int| 2 <= m < a implies s[m] == dr[m - 2] by {}
    assert forall|m: int| a + 1 <= m < b implies s[m] == dc[m - a - 1] by {}
    assert(s[a] == 0x3b);
    assert(s[b] == 0x52);
    assert(crate::parse::is_ascii_digit(s[2]));
    crate::parse::lemma_numeric_digits_run(s, 3, a, 4, 1, seq![s[2]], Seq::<u8>::empty());
    assert(seq![s[2]] + s.subrange(3, a) =~= dr);
    let len_a = 4 + (a - 3);
    assert(spec_parse_numerical(s, 3, 4, 1, seq![s[2]], Seq::<u8>::empty())
        == spec_parse_numerical(s, a, len_a, 1, dr, Seq::<u8>::empty()));
    assert(spec_parse_numerical(s, a, len_a, 1, dr, Seq::<u8>::empty())
        == spec_parse_numerical(s, a + 1, len_a + 1, 2, dr, Seq::<u8>::empty()));
    crate::parse::lemma_numeric_digits_run(s, a + 1, b, len_a + 1, 2, dr, Seq::<u8>::empty());
    assert(Seq::<u8>::empty() + s.subrange(a + 1, b) =~= dc);
    let len_b = len_a + 1 + (b - a - 1);
    assert(crate::parse::spec_u16_from_digits(dr) == Some(row));
    assert(crate::parse::spec_u16_from_digits(dc) == Some(column));
    assert(spec_parse_numerical(s, b, len_b, 2, dr, dc) == (
        Event::Cursor(row, column),
        b + 1,
    ));
    assert(spec_parse_numerical(s, 3, 4, 1, seq![s[2]], Seq::<u8>::empty()) == (
        Event::Cursor(row, column),
        b + 1,
    ));
    assert(crate::parse::spec_parse_bracket(s, 2) == (
        Decoded::Token(Event::Cursor(row, column)),
        b + 1,
    ));
    assert(crate::parse::spec_parse_esc(s, 1) == (
        Decoded::Token(Event::Cursor(row, column)),
        b + 1,
    ));
    assert(spec_parse_event(s, 0) == Some((Decoded::Token(Event::Cursor(row, column)), b + 1)));
    assert(decode_all(s, b + 1) =~= Seq::<Event>::empty());
    assert(decode_all(s, 0) == seq![Event::Cursor(row, column)] + decode_all(s, b + 1));
    assert(seq![Event::Cursor(row, column)] + Seq::<Event>::empty() =~= seq![
        Event::Cursor(row, column),
    ]);
    assert(decode_supported(s, b + 1));
}

/// Robustness for the protocol's reply: a cursor report cut off anywhere
/// after its first byte decodes to exactly one
/// `UnrecognizedControlSequence`, consuming the whole remaining input.
pub proof fn lemma_truncated_cursor_report(row: u16, column: u16, k: int)
    requires
        1 <= k < cursor_report_bytes(row, column).len(),
    ensures
        decode_all(cursor_report_bytes(row, column).take(k), 0) == seq![
            Event::UnrecognizedControlSequence,
        ],
{
    let s = cursor_report_bytes(row, column);
    let dr = dec_digits(row as int);
    let dc = dec_digits(column as int);
    lemma_dec_digits_value(row as int);
    lemma_dec_digits_value(column as int);
    let t = s.take(k);
    let a = 2 + dr.len() as int;
    assert(t[0] == 0x1b);
    if k >= 2 {
        assert(t[1] == 0x5b);
    }
    if k >= 3 {
        assert(t[2] == dr[0]);
        assert(crate::parse::is_ascii_digit(t[2]));
    }
    assert forall|j: int| 3 <= j < t.len() implies crate::parse::is_ascii_digit(#[trigger] t[j])
        || t[j] == 0x3b by {
        assert(t[j] == s[j]);
        if j < a {
            assert(s[j] == dr[j - 2]);
        } else if j == a {
            assert(s[j] == 0x3b);
        } else {
            assert(s[j] == dc[j - a - 1]);
        }
    }
    crate::parse::lemma_truncated_csi_unrecognized(t);
}

/// The bytes that enter the alternate screen buffer: `ESC [ ? 1 0 4 9 h`.
pub open spec fn enter_alternate_bytes() -> Seq<u8> {
    seq![0x1bu8, 0x5bu8, 0x3fu8, 0x31u8, 0x30u8, 0x34u8, 0x39u8, 0x68u8]
}

/// The bytes that leave the alternate screen buffer: `ESC [ ? 1 0 4 9 l`.
pub open spec fn leave_alternate_bytes() -> Seq<u8> {
    seq![0x1bu8, 0x5bu8, 0x3fu8, 0x31u8, 0x30u8, 0x34u8, 0x39u8, 0x6cu8]
}

/// The bytes that hide the cursor: `ESC [ ? 2 5 l`.
pub open spec fn hide_cursor_bytes() -> Seq<u8> {
    seq![0x1bu8, 0x5bu8, 0x3fu8, 0x32u8, 0x35u8, 0x6cu8]
}

/// The bytes that show the cursor: `ESC [ ? 2 5 h`.
pub open spec fn show_cursor_bytes() -> Seq<u8> {
    seq![0x1bu8, 0x5bu8, 0x3fu8, 0x32u8, 0x35u8, 0x68u8]
}

/// The bytes that erase the entire screen: `ESC [ 2 J`.
pub open spec fn erase_screen_bytes() -> Seq<u8> {
    seq![0x1bu8, 0x5bu8, 0x32u8, 0x4au8]
}

/// The bytes that request a cursor-position report: `ESC [ 6 n`.
pub open spec fn request_cursor_bytes() -> Seq<u8> {
    seq![0x1bu8, 0x5bu8, 0x36u8, 0x6eu8]
}

/// The bytes that move the cursor to a one-based row and column:
/// `ESC [ {line} ; {column} H`.
pub open spec fn move_cursor_bytes(line: u16, column: u16) -> Seq<u8> {
    seq![0x1bu8, 0x5bu8] + dec_digits(line as int) + seq![0x3bu8] + dec_digits(column as int)
        + seq![0x48u8]
}

/// The bytes that erase the screen and home the cursor:
/// `ESC [ 2 J ESC [ 1 ; 1 H`.
pub open spec fn clear_screen_bytes() -> Seq<u8> {
    erase_screen_bytes() + seq![0x1bu8, 0x5bu8, 0x31u8, 0x3bu8, 0x31u8, 0x48u8]
}

/// Builds the exact escape command that moves the cursor to `line`,
/// `column`, as the wire table states it.
pub fn move_cursor_command(line: u16, column: u16) -> (r: Vec<u8>)
    ensures
        r@ == move_cursor_bytes(line, column),
{
    let mut out: Vec<u8> = Vec::new();
    out.push(0x1b);
    out.push(0x5b);
    push_decimal(line, &mut out);
    out.push(0x3b);
    push_decimal(column, &mut out);
    out.push(0x48);
    proof {
        assert(out@ =~= move_cursor_bytes(line, column));
    }
    out
}

/// Builds the exact escape command that enters the alternate buffer.
pub fn enter_alternate_command() -> (r: Vec<u8>)
    ensures
        r@ == enter_alternate_bytes(),
{
    let out: Vec<u8> = vec![0x1b, 0x5b, 0x3f, 0x31, 0x30, 0x34, 0x39, 0x68];
    proof {
        assert(out@ =~= enter_alternate_bytes());
    }
    out
}

/// Builds the exact escape command that leaves the alternate buffer.
pub fn leave_alternate_command() -> (r: Vec<u8>)
    ensures
        r@ == leave_alternate_bytes(),
{
    let out: Vec<u8> = vec![0x1b, 0x5b, 0x3f, 0x31, 0x30, 0x34, 0x39, 0x6c];
    proof {
        assert(out@ =~= leave_alternate_bytes());
    }
    out
}

/// Builds the exact escape command that hides the cursor.
pub fn hide_cursor_command() -> (r: Vec<u8>)
    ensures
        r@ == hide_cursor_bytes(),
{
    let out: Vec<u8> = vec![0x1b, 0x5b, 0x3f, 0x32, 0x35, 0x6c];
    proof {
        assert(out@ =~= hide_cursor_bytes());
    }
    out
}

/// Builds the exact escape command that shows the cursor.
pub fn show_cursor_command() -> (r: Vec<u8>)
    ensures
        r@ == show_cursor_bytes(),
{
    let out: Vec<u8> = vec![0x1b, 0x5b, 0x3f, 0x32, 0x35, 0x68];
    proof {
        assert(out@ =~= show_cursor_bytes());
    }
    out
}

/// Builds the exact escape command that erases the entire screen.
pub fn erase_screen_command() -> (r: Vec<u8>)
    ensures
        r@ == erase_screen_bytes(),
{
    let out: Vec<u8> = vec![0x1b, 0x5b, 0x32, 0x4a];
    proof {
        assert(out@ =~= erase_screen_bytes());
    }
    out
}

/// Builds the exact escape command that requests a cursor-position report.
pub fn request_cursor_command() -> (r: Vec<u8>)
    ensures
        r@ == request_cursor_bytes(),
{
    let out: Vec<u8> = vec![0x1b, 0x5b, 0x36, 0x6e];
    proof {
        assert(out@ =~= request_cursor_bytes());
    }
    out
}

/// Builds the exact escape command that erases the screen and homes the
/// cursor.
pub fn clear_screen_command() -> (r: Vec<u8>)
    ensures
        r@ == clear_screen_bytes(),
{
    let out: Vec<u8> = vec![0x1b, 0x5b, 0x32, 0x4a, 0x1b, 0x5b, 0x31, 0x3b, 0x31, 0x48];
    proof {
        assert(out@ =~= clear_screen_bytes());
    }
    out
}

/// Writes the enter-alternate-buffer command ([`enter_alternate_bytes`]) to
/// `output`; the caller pairs it with [`leave_alternate_buffer`] and
/// flushes.
pub fn enter_alternate_buffer<Output: std::io::Write>(output: &mut Output) -> Result<
    (),
    std::io::Error,
> {
    let cmd = enter_alternate_command();
    write_all_to(output, &cmd)
}

/// Writes the leave-alternate-buffer command ([`leave_alternate_bytes`]) to
/// `output`.
pub fn leave_alternate_buffer<Output: std::io::Write>(output: &mut Output) -> Result<
    (),
    std::io::Error,
> {
    let cmd = leave_alternate_command();
    write_all_to(output, &cmd)
}

/// Writes the enter-alternate-buffer command to `output`; the stream-based
/// spelling every backend family understands.
pub fn enter_alternate_view<Output: std::io::Write>(output: &mut Output) -> Result<
    (),
    std::io::Error,
> {
    let cmd = enter_alternate_command();
    write_all_to(output, &cmd)
}

/// Writes the move-cursor command ([`move_cursor_bytes`]) for a one-based
/// `line` and `column` to `output`.
pub fn move_cursor<Output: std::io::Write>(
    output: &mut Output,
    line: u16,
    column: u16,
) -> Result<(), std::io::Error> {
    let cmd = move_cursor_command(line, column);
    write_all_to(output, &cmd)
}

/// Writes the hide-cursor command ([`hide_cursor_bytes`]) to `output`.
pub fn hide_cursor<Output: std::io::Write>(output: &mut Output) -> Result<(), std::io::Error> {
    let cmd = hide_cursor_command();
    write_all_to(output, &cmd)
}

/// Writes the show-cursor command ([`show_cursor_bytes`]) to `output`.
pub fn show_cursor<Output: std::io::Write>(output: &mut Output) -> Result<(), std::io::Error> {
    let cmd = show_cursor_command();
    write_all_to(output, &cmd)
}

/// Writes the erase-entire-screen command ([`erase_screen_bytes`]) to
/// `output`.
pub fn erase_entire_screen<Output: std::io::Write>(output: &mut Output) -> Result<
    (),
    std::io::Error,
> {
    let cmd = erase_screen_command();
    write_all_to(output, &cmd)
}

/// Writes the clear-and-home command ([`clear_screen_bytes`]) to `output`.
pub fn clear_screen<Output: std::io::Write>(output: &mut Output) -> Result<(), std::io::Error> {
    let cmd = clear_screen_command();
    write_all_to(output, &cmd)
}

/// Writes the cursor-position request ([`request_cursor_bytes`]) to
/// `output`; the terminal answers on the input stream with
/// `ESC [ {row} ; {column} R`.
pub fn request_cursor_position<Output: std::io::Write>(output: &mut Output) -> Result<
    (),
    std::io::Error,
> {
    let cmd = request_cursor_command();
    write_all_to(output, &cmd)
}

/// The raw OS capabilities one platform backend supplies: terminal-mode
/// toggling, size queries, and the byte-level input primitives the read
/// scheduler drives. Exactly one concrete implementation is expected per
/// target OS, written by the embedding application over its descriptor or
/// handle; nothing here is retried or cached.
pub trait RawOs {
    /// Switches input to character-at-a-time, unechoed delivery, or
    /// surfaces the OS error verbatim; never a silent no-op.
    fn enable_raw_mode(&mut self) -> Result<(), std::io::Error>;

    /// Restores line-buffered, echoed input, or surfaces the OS error
    /// verbatim; never a silent no-op.
    fn disable_raw_mode(&mut self) -> Result<(), std::io::Error>;

    /// Marks the input so reads never block; a no-op where the platform's
    /// input is inherently pollable.
    fn set_non_blocking_read(&mut self) -> Result<(), std::io::Error>;

    /// The terminal size in character cells, rows then columns, queried
    /// fresh from the OS; never a cached or default value.
    fn get_size(&self) -> Result<(u16, u16), std::io::Error>;

    /// How many input bytes are ready to be read right now.
    fn bytes_available(&mut self) -> Result<usize, std::io::Error>;

    /// Reads exactly `n` bytes from the input.
    fn read_bytes(&mut self, n: usize) -> Result<Vec<u8>, std::io::Error>;

    /// Reads one byte, blocking until it arrives; `None` at end of input.
    fn read_one(&mut self) -> Result<Option<u8>, std::io::Error>;

    /// Waits up to `timeout_ms` for input to become readable; true when it
    /// did.
    fn poll_read_ready(&mut self, timeout_ms: u32) -> Result<bool, std::io::Error>;

    /// Milliseconds on the backend's monotonic clock, for deadline
    /// bookkeeping.
    fn elapsed_ms(&mut self) -> u64;
}

/// Enables raw mode on the platform backend. This disables automatic input
/// to output echoing and line buffering.
pub fn enable_raw_mode<Input: RawOs>(input: &mut Input) -> Result<(), std::io::Error> {
    input.enable_raw_mode()
}

/// Disables raw mode on the platform backend. This restores automatic
/// input to output echoing and line buffering.
pub fn disable_raw_mode<Input: RawOs>(input: &mut Input) -> Result<(), std::io::Error> {
    input.disable_raw_mode()
}

/// Marks the input non-blocking on backends that need it; the descriptor's
/// status flags gain the non-blocking bit and keep the rest.
pub fn set_non_blocking_read<Input: RawOs>(input: &mut Input) -> Result<(), std::io::Error> {
    input.set_non_blocking_read()
}

/// The terminal size in rows and columns, queried fresh on every call
/// because terminals resize asynchronously.
pub fn get_size<Input: RawOs>(input: &Input) -> Result<(u16, u16), std::io::Error> {
    input.get_size()
}

/// Non-blocking drain: reads exactly the bytes available at this moment
/// (zero is valid) and decodes them into a batch. Whatever arrived, the
/// batch is the full decode of exactly those bytes, in arrival order; it
/// never holds an `OutOfRange` event. A mouse report in the stream comes
/// back as the explicit unsupported error, and an OS failure verbatim.
pub fn read_batch<Input: RawOs>(input: &mut Input) -> (r: Result<EventBatch, std::io::Error>)
    ensures
        r matches Ok(batch) ==> exists|s: Seq<u8>|
            decode_supported(s, 0) && batch@ == decode_all(s, 0),
        r matches Ok(batch) ==> forall|k: int|
            0 <= k < batch@.len() ==> #[trigger] batch@[k] != Event::OutOfRange,
{
    let n = match input.bytes_available() {
        Ok(n) => n,
        Err(e) => {
            return Err(e);
        },
    };
    let buf = match input.read_bytes(n) {
        Ok(b) => b,
        Err(e) => {
            return Err(e);
        },
    };
    proof {
        lemma_decode_no_out_of_range(buf@, 0);
    }
    match parse_batch(buf) {
        Ok(batch) => Ok(batch),
        Err(_) => Err(unsupported_sequence_error()),
    }
}

/// Bounded blocking drain: waits up to `timeout` milliseconds for input;
/// nothing ready yields an empty batch, otherwise this is the same drain
/// and decode as [`read_batch`], with the same guarantees on the result.
pub fn read_batch_blocking<Input: RawOs>(input: &mut Input, timeout: u32) -> (r: Result<
    EventBatch,
    std::io::Error,
>)
    ensures
        r matches Ok(batch) ==> exists|s: Seq<u8>|
            decode_supported(s, 0) && batch@ == decode_all(s, 0),
        r matches Ok(batch) ==> forall|k: int|
            0 <= k < batch@.len() ==> #[trigger] batch@[k] != Event::OutOfRange,
{
    let ready = match input.poll_read_ready(timeout) {
        Ok(ready) => ready,
        Err(e) => {
            return Err(e);
        },
    };
    if !ready {
        proof {
            lemma_empty_decode();
        }
        return Ok(EventBatch::empty());
    }
    read_batch(input)
}

/// The first cursor report in `events`, scanned front to back; `None` when
/// there is none.
pub open spec fn spec_first_cursor(events: Seq<Event>) -> Option<(u16, u16)>
    decreases events.len(),
{
    if events.len() == 0 {
        None
    } else {
        match events[0] {
            Event::Cursor(row, col) => Some((row, col)),
            _ => spec_first_cursor(events.drop_first()),
        }
    }
}

/// A first cursor report is in particular a cursor report the sequence
/// contains.
pub proof fn lemma_first_cursor_contained(events: Seq<Event>)
    requires
        spec_first_cursor(events) is Some,
    ensures
        events.contains(
            Event::Cursor(
                spec_first_cursor(events).unwrap().0,
                spec_first_cursor(events).unwrap().1,
            ),
        ),
    decreases events.len(),
{
    if events.len() > 0 {
        if events[0] is Cursor {
        } else {
            lemma_first_cursor_contained(events.drop_first());
            let (row, col) = spec_first_cursor(events).unwrap();
            let j = choose|j: int|
                0 <= j < events.drop_first().len() && events.drop_first()[j] == Event::Cursor(
                    row,
                    col,
                );
            assert(events[j + 1] == Event::Cursor(row, col));
        }
    }
}

/// Scans a batch in arrival order for its first cursor report, exactly as
/// [`spec_first_cursor`] states; interleaved key events are passed over.
pub fn find_cursor(batch: &EventBatch) -> (r: Option<(u16, u16)>)
    ensures
        r == spec_first_cursor(batch@),
{
    let n = batch.len();
    let mut i: usize = 0;
    proof {
        assert(batch@.skip(0) =~= batch@);
    }
    while i < n
        invariant
            i <= n == batch@.len(),
            spec_first_cursor(batch@) == spec_first_cursor(batch@.skip(i as int)),
        decreases n - i,
    {
        proof {
            assert(batch@.skip(i as int).len() > 0);
            assert(batch@.skip(i as int)[0] == batch@[i as int]);
            assert(batch@.skip(i as int).drop_first() =~= batch@.skip(i as int + 1));
        }
        match batch.get(i) {
            Event::Cursor(row, col) => {
                return Some((row, col));
            },
            _ => {},
        }
        i += 1;
    }
    proof {
        assert(batch@.skip(i as int).len() == 0);
    }
    None
}

/// Single-event read: pulls bytes from the backend one at a time, exactly
/// as the escape state machine asks for them, and decodes one event;
/// `Ok(None)` when the input ends before the first byte. Any event
/// returned is one the decoder produces as the first token of some byte
/// sequence. This call can block indefinitely on a quiet blocking input
/// and makes one read call per byte; the batch reads are preferred.
pub fn read_single<Input: RawOs>(input: &mut Input) -> (r: Result<Option<Event>, std::io::Error>)
    ensures
        r matches Ok(Some(ev)) ==> exists|s: Seq<u8>, j: int|
            spec_parse_event(s, 0) == Some((Decoded::Token(ev), j)),
{
    let b0 = match input.read_one() {
        Ok(Some(b)) => b,
        Ok(None) => {
            return Ok(None);
        },
        Err(e) => {
            return Err(e);
        },
    };
    let mut buf: Vec<u8> = Vec::new();
    buf.push(b0);
    if b0 == 0x1b {
        match input.read_one() {
            Err(e) => {
                return Err(e);
            },
            Ok(None) => {},
            Ok(Some(b1)) => {
                buf.push(b1);
                if b1 == 0x5b {
                    match input.read_one() {
                        Err(e) => {
                            return Err(e);
                        },
                        Ok(None) => {},
                        Ok(Some(b2)) => {
                            buf.push(b2);
                            if 0x30 <= b2 && b2 <= 0x39 {
                                let mut len: u8 = 4;
                                loop
                                    invariant
                                        4 <= len <= NUMERIC_SCAN_CAP,
                                        buf@.len() >= 1,
                                    decreases NUMERIC_SCAN_CAP - len,
                                {
                                    if len + 1 > NUMERIC_SCAN_CAP {
                                        break;
                                    }
                                    len = len + 1;
                                    match input.read_one() {
                                        Err(e) => {
                                            return Err(e);
                                        },
                                        Ok(None) => {
                                            break;
                                        },
                                        Ok(Some(b)) => {
                                            buf.push(b);
                                            let more = (0x30 <= b && b <= 0x39) || b == 0x3b;
                                            if !more {
                                                break;
                                            }
                                        },
                                    }
                                }
                            }
                        },
                    }
                } else if b1 == 0x4f {
                    match input.read_one() {
                        Err(e) => {
                            return Err(e);
                        },
                        Ok(None) => {},
                        Ok(Some(b2)) => {
                            buf.push(b2);
                        },
                    }
                }
            },
        }
    }
    let (t, _used) = parse_event(&buf, 0);
    proof {
        assert(buf@.len() >= 1);
        assert(spec_parse_event(buf@, 0) is Some);
    }
    match t {
        Some(Decoded::Token(ev)) => {
            proof {
                let j = spec_parse_event(buf@, 0).unwrap().1;
                assert(spec_parse_event(buf@, 0) == Some((Decoded::Token(ev), j)));
            }
            Ok(Some(ev))
        },
        Some(Decoded::Unsupported) => Err(unsupported_sequence_error()),
        None => vstd::pervasive::unreached(),
    }
}

/// The cursor-position query protocol: writes the position request, flushes,
/// and drains batches under a one-second budget until a cursor report
/// surfaces. Interleaved key events from concurrent typing are discarded,
/// so the query makes progress under live keyboard activity. A terminal
/// that never answers yields `Ok(None)` when the budget runs out — an
/// expected outcome, not an error. Any position returned was decoded as a
/// cursor report from bytes the terminal sent. The wait budget shrinks by
/// at least one millisecond per drain, so the scan ends even against a
/// clock that reports no progress.
pub fn get_cursor_position<Output: std::io::Write, Input: RawOs>(
    output: &mut Output,
    input: &mut Input,
) -> (r: Result<Option<(u16, u16)>, std::io::Error>)
    ensures
        r matches Ok(Some((row, col))) ==> exists|s: Seq<u8>|
            decode_supported(s, 0) && decode_all(s, 0).contains(Event::Cursor(row, col)),
{
    let cmd = request_cursor_command();
    match write_all_to(output, &cmd) {
        Ok(()) => {},
        Err(e) => {
            return Err(e);
        },
    }
    match flush_to(output) {
        Ok(()) => {},
        Err(e) => {
            return Err(e);
        },
    }
    let start = input.elapsed_ms();
    let mut remaining: u32 = 1000;
    loop
        invariant
            1 <= remaining <= 1000,
        decreases remaining,
    {
        let batch = match read_batch_blocking(input, remaining) {
            Ok(batch) => batch,
            Err(e) => {
                return Err(e);
            },
        };
        match find_cursor(&batch) {
            Some((row, col)) => {
                proof {
                    lemma_first_cursor_contained(batch@);
                }
                return Ok(Some((row, col)));
            },
            None => {},
        }
        let now = input.elapsed_ms();
        let passed: u64 = if now >= start {
            now - start
        } else {
            0
        };
        let fresh: u32 = if passed >= 1000 {
            0
        } else {
            (1000 - passed) as u32
        };
        let capped = remaining - 1;
        remaining = if fresh < capped {
            fresh
        } else {
            capped
        };
        if remaining == 0 {
            return Ok(None);
        }
    }
}

} // verus!
