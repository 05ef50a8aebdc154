use std::io::{Error, ErrorKind};
use termip::events::{Event, KeyCode, KeyEvent, KeyModifiers};
use termip::terminal::{
    clear_screen, clear_screen_command, disable_raw_mode, enable_raw_mode, enter_alternate_buffer,
    enter_alternate_command, enter_alternate_view, erase_entire_screen, erase_screen_command,
    find_cursor, get_cursor_position, get_size, hide_cursor, hide_cursor_command,
    leave_alternate_buffer, leave_alternate_command, move_cursor, move_cursor_command, read_batch,
    read_batch_blocking, read_single, request_cursor_command, request_cursor_position,
    set_non_blocking_read, show_cursor, show_cursor_command, RawOs,
};
use termip::parse::parse_batch;

/// A scripted stand-in for one platform backend: polls, byte drains, a
/// byte-at-a-time feed and a clock all come from fixed scripts.
struct MockTerm {
    polls: Vec<bool>,
    poll_idx: usize,
    poll_timeouts: Vec<u32>,
    pending: Vec<u8>,
    feed: Vec<u8>,
    feed_idx: usize,
    times: Vec<u64>,
    time_idx: usize,
    calls: Vec<&'static str>,
    fail_mode_calls: bool,
}

impl MockTerm {
    fn new() -> Self {
        MockTerm {
            polls: Vec::new(),
            poll_idx: 0,
            poll_timeouts: Vec::new(),
            pending: Vec::new(),
            feed: Vec::new(),
            feed_idx: 0,
            times: Vec::new(),
            time_idx: 0,
            calls: Vec::new(),
            fail_mode_calls: false,
        }
    }
}

impl RawOs for MockTerm {
    fn enable_raw_mode(&mut self) -> Result<(), Error> {
        self.calls.push("enable_raw_mode");
        if self.fail_mode_calls {
            Err(Error::new(ErrorKind::PermissionDenied, "scripted failure"))
        } else {
            Ok(())
        }
    }

    fn disable_raw_mode(&mut self) -> Result<(), Error> {
        self.calls.push("disable_raw_mode");
        if self.fail_mode_calls {
            Err(Error::new(ErrorKind::PermissionDenied, "scripted failure"))
        } else {
            Ok(())
        }
    }

    fn set_non_blocking_read(&mut self) -> Result<(), Error> {
        self.calls.push("set_non_blocking_read");
        Ok(())
    }

    fn get_size(&self) -> Result<(u16, u16), Error> {
        Ok((24, 80))
    }

    fn bytes_available(&mut self) -> Result<usize, Error> {
        self.calls.push("bytes_available");
        Ok(self.pending.len())
    }

    fn read_bytes(&mut self, n: usize) -> Result<Vec<u8>, Error> {
        self.calls.push("read_bytes");
        let taken: Vec<u8> = self.pending.drain(..n).collect();
        Ok(taken)
    }

    fn read_one(&mut self) -> Result<Option<u8>, Error> {
        if self.feed_idx < self.feed.len() {
            let b = self.feed[self.feed_idx];
            self.feed_idx += 1;
            Ok(Some(b))
        } else {
            Ok(None)
        }
    }

    fn poll_read_ready(&mut self, timeout_ms: u32) -> Result<bool, Error> {
        self.poll_timeouts.push(timeout_ms);
        let ready = if self.poll_idx < self.polls.len() {
            self.polls[self.poll_idx]
        } else {
            false
        };
        self.poll_idx += 1;
        Ok(ready)
    }

    fn elapsed_ms(&mut self) -> u64 {
        let t = if self.time_idx < self.times.len() {
            self.times[self.time_idx]
        } else if self.times.is_empty() {
            0
        } else {
            self.times[self.times.len() - 1]
        };
        self.time_idx += 1;
        t
    }
}

#[test]
fn cursor_query_answered_on_first_poll() {
    let mut term = MockTerm::new();
    term.polls = vec![true];
    term.pending = b"\x1b[12;34R".to_vec();
    term.times = vec![0, 5];
    let mut out: Vec<u8> = Vec::new();
    let position = get_cursor_position(&mut out, &mut term).expect("no OS failure scripted");
    assert_eq!(position, Some((12, 34)));
    assert_eq!(out, b"\x1b[6n".to_vec());
    assert_eq!(term.poll_timeouts, vec![1000]);
}

#[test]
fn cursor_query_discards_interleaved_keys() {
    let mut term = MockTerm::new();
    term.polls = vec![true];
    term.pending = b"ab\x1b[A\x1b[7;9Rc".to_vec();
    term.times = vec![0, 5];
    let mut out: Vec<u8> = Vec::new();
    let position = get_cursor_position(&mut out, &mut term).expect("no OS failure scripted");
    assert_eq!(position, Some((7, 9)));
}

#[test]
fn cursor_query_times_out_against_a_silent_terminal() {
    let mut term = MockTerm::new();
    term.times = vec![0, 300, 650, 1200];
    let mut out: Vec<u8> = Vec::new();
    let position = get_cursor_position(&mut out, &mut term).expect("no OS failure scripted");
    assert_eq!(position, None);
    // The budget shrinks across polls and never restarts: the query is not
    // instant, and it stops once the 1000 ms budget is gone.
    assert_eq!(term.poll_timeouts, vec![1000, 700, 350]);
    assert_eq!(out, b"\x1b[6n".to_vec());
}

#[test]
fn cursor_query_ends_even_if_the_clock_stands_still() {
    let mut term = MockTerm::new();
    term.times = vec![0];
    let mut out: Vec<u8> = Vec::new();
    let position = get_cursor_position(&mut out, &mut term).expect("no OS failure scripted");
    assert_eq!(position, None);
    assert!(term.poll_timeouts.len() <= 1000);
}

#[test]
fn find_cursor_takes_the_first_report() {
    let batch = parse_batch(b"\x1b[1;2R\x1b[3;4R".to_vec()).expect("supported input");
    assert_eq!(find_cursor(&batch), Some((1, 2)));
    let none = parse_batch(b"abc".to_vec()).expect("supported input");
    assert_eq!(find_cursor(&none), None);
}

#[test]
fn read_batch_drains_what_is_available() {
    let mut term = MockTerm::new();
    term.pending = b"a\x1b[A".to_vec();
    let batch = read_batch(&mut term).expect("no OS failure scripted");
    let events = batch.into_events();
    assert_eq!(
        events,
        vec![
            Event::Key(KeyEvent { code: KeyCode::Char('a'), modifiers: KeyModifiers::empty() }),
            Event::Key(KeyEvent { code: KeyCode::UpArrow, modifiers: KeyModifiers::empty() }),
        ]
    );
}

#[test]
fn read_batch_on_a_quiet_terminal_is_empty() {
    let mut term = MockTerm::new();
    let batch = read_batch(&mut term).expect("no OS failure scripted");
    assert_eq!(batch.len(), 0);
}

#[test]
fn read_batch_surfaces_mouse_reports_as_unsupported() {
    let mut term = MockTerm::new();
    term.pending = b"\x1b[M".to_vec();
    let err = read_batch(&mut term).expect_err("mouse reports are not decodable");
    assert_eq!(err.kind(), ErrorKind::Unsupported);
}

#[test]
fn read_batch_blocking_timeout_yields_empty_batch() {
    let mut term = MockTerm::new();
    term.polls = vec![false];
    term.pending = b"abc".to_vec();
    let batch = read_batch_blocking(&mut term, 50).expect("no OS failure scripted");
    assert_eq!(batch.len(), 0);
    // Nothing was ready, so nothing may have been drained.
    assert!(!term.calls.contains(&"read_bytes"));
    assert_eq!(term.poll_timeouts, vec![50]);
}

#[test]
fn read_batch_blocking_drains_once_ready() {
    let mut term = MockTerm::new();
    term.polls = vec![true];
    term.pending = b"\x1b[B".to_vec();
    let batch = read_batch_blocking(&mut term, 50).expect("no OS failure scripted");
    let events = batch.into_events();
    assert_eq!(
        events,
        vec![Event::Key(KeyEvent { code: KeyCode::DownArrow, modifiers: KeyModifiers::empty() })]
    );
}

#[test]
fn read_single_decodes_one_character() {
    let mut term = MockTerm::new();
    term.feed = b"qrs".to_vec();
    let ev = read_single(&mut term).expect("no OS failure scripted");
    assert_eq!(
        ev,
        Some(Event::Key(KeyEvent { code: KeyCode::Char('q'), modifiers: KeyModifiers::empty() }))
    );
    // Exactly one byte was taken from the stream.
    assert_eq!(term.feed_idx, 1);
}

#[test]
fn read_single_decodes_a_full_cursor_report() {
    let mut term = MockTerm::new();
    term.feed = b"\x1b[12;3R".to_vec();
    let ev = read_single(&mut term).expect("no OS failure scripted");
    assert_eq!(ev, Some(Event::Cursor(12, 3)));
}

#[test]
fn read_single_decodes_an_arrow_key() {
    let mut term = MockTerm::new();
    term.feed = b"\x1b[A".to_vec();
    let ev = read_single(&mut term).expect("no OS failure scripted");
    assert_eq!(
        ev,
        Some(Event::Key(KeyEvent { code: KeyCode::UpArrow, modifiers: KeyModifiers::empty() }))
    );
}

#[test]
fn read_single_on_exhausted_input_is_none() {
    let mut term = MockTerm::new();
    let ev = read_single(&mut term).expect("no OS failure scripted");
    assert_eq!(ev, None);
}

#[test]
fn read_single_truncated_escape_is_unrecognized() {
    let mut term = MockTerm::new();
    term.feed = b"\x1b".to_vec();
    let ev = read_single(&mut term).expect("no OS failure scripted");
    assert_eq!(ev, Some(Event::UnrecognizedControlSequence));
}

#[test]
fn read_single_mouse_report_is_unsupported() {
    let mut term = MockTerm::new();
    term.feed = b"\x1b[M".to_vec();
    let err = read_single(&mut term).expect_err("mouse reports are not decodable");
    assert_eq!(err.kind(), ErrorKind::Unsupported);
}

#[test]
fn raw_mode_calls_reach_the_backend() {
    let mut term = MockTerm::new();
    enable_raw_mode(&mut term).expect("scripted success");
    disable_raw_mode(&mut term).expect("scripted success");
    set_non_blocking_read(&mut term).expect("scripted success");
    assert_eq!(term.calls, vec!["enable_raw_mode", "disable_raw_mode", "set_non_blocking_read"]);
}

#[test]
fn raw_mode_failure_is_surfaced_verbatim() {
    let mut term = MockTerm::new();
    term.fail_mode_calls = true;
    let err = enable_raw_mode(&mut term).expect_err("scripted failure");
    assert_eq!(err.kind(), ErrorKind::PermissionDenied);
    let err = disable_raw_mode(&mut term).expect_err("scripted failure");
    assert_eq!(err.kind(), ErrorKind::PermissionDenied);
}

#[test]
fn get_size_reports_the_backend_size() {
    let term = MockTerm::new();
    assert_eq!(get_size(&term).expect("scripted success"), (24, 80));
}

#[test]
fn command_builders_emit_the_wire_bytes() {
    assert_eq!(enter_alternate_command(), b"\x1b[?1049h".to_vec());
    assert_eq!(leave_alternate_command(), b"\x1b[?1049l".to_vec());
    assert_eq!(hide_cursor_command(), b"\x1b[?25l".to_vec());
    assert_eq!(show_cursor_command(), b"\x1b[?25h".to_vec());
    assert_eq!(erase_screen_command(), b"\x1b[2J".to_vec());
    assert_eq!(request_cursor_command(), b"\x1b[6n".to_vec());
    assert_eq!(clear_screen_command(), b"\x1b[2J\x1b[1;1H".to_vec());
    assert_eq!(move_cursor_command(3, 7), b"\x1b[3;7H".to_vec());
    assert_eq!(move_cursor_command(0, 0), b"\x1b[0;0H".to_vec());
    assert_eq!(move_cursor_command(65535, 100), b"\x1b[65535;100H".to_vec());
    assert_eq!(move_cursor_command(12, 10), b"\x1b[12;10H".to_vec());
}

#[test]
fn command_writers_emit_to_the_sink_without_flushing() {
    let mut out: Vec<u8> = Vec::new();
    enter_alternate_buffer(&mut out).expect("a vec sink never fails");
    leave_alternate_buffer(&mut out).expect("a vec sink never fails");
    enter_alternate_view(&mut out).expect("a vec sink never fails");
    move_cursor(&mut out, 5, 9).expect("a vec sink never fails");
    hide_cursor(&mut out).expect("a vec sink never fails");
    show_cursor(&mut out).expect("a vec sink never fails");
    erase_entire_screen(&mut out).expect("a vec sink never fails");
    clear_screen(&mut out).expect("a vec sink never fails");
    request_cursor_position(&mut out).expect("a vec sink never fails");
    let expected: Vec<u8> = [
        b"\x1b[?1049h".as_slice(),
        b"\x1b[?1049l",
        b"\x1b[?1049h",
        b"\x1b[5;9H",
        b"\x1b[?25l",
        b"\x1b[?25h",
        b"\x1b[2J",
        b"\x1b[2J\x1b[1;1H",
        b"\x1b[6n",
    ]
    .concat();
    assert_eq!(out, expected);
}
