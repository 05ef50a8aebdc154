//! Structured input events decoded from a terminal's byte stream, and the
//! ordered batch a single read produces.

use vstd::prelude::*;

verus! {

/// A set of modifier keys held together with a key press.
///
/// The set is a bit-set: members combine with [`KeyModifiers::union`], and
/// [`KeyModifiers::empty`] is the set with no modifier held.
#[derive(Debug, PartialEq, Eq, Clone, Copy, Hash, Structural)]
pub struct KeyModifiers {
    pub bits: u8,
}

impl KeyModifiers {
    /// The empty modifier set: no modifier key held.
    pub fn empty() -> (r: Self)
        ensures
            r.bits == 0,
    {
        KeyModifiers { bits: 0 }
    }

    /// The set holding only Shift.
    pub fn shift() -> (r: Self)
        ensures
            r.bits == 0x01,
    {
        KeyModifiers { bits: 0x01 }
    }

    /// The set holding only Control.
    pub fn control() -> (r: Self)
        ensures
            r.bits == 0x02,
    {
        KeyModifiers { bits: 0x02 }
    }

    /// The set holding only Alt.
    pub fn alt() -> (r: Self)
        ensures
            r.bits == 0x04,
    {
        KeyModifiers { bits: 0x04 }
    }

    /// The set holding only Super.
    pub fn super_key() -> (r: Self)
        ensures
            r.bits == 0x08,
    {
        KeyModifiers { bits: 0x08 }
    }

    /// The set holding only Hyper.
    pub fn hyper() -> (r: Self)
        ensures
            r.bits == 0x10,
    {
        KeyModifiers { bits: 0x10 }
    }

    /// The set holding only Meta.
    pub fn meta() -> (r: Self)
        ensures
            r.bits == 0x20,
    {
        KeyModifiers { bits: 0x20 }
    }

    /// Combines two modifier sets.
    pub fn union(self, other: Self) -> (r: Self)
        ensures
            r.bits == self.bits | other.bits,
    {
        KeyModifiers { bits: self.bits | other.bits }
    }

    /// True when no modifier key is in the set.
    pub fn is_empty(self) -> (r: bool)
        ensures
            r == (self.bits == 0),
    {
        self.bits == 0
    }

    /// True when every member of `other` is also in `self`.
    pub fn contains(self, other: Self) -> (r: bool)
        ensures
            r == (self.bits & other.bits == other.bits),
    {
        self.bits & other.bits == other.bits
    }
}

/// A key on the keyboard, as reported by the terminal.
#[derive(Debug, PartialEq, Eq, Clone, Copy, Hash, Structural)]
pub enum KeyCode {
    /// A printable character.
    Char(char),
    Backspace,
    BackTab,
    Tab,
    Enter,
    Shift,
    Control,
    Alt,
    CapsLock,
    Escape,
    End,
    Home,
    LeftArrow,
    RightArrow,
    UpArrow,
    DownArrow,
    /// Function key with the given one-based index.
    F(u8),
}

/// A key press together with the modifier set held with it.
#[derive(Debug, PartialEq, Eq, Clone, Copy, Hash, Structural)]
pub struct KeyEvent {
    pub code: KeyCode,
    pub modifiers: KeyModifiers,
}

/// One structured input read from the terminal.
#[derive(Debug, PartialEq, Eq, Clone, Copy, Structural)]
pub enum Event {
    /// A key press.
    Key(KeyEvent),
    /// The terminal window gained focus.
    FocusGained,
    /// The terminal window lost focus.
    FocusLost,
    /// A cursor-position report: one-based row and column.
    Cursor(u16, u16),
    /// A well-formed control sequence whose terminator this layer does not
    /// understand. This is data, not an error.
    UnrecognizedControlSequence,
    /// A report outside the representable range.
    OutOfRange,
}

/// The key event a bare key code stands for: that code with no modifier held.
pub open spec fn plain_key(code: KeyCode) -> Event {
    Event::Key(KeyEvent { code, modifiers: KeyModifiers { bits: 0 } })
}

impl From<KeyCode> for Event {
    /// Wraps a bare key code as a key event with no modifiers.
    fn from(value: KeyCode) -> (r: Self) {
        Event::Key(KeyEvent { code: value, modifiers: KeyModifiers::empty() })
    }
}

impl vstd::std_specs::convert::FromSpecImpl<KeyCode> for Event {
    open spec fn obeys_from_spec() -> bool {
        true
    }

    open spec fn from_spec(value: KeyCode) -> Event {
        plain_key(value)
    }
}

/// True when `events` holds, at any position, a key event whose code is
/// `target`, whatever modifiers it carries.
pub open spec fn spec_pressed(events: Seq<Event>, target: KeyCode) -> bool {
    exists|i: int|
        0 <= i < events.len() && (#[trigger] events[i] matches Event::Key(ke) && ke.code == target)
}

/// The ordered events one read of the terminal produced, in arrival order.
#[derive(Debug, Clone)]
pub struct EventBatch {
    internal: Vec<Event>,
}

impl View for EventBatch {
    type V = Seq<Event>;

    closed spec fn view(&self) -> Seq<Event> {
        self.internal@
    }
}

impl EventBatch {
    /// Wraps an already-ordered event list as a batch, keeping its order.
    pub fn from_events(events: Vec<Event>) -> (r: Self)
        ensures
            r@ == events@,
    {
        EventBatch { internal: events }
    }

    /// The batch with no events.
    pub fn empty() -> (r: Self)
        ensures
            r@ == Seq::<Event>::empty(),
    {
        EventBatch { internal: Vec::new() }
    }

    /// Number of events in the batch.
    pub fn len(&self) -> (r: usize)
        ensures
            r == self@.len(),
    {
        self.internal.len()
    }

    /// The event at `idx`, in arrival order.
    pub fn get(&self, idx: usize) -> (r: Event)
        requires
            idx < self@.len(),
        ensures
            r == self@[idx as int],
    {
        self.internal[idx]
    }

    /// True exactly when some key event in the batch carries `target`,
    /// whatever its modifiers and whatever else the batch holds.
    pub fn pressed(&self, target: KeyCode) -> (r: bool)
        ensures
            r == spec_pressed(self@, target),
    {
        let mut i: usize = 0;
        while i < self.internal.len()
            invariant
                i <= self.internal.len(),
                !spec_pressed(self@.take(i as int), target),
            decreases self.internal.len() - i,
        {
            let hit = match self.internal[i] {
                Event::Key(ke) => ke.code == target,
                _ => false,
            };
            if hit {
                assert(self@.take(i as int + 1)[i as int] matches Event::Key(ke) && ke.code
                    == target);
                assert(spec_pressed(self@, target));
                return true;
            }
            proof {
                assert forall|j: int| 0 <= j < i as int + 1 implies !(#[trigger] self@.take(
                    i as int + 1,
                )[j] matches Event::Key(ke) && ke.code == target) by {
                    if j < i as int {
                        assert(self@.take(i as int)[j] == self@.take(i as int + 1)[j]);
                    }
                }
            }
            i += 1;
        }
        proof {
            assert(self@.take(i as int) =~= self@);
        }
        false
    }

    /// A non-consuming iterator over the batch, in arrival order.
    pub fn iter<'a>(&'a self) -> (r: EventBatchIter<'a>)
        ensures
            r.internal@ == self@,
            r.idx == 0,
    {
        EventBatchIter::new(&self.internal)
    }

    /// Gives up the batch and hands back its events, in arrival order.
    pub fn into_events(self) -> (r: Vec<Event>)
        ensures
            r@ == self@,
    {
        self.internal
    }
}

impl From<Vec<Event>> for EventBatch {
    /// Wraps an already-ordered event list as a batch.
    fn from(internal: Vec<Event>) -> (r: Self) {
        EventBatch { internal }
    }
}

impl vstd::std_specs::convert::FromSpecImpl<Vec<Event>> for EventBatch {
    closed spec fn obeys_from_spec() -> bool {
        true
    }

    closed spec fn from_spec(internal: Vec<Event>) -> EventBatch {
        EventBatch { internal }
    }
}

/// A position in a borrowed batch, walked front to back without reordering.
pub struct EventBatchIter<'a> {
    pub internal: &'a Vec<Event>,
    pub idx: usize,
}

impl<'a> EventBatchIter<'a> {
    /// Starts an iterator at the front of `internal`.
    pub fn new(internal: &'a Vec<Event>) -> (r: Self)
        ensures
            r.internal@ == internal@,
            r.idx == 0,
    {
        EventBatchIter { internal, idx: 0 }
    }

    /// The next event in arrival order, or `None` past the end.
    pub fn next(&mut self) -> (r: Option<&'a Event>)
        ensures
            final(self).internal@ == old(self).internal@,
            old(self).idx < old(self).internal@.len() ==> {
                &&& final(self).idx == old(self).idx + 1
                &&& r matches Some(ev) && *ev == old(self).internal@[old(self).idx as int]
            },
            old(self).idx >= old(self).internal@.len() ==> {
                &&& final(self).idx == old(self).idx
                &&& r is None
            },
    {
        if self.idx < self.internal.len() {
            let item = &self.internal[self.idx];
            self.idx += 1;
            Some(item)
        } else {
            None
        }
    }
}

impl Event {
    /// True exactly when this event is a key press of `key_code`, whatever
    /// modifiers it carries.
    pub fn pressed(&self, key_code: KeyCode) -> (r: bool)
        ensures
            r == (self matches Event::Key(ke) && ke.code == key_code),
    {
        match self {
            Event::Key(ke) => ke.code == key_code,
            _ => false,
        }
    }

    /// True exactly when this event is a key press equal to `key_event`,
    /// modifiers included.
    pub fn pressed_modified(&self, key_event: KeyEvent) -> (r: bool)
        ensures
            r == (self matches Event::Key(ke) && ke == key_event),
    {
        match self {
            Event::Key(ke) => *ke == key_event,
            _ => false,
        }
    }
}

} // verus!
