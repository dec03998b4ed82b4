//! Events, their bitmasks, and the registry of callbacks.

use crate::base::Handle;
use crate::error::{unix_error, Error};
use crate::cstring::c_str;
use crate::utils::char_ptr_to_string;
use vstd::prelude::*;
use vstd::utf8::*;

verus! {

/// The kinds of event that the native library reports.
#[derive(Debug, Clone, Copy, PartialEq, Eq, Structural, Hash)]
pub enum Event {
    Close,
    SubprocessQuit,
    LaunchDone,
    Progress,
    Appliance,
    Library,
    Trace,
    Enter,
    LibvirtAuth,
    Warning,
}

/// Every kind of event.
pub const EVENT_ALL: [Event; 10] = [
    Event::Close,
    Event::SubprocessQuit,
    Event::LaunchDone,
    Event::Progress,
    Event::Appliance,
    Event::Library,
    Event::Trace,
    Event::Enter,
    Event::LibvirtAuth,
    Event::Warning,
];

impl Event {
    /// The place of the event's bit in a bitmask, counted from the
    /// lowest bit.
    pub open spec fn index(self) -> u64 {
        match self {
            Event::Close => 0,
            Event::SubprocessQuit => 1,
            Event::LaunchDone => 2,
            Event::Progress => 3,
            Event::Appliance => 4,
            Event::Library => 5,
            Event::Trace => 6,
            Event::Enter => 7,
            Event::LibvirtAuth => 8,
            Event::Warning => 9,
        }
    }

    /// The bitmask that holds this event alone.
    pub open spec fn bit(self) -> u64 {
        match self {
            Event::Close => 0x0001,
            Event::SubprocessQuit => 0x0002,
            Event::LaunchDone => 0x0004,
            Event::Progress => 0x0008,
            Event::Appliance => 0x0010,
            Event::Library => 0x0020,
            Event::Trace => 0x0040,
            Event::Enter => 0x0080,
            Event::LibvirtAuth => 0x0100,
            Event::Warning => 0x0200,
        }
    }

    pub fn to_u64(&self) -> (r: u64)
        ensures
            r == self.bit(),
    {
        match self {
            Event::Close => 0x0001,
            Event::SubprocessQuit => 0x0002,
            Event::LaunchDone => 0x0004,
            Event::Progress => 0x0008,
            Event::Appliance => 0x0010,
            Event::Library => 0x0020,
            Event::Trace => 0x0040,
            Event::Enter => 0x0080,
            Event::LibvirtAuth => 0x0100,
            Event::Warning => 0x0200,
        }
    }

    /// The event whose bit alone makes up `bitmask`, if there is one.
    pub fn from_bitmask(bitmask: u64) -> (r: Option<Event>)
        ensures
            match r {
                Some(e) => e.bit() == bitmask,
                None => forall|e: Event| e.bit() != bitmask,
            },
    {
        match bitmask {
            0x0001 => Some(Event::Close),
            0x0002 => Some(Event::SubprocessQuit),
            0x0004 => Some(Event::LaunchDone),
            0x0008 => Some(Event::Progress),
            0x0010 => Some(Event::Appliance),
            0x0020 => Some(Event::Library),
            0x0040 => Some(Event::Trace),
            0x0080 => Some(Event::Enter),
            0x0100 => Some(Event::LibvirtAuth),
            0x0200 => Some(Event::Warning),
            _ => None,
        }
    }
}

/// The name of one registration of a callback, as the native library
/// numbered it.
#[derive(Debug, Clone, Copy, PartialEq, Eq, Structural, Hash)]
pub struct EventHandle {
    eh: i32,
}

impl EventHandle {
    pub closed spec fn spec_id(&self) -> i32 {
        self.eh
    }

    /// The registration that the native library numbered `eh`.
    pub fn new(eh: i32) -> (r: EventHandle)
        ensures
            r.id() == eh,
    {
        EventHandle { eh }
    }

    /// The number that the native library gave the registration.
    #[verifier::when_used_as_spec(spec_id)]
    pub fn id(&self) -> (r: i32)
        ensures
            r == self.id(),
    {
        self.eh
    }
}

/// The bitmask that holds the bit of each event in `events`.
pub open spec fn bitmask(events: Seq<Event>) -> u64
    decreases events.len(),
{
    if events.len() == 0 {
        0
    } else {
        bitmask(events.drop_last()) | events.last().bit()
    }
}

pub fn events_to_bitmask(v: &[Event]) -> (r: u64)
    ensures
        r == bitmask(v@),
{
    let mut r = 0u64;
    let mut i: usize = 0;
    while i < v.len()
        invariant
            i <= v@.len(),
            r == bitmask(v@.take(i as int)),
        decreases v@.len() - i,
    {
        proof {
            assert(v@.take(i + 1).drop_last() == v@.take(i as int));
        }
        r |= v[i].to_u64();
        i += 1;
    }
    proof {
        assert(v@.take(v@.len() as int) == v@);
    }
    r
}

proof fn lemma_shifts()
    ensures
        1u64 << 0u64 == 0x0001u64,
        1u64 << 1u64 == 0x0002u64,
        1u64 << 2u64 == 0x0004u64,
        1u64 << 3u64 == 0x0008u64,
        1u64 << 4u64 == 0x0010u64,
        1u64 << 5u64 == 0x0020u64,
        1u64 << 6u64 == 0x0040u64,
        1u64 << 7u64 == 0x0080u64,
        1u64 << 8u64 == 0x0100u64,
        1u64 << 9u64 == 0x0200u64,
{
    assert(1u64 << 0u64 == 0x0001u64 && 1u64 << 1u64 == 0x0002u64 && 1u64 << 2u64 == 0x0004u64
        && 1u64 << 3u64 == 0x0008u64 && 1u64 << 4u64 == 0x0010u64 && 1u64 << 5u64 == 0x0020u64
        && 1u64 << 6u64 == 0x0040u64 && 1u64 << 7u64 == 0x0080u64 && 1u64 << 8u64 == 0x0100u64
        && 1u64 << 9u64 == 0x0200u64) by (bit_vector);
}

proof fn lemma_two_bits(i: u64, j: u64)
    by (bit_vector)
    requires
        i < 64,
        j < 64,
    ensures
        (1u64 << i) & (1u64 << j) == (if i == j {
            1u64 << i
        } else {
            0u64
        }),
{
}

proof fn lemma_or_and(m: u64, b: u64, x: u64)
    by (bit_vector)
    ensures
        (m | b) & x == (m & x) | (b & x),
        x | 0u64 == x,
        0u64 | x == x,
        x | x == x,
        0u64 | 0u64 == 0u64,
        0u64 & x == 0u64,
{
}

/// The bit of an event is the bit at the event's place, and no two
/// events share a bit.
pub proof fn lemma_event_bits(a: Event, b: Event)
    ensures
        a.bit() == 1u64 << a.index(),
        a.bit() != 0,
        a.bit() == b.bit() ==> a == b,
        a.bit() & b.bit() == (if a == b {
            a.bit()
        } else {
            0u64
        }),
{
    lemma_shifts();
    lemma_two_bits(a.index(), b.index());
}

/// An event's bit is set in the bitmask of the events that hold it,
/// and clear in that of the others.
pub proof fn lemma_bitmask_member(events: Seq<Event>, e: Event)
    ensures
        bitmask(events) & e.bit() == (if events.contains(e) {
            e.bit()
        } else {
            0u64
        }),
    decreases events.len(),
{
    if events.len() == 0 {
        lemma_or_and(0, 0, e.bit());
    } else {
        let front = events.drop_last();
        let last = events.last();
        lemma_bitmask_member(front, e);
        lemma_event_bits(last, e);
        lemma_or_and(bitmask(front), last.bit(), e.bit());
        if front.contains(e) {
            let i = choose|i: int| 0 <= i < front.len() && front[i] == e;
            assert(events[i] == e);
        }
        if last == e {
            assert(events[events.len() - 1] == e);
        }
        if events.contains(e) && last != e {
            let i = choose|i: int| 0 <= i < events.len() && events[i] == e;
            assert(front[i] == e);
        }
    }
}

/// The bitmask of all events holds the bit of every event, and no
/// other bit.
pub proof fn lemma_event_all(e: Event)
    ensures
        bitmask(EVENT_ALL@) == 0x03ff,
        bitmask(EVENT_ALL@) & e.bit() == e.bit(),
{
    let all = EVENT_ALL@;
    assert(all.len() == 10);
    reveal_with_fuel(bitmask, 11);
    assert(0u64 | 0x0001u64 | 0x0002u64 | 0x0004u64 | 0x0008u64 | 0x0010u64 | 0x0020u64 | 0x0040u64
        | 0x0080u64 | 0x0100u64 | 0x0200u64 == 0x03ffu64) by (bit_vector);
    assert(all[e.index() as int] == e);
    lemma_bitmask_member(all, e);
}

/// The name of a set of events, from what the native library answered
/// when it was asked for the name of their bitmask.
///
/// `answer` is `None` where the native library returned a null
/// pointer, and else the memory at the pointer it returned.
pub fn event_to_string(answer: Option<&[u8]>) -> (r: Result<String, Error>)
    ensures
        match r {
            Ok(s) => answer matches Some(mem) && valid_utf8(c_str(mem@)) && s@ == decode_utf8(
                c_str(mem@),
            ),
            Err(Error::UnixError(_, operation)) => answer is None && operation
                == "event_to_string",
            Err(Error::Utf8Error(_)) => answer matches Some(mem) && !valid_utf8(c_str(mem@)),
            Err(_) => false,
        },
{
    match answer {
        None => Err(unix_error("event_to_string")),
        Some(mem) => match char_ptr_to_string(mem) {
            Ok(s) => Ok(s),
            Err(e) => Err(Error::from(e)),
        },
    }
}

/// Hands one event of the native library to the callback it is
/// meant for.
///
/// `event` is the bitmask of the event, which holds one bit, and
/// `event_handle` the id of the registration. The callback is called
/// once, with the event and the registration that these stand for and
/// with the two buffers as they came. A bitmask that is no event's is
/// not accepted.
pub fn trampoline<C: Fn(Event, EventHandle, &[u8], &[u64])>(
    callback: &C,
    event: u64,
    event_handle: i32,
    buf: &[u8],
    array: &[u64],
)
    requires
        exists|e: Event| e.bit() == event,
        forall|e: Event, eh: EventHandle|
            e.bit() == event && eh.id() == event_handle ==> call_requires(
                *callback,
                (e, eh, buf, array),
            ),
    ensures
        exists|e: Event, eh: EventHandle|
            e.bit() == event && eh.id() == event_handle && call_ensures(
                *callback,
                (e, eh, buf, array),
                (),
            ),
{
    match Event::from_bitmask(event) {
        Some(e) => {
            let eh = EventHandle { eh: event_handle };
            callback(e, eh, buf, array)
        },
        None => {
            proof {
                let e = choose|e: Event| e.bit() == event;
                assert(e.bit() == event);
            }
            vstd::pervasive::unreached()
        },
    }
}

impl<C> Handle<C> {
    /// Takes note of a registration that the native library has
    /// answered.
    ///
    /// `eh` is what the native library returned when it was asked to
    /// register `callback`: the id of the registration, or -1 where it
    /// refused. An accepted callback is kept under its id, in place of
    /// what was kept there. A refused one is handed back, and the
    /// registry stays as it was.
    pub fn set_event_callback(&mut self, callback: C, eh: i32) -> (r: Result<EventHandle, C>)
        ensures
            final(self).resource() == old(self).resource(),
            match r {
                Ok(h) => eh != -1 && h.id() == eh && final(self).callbacks() == old(
                    self,
                ).callbacks().insert(eh, callback),
                Err(c) => eh == -1 && c == callback && final(self).callbacks() == old(
                    self,
                ).callbacks(),
            },
    {
        if eh == -1 {
            return Err(callback);
        }
        self.insert_callback(eh, callback);
        Ok(EventHandle { eh })
    }

    /// What the registry keeps for a registration, while it is kept.
    pub fn callback(&self, eh: EventHandle) -> (r: Option<&C>)
        ensures
            match r {
                Some(c) => self.callbacks().contains_key(eh.id()) && *c == self.callbacks()[eh.id()],
                None => !self.callbacks().contains_key(eh.id()),
            },
    {
        self.get_callback(eh.eh)
    }

    /// Drops the callback of a registration that the native library
    /// has been told to delete. A registration that is not in the
    /// registry leaves it as it was.
    pub fn delete_event_callback(&mut self, eh: EventHandle) -> (r: Result<(), Error>)
        ensures
            r is Ok,
            final(self).resource() == old(self).resource(),
            final(self).callbacks() == old(self).callbacks().remove(eh.id()),
    {
        self.remove_callback(eh.eh);
        Ok(())
    }
}

/// A registration that is made and then deleted leaves the registry
/// without it, and as it was before where the id was not in use.
/// Deleting a registration that is not kept changes nothing.
pub proof fn lemma_registration_cycle<C>(registry: Map<i32, C>, eh: i32, callback: C)
    ensures
        registry.insert(eh, callback).contains_key(eh),
        registry.insert(eh, callback)[eh] == callback,
        !registry.insert(eh, callback).remove(eh).contains_key(eh),
        registry.insert(eh, callback).remove(eh) == registry.remove(eh),
        !registry.contains_key(eh) ==> registry.remove(eh) == registry,
{
    assert(registry.insert(eh, callback).remove(eh) =~= registry.remove(eh));
    if !registry.contains_key(eh) {
        assert(registry.remove(eh) =~= registry);
    }
}

} // verus!
