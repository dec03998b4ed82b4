use guestfs::event::{events_to_bitmask, trampoline};
use guestfs::utils::{arg_string_list, char_ptr_to_string};
use guestfs::{event_to_string, Error, Event, EventHandle, Handle, EVENT_ALL};
use std::cell::{Cell, RefCell};
use std::rc::Rc;

type Callback<'a> = Box<dyn Fn(Event, EventHandle, &[u8], &[u64]) + 'a>;

/// Stands in for the native library in these tests. It hands out
/// resources and registration ids, remembers the bitmask of each
/// registration, and counts what it was asked to release.
struct Native {
    resources: Cell<usize>,
    released: RefCell<Vec<usize>>,
    out_of_memory: Cell<bool>,
    refuse_callbacks: Cell<bool>,
}

impl Native {
    fn new() -> Native {
        Native {
            resources: Cell::new(0),
            released: RefCell::new(Vec::new()),
            out_of_memory: Cell::new(false),
            refuse_callbacks: Cell::new(false),
        }
    }

    fn create(&self) -> usize {
        if self.out_of_memory.get() {
            return 0;
        }
        self.resources.set(self.resources.get() + 1);
        0x1000 * self.resources.get()
    }
}

/// A handle together with the native state that belongs to it.
struct Guest<'a> {
    native: &'a Native,
    core: Handle<Callback<'a>>,
    flags: i64,
    registered: Vec<(i32, u64)>,
    next_id: i32,
    trace: bool,
}

impl<'a> Guest<'a> {
    fn create(native: &'a Native) -> Result<Guest<'a>, Error> {
        Guest::create_flags(native, guestfs::CreateFlags::none())
    }

    fn create_flags(native: &'a Native, flags: guestfs::CreateFlags) -> Result<Guest<'a>, Error> {
        let flags = flags.to_libc_int();
        let core = Handle::create(native.create())?;
        Ok(Guest {
            native,
            core,
            flags,
            registered: Vec::new(),
            next_id: 0,
            trace: false,
        })
    }

    fn set_event_callback<C: 'a>(
        &mut self,
        callback: C,
        events: &[Event],
    ) -> Result<EventHandle, Error>
    where
        C: Fn(Event, EventHandle, &[u8], &[u64]) + 'a,
    {
        let bitmask = events_to_bitmask(events);
        let eh = if self.native.refuse_callbacks.get() {
            -1
        } else {
            self.registered.push((self.next_id, bitmask));
            self.next_id += 1;
            self.next_id - 1
        };
        match self.core.set_event_callback(Box::new(callback), eh) {
            Ok(eh) => Ok(eh),
            Err(_callback) => Err(self
                .core
                .get_error_from_handle("set_event_callback", b"refused\0", 22)),
        }
    }

    fn delete_event_callback(&mut self, eh: EventHandle) -> Result<(), Error> {
        self.registered.retain(|(id, _)| *id != eh.id());
        self.core.delete_event_callback(eh)
    }

    fn emit(&self, event: Event, buf: &[u8], array: &[u64]) {
        for (id, bitmask) in self.registered.iter() {
            if bitmask & event.to_u64() != 0 {
                let callback = self.core.callback(EventHandle::new(*id)).unwrap();
                trampoline(callback, event.to_u64(), *id, buf, array);
            }
        }
    }

    fn traced(&self, text: &str) {
        if self.trace {
            self.emit(Event::Trace, text.as_bytes(), &[]);
        }
    }

    fn set_trace(&mut self, trace: bool) -> Result<(), Error> {
        self.trace = trace;
        self.traced("set_trace");
        Ok(())
    }

    fn set_verbose(&self, _verbose: bool) -> Result<(), Error> {
        self.traced("set_verbose");
        Ok(())
    }

    fn add_drive_ro(&self, filename: &str) -> Result<(), Error> {
        arg_string_list(&[filename])?;
        self.traced("add_drive_ro");
        Ok(())
    }

    fn set_autosync(&self, _autosync: bool) -> Result<(), Error> {
        self.traced("set_autosync");
        Ok(())
    }

    fn debug(&self, subcmd: &str, extraargs: &[&str]) -> Result<String, Error> {
        arg_string_list(&[subcmd])?;
        let args = arg_string_list(extraargs)?;
        let secs: u64 = char_ptr_to_string(args[0].as_bytes_with_nul())?
            .parse()
            .unwrap();
        for position in 1..=secs {
            self.emit(Event::Progress, b"", &[0, 1, position, secs]);
        }
        Ok(char_ptr_to_string(b"ok\0")?)
    }
}

impl<'a> Drop for Guest<'a> {
    fn drop(&mut self) {
        self.emit(Event::Close, b"", &[]);
        self.native.released.borrow_mut().push(self.core.as_ptr());
    }
}

fn create<'a>(native: &'a Native) -> Guest<'a> {
    match Guest::create(native) {
        Ok(g) => g,
        Err(e) => panic!("fail: {:?}", e),
    }
}

fn ignore(_x: Guest, _y: Guest, _z: Guest) {
    // drop
}

#[test]
fn create_multiple() {
    let native = Native::new();
    let x = create(&native);
    let y = create(&native);
    let z = create(&native);
    ignore(x, y, z);
    let mut released = native.released.borrow().clone();
    released.sort();
    assert_eq!(released, vec![0x1000, 0x2000, 0x3000]);
}

#[test]
fn close_event() {
    let native = Native::new();
    let close_invoked = Rc::new(RefCell::new(0));
    {
        let mut g = Guest::create(&native).expect("create");
        g.set_event_callback(
            |_, _, _, _| {
                *close_invoked.borrow_mut() += 1;
            },
            &[Event::Close],
        )
        .unwrap();
        assert_eq!(*close_invoked.borrow(), 0);
    }
    assert_eq!(*close_invoked.borrow(), 1);
}

#[test]
fn log_messages() {
    let native = Native::new();
    let callback_invoked = Rc::new(RefCell::new(0));
    {
        let mut g = Guest::create(&native).expect("create");
        g.set_event_callback(
            |ev, _, buf, array| {
                *callback_invoked.borrow_mut() += 1;

                let name: &[u8] = match ev {
                    Event::Trace => b"trace\0",
                    _ => b"other\0",
                };
                let event = event_to_string(Some(name)).unwrap();

                let buf = std::str::from_utf8(buf).unwrap();
                let array = array
                    .into_iter()
                    .map(|x| format!("{}", x))
                    .collect::<Vec<String>>()
                    .join(",");

                println!("event logged: event={} buf={} array={}", event, buf, array)
            },
            &[
                Event::Appliance,
                Event::Library,
                Event::Warning,
                Event::Trace,
            ],
        )
        .unwrap();

        g.set_trace(true).unwrap();
        g.set_verbose(true).unwrap();
        g.add_drive_ro("/dev/null").unwrap();
        g.set_autosync(true).unwrap();
    }
    assert!(*callback_invoked.borrow() > 0);
}

#[test]
fn progress_messages() {
    let native = Native::new();
    let callback_invoked = Rc::new(RefCell::new(0));
    {
        let mut g = Guest::create(&native).expect("create");

        let eh = g
            .set_event_callback(
                |_, _, _, _| {
                    *callback_invoked.borrow_mut() += 1;
                },
                &[Event::Progress],
            )
            .unwrap();
        assert_eq!("ok", g.debug("progress", &["5"]).unwrap());
        assert!(*callback_invoked.borrow() > 0);

        *callback_invoked.borrow_mut() = 0;
        g.delete_event_callback(eh).unwrap();
        assert_eq!("ok", g.debug("progress", &["5"]).unwrap());
        assert_eq!(*callback_invoked.borrow(), 0);

        g.set_event_callback(
            |_, _, _, _| {
                *callback_invoked.borrow_mut() += 1;
            },
            &[Event::Progress],
        )
        .unwrap();
        assert_eq!("ok", g.debug("progress", &["5"]).unwrap());
    }
    assert!(*callback_invoked.borrow() > 0);
}

#[test]
fn a_null_resource_is_a_creation_error() {
    let r: Result<Handle<()>, Error> = Handle::create(0);
    assert!(matches!(r, Err(Error::Create)));
    let native = Native::new();
    native.out_of_memory.set(true);
    assert!(matches!(Guest::create(&native), Err(Error::Create)));
    assert!(native.released.borrow().is_empty());
}

#[test]
fn a_handle_keeps_its_resource() {
    let g: Handle<()> = Handle::create(0x7f00_1234).unwrap();
    assert_eq!(g.as_ptr(), 0x7f00_1234);
    let g: Handle<()> = Handle::create(1).unwrap();
    assert_eq!(g.as_ptr(), 1);
    let g: Handle<()> = Handle::create(usize::MAX).unwrap();
    assert_eq!(g.as_ptr(), usize::MAX);
}

#[test]
fn the_flags_reach_the_factory_as_their_mask() {
    let native = Native::new();
    let flags = guestfs::CreateFlags::new()
        .create_no_environment(true)
        .create_no_close_on_exit_flag(true);
    let g = Guest::create_flags(&native, flags).unwrap();
    assert_eq!(g.flags, 3);
    let g = Guest::create(&native).unwrap();
    assert_eq!(g.flags, 0);
}

fn early_return(native: &Native, fail: bool) -> Result<u32, Error> {
    let _g = Guest::create(native)?;
    if fail {
        return Err(Error::Create);
    }
    Ok(1)
}

#[test]
fn a_resource_is_released_once_on_every_path() {
    let native = Native::new();
    assert!(early_return(&native, false).is_ok());
    assert_eq!(*native.released.borrow(), vec![0x1000]);
    assert!(early_return(&native, true).is_err());
    assert_eq!(*native.released.borrow(), vec![0x1000, 0x2000]);
}

#[test]
fn a_registration_is_kept_until_it_is_deleted() {
    let mut g: Handle<&'static str> = Handle::create(0x1000).unwrap();
    let a = g.set_event_callback("first", 0).unwrap();
    let b = g.set_event_callback("second", 1).unwrap();
    assert_eq!(a, EventHandle::new(0));
    assert_eq!(b, EventHandle::new(1));
    assert_eq!(g.callback(a), Some(&"first"));
    assert_eq!(g.callback(b), Some(&"second"));
    assert_eq!(g.callback(EventHandle::new(2)), None);
    g.delete_event_callback(a).unwrap();
    assert_eq!(g.callback(a), None);
    assert_eq!(g.callback(b), Some(&"second"));
    assert_eq!(g.as_ptr(), 0x1000);
}

#[test]
fn a_refused_registration_leaves_the_registry_as_it_was() {
    let dropped = Rc::new(());
    let mut g: Handle<Rc<()>> = Handle::create(0x1000).unwrap();
    let a = g.set_event_callback(Rc::new(()), 5).unwrap();
    let back = g.set_event_callback(dropped.clone(), -1).unwrap_err();
    assert!(Rc::ptr_eq(&back, &dropped));
    assert_eq!(Rc::strong_count(&dropped), 2);
    drop(back);
    assert_eq!(Rc::strong_count(&dropped), 1);
    assert!(g.callback(a).is_some());
    assert!(g.callback(EventHandle::new(-1)).is_none());
}

#[test]
fn a_refused_registration_is_an_api_error() {
    let native = Native::new();
    let mut g = Guest::create(&native).unwrap();
    native.refuse_callbacks.set(true);
    match g.set_event_callback(|_, _, _, _| {}, &EVENT_ALL) {
        Err(Error::API(e)) => {
            assert_eq!(e.operation(), "set_event_callback");
            assert_eq!(e.message(), "refused");
            assert_eq!(e.errno(), 22);
        }
        other => panic!("unexpected: {:?}", other),
    }
    native.refuse_callbacks.set(false);
    assert!(g.set_event_callback(|_, _, _, _| {}, &EVENT_ALL).is_ok());
}

#[test]
fn deleting_an_unknown_registration_changes_nothing() {
    let mut g: Handle<u8> = Handle::create(0x1000).unwrap();
    let a = g.set_event_callback(1, 10).unwrap();
    assert!(g.delete_event_callback(EventHandle::new(11)).is_ok());
    assert_eq!(g.callback(a), Some(&1));
    assert!(g.delete_event_callback(a).is_ok());
    assert!(g.delete_event_callback(a).is_ok());
    assert_eq!(g.callback(a), None);
}

#[test]
fn an_id_that_comes_again_replaces_the_callback() {
    let first = Rc::new(());
    let mut g: Handle<Rc<()>> = Handle::create(0x1000).unwrap();
    g.set_event_callback(first.clone(), 3).unwrap();
    assert_eq!(Rc::strong_count(&first), 2);
    g.set_event_callback(Rc::new(()), 3).unwrap();
    assert_eq!(Rc::strong_count(&first), 1);
}

#[test]
fn dropping_a_handle_drops_its_callbacks() {
    let kept = Rc::new(());
    {
        let mut g: Handle<Rc<()>> = Handle::create(0x1000).unwrap();
        g.set_event_callback(kept.clone(), 0).unwrap();
        g.set_event_callback(kept.clone(), 1).unwrap();
        assert_eq!(Rc::strong_count(&kept), 3);
        g.delete_event_callback(EventHandle::new(0)).unwrap();
        assert_eq!(Rc::strong_count(&kept), 2);
    }
    assert_eq!(Rc::strong_count(&kept), 1);
}

#[test]
fn n_events_are_n_calls_in_order() {
    let native = Native::new();
    let seen = RefCell::new(Vec::new());
    let mut g = Guest::create(&native).unwrap();
    let eh = g
        .set_event_callback(
            |e, eh, buf, array| {
                seen.borrow_mut()
                    .push((e, eh.id(), buf.to_vec(), array.to_vec()));
            },
            &[Event::Progress, Event::Library],
        )
        .unwrap();
    g.emit(Event::Progress, b"one", &[1]);
    g.emit(Event::Appliance, b"not for us", &[]);
    g.emit(Event::Library, b"two", &[]);
    g.emit(Event::Progress, b"three", &[3, 3, 3]);
    assert_eq!(
        *seen.borrow(),
        vec![
            (Event::Progress, eh.id(), b"one".to_vec(), vec![1]),
            (Event::Library, eh.id(), b"two".to_vec(), vec![]),
            (Event::Progress, eh.id(), b"three".to_vec(), vec![3, 3, 3]),
        ]
    );
    g.delete_event_callback(eh).unwrap();
    g.emit(Event::Progress, b"four", &[]);
    g.emit(Event::Library, b"five", &[]);
    assert_eq!(seen.borrow().len(), 3);
}

#[test]
fn a_callback_for_all_events_sees_every_kind() {
    let native = Native::new();
    let seen = RefCell::new(Vec::new());
    {
        let mut g = Guest::create(&native).unwrap();
        g.set_event_callback(|e, _, _, _| seen.borrow_mut().push(e), &EVENT_ALL)
            .unwrap();
        for e in EVENT_ALL.iter() {
            if *e != Event::Close {
                g.emit(*e, b"", &[]);
            }
        }
    }
    let mut expected: Vec<Event> = EVENT_ALL.iter().filter(|e| **e != Event::Close).cloned().collect();
    expected.push(Event::Close);
    assert_eq!(*seen.borrow(), expected);
}

#[test]
fn closing_with_callbacks_gives_each_one_close_event() {
    let native = Native::new();
    let first = Rc::new(Cell::new(0));
    let second = Rc::new(Cell::new(0));
    let other = Rc::new(Cell::new(0));
    {
        let mut g = Guest::create(&native).unwrap();
        let a = first.clone();
        g.set_event_callback(move |_, _, _, _| a.set(a.get() + 1), &[Event::Close])
            .unwrap();
        let b = second.clone();
        g.set_event_callback(move |_, _, _, _| b.set(b.get() + 1), &EVENT_ALL)
            .unwrap();
        let c = other.clone();
        g.set_event_callback(move |_, _, _, _| c.set(c.get() + 1), &[Event::Trace])
            .unwrap();
        assert_eq!(Rc::strong_count(&first), 2);
    }
    assert_eq!(first.get(), 1);
    assert_eq!(second.get(), 1);
    assert_eq!(other.get(), 0);
    assert_eq!(Rc::strong_count(&first), 1);
    assert_eq!(Rc::strong_count(&second), 1);
    assert_eq!(Rc::strong_count(&other), 1);
    assert_eq!(*native.released.borrow(), vec![0x1000]);
}

#[test]
fn a_deleted_callback_sees_only_what_came_before() {
    let native = Native::new();
    let first = RefCell::new(Vec::new());
    let second = RefCell::new(Vec::new());
    let mut g = Guest::create(&native).unwrap();
    g.set_event_callback(
        |e, _, buf, _| {
            if e == Event::Trace {
                first.borrow_mut().push(buf.to_vec());
            }
        },
        &EVENT_ALL,
    )
    .unwrap();
    let eh = g
        .set_event_callback(
            |e, _, buf, _| {
                if e == Event::Trace {
                    second.borrow_mut().push(buf.to_vec());
                }
            },
            &EVENT_ALL,
        )
        .unwrap();
    g.set_trace(true).unwrap();
    g.delete_event_callback(eh).unwrap();
    g.set_autosync(true).unwrap();
    assert_eq!(
        *first.borrow(),
        vec![b"set_trace".to_vec(), b"set_autosync".to_vec()]
    );
    assert_eq!(*second.borrow(), vec![b"set_trace".to_vec()]);
}
