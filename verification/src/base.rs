//! The handle and the options it is created with.

use crate::error::Error;
use std::collections::HashMap;
use vstd::prelude::*;

verus! {

/// Bit of the creation mask that keeps the library from reading its
/// configuration out of the process environment.
pub const GUESTFS_CREATE_NO_ENVIRONMENT: i64 = 1;

/// Bit of the creation mask that keeps the library from closing the
/// handle when the process exits.
pub const GUESTFS_CREATE_NO_CLOSE_ON_EXIT: i64 = 2;

/// The address of a native resource. It is never zero.
struct Resource {
    addr: usize,
}

impl Resource {
    #[verifier::type_invariant]
    spec fn non_null(self) -> bool {
        self.addr != 0
    }
}

/// One session with the native library, and the callbacks registered
/// on it.
///
/// `C` is what the registry keeps for each registration: the callback
/// in the form in which the native side was told of it. The handle owns
/// these values until the registration is deleted or the handle is
/// dropped.
pub struct Handle<C> {
    g: Resource,
    callbacks: HashMap<i32, C>,
}

impl<C> Handle<C> {
    /// The address of the native resource.
    pub closed spec fn resource(&self) -> usize {
        self.g.addr
    }

    /// The registry: what is kept for each registration, by the
    /// registration's id.
    pub closed spec fn callbacks(&self) -> Map<i32, C> {
        self.callbacks@
    }

    /// Makes a handle of what a native factory returned.
    ///
    /// `g` is the address of the new resource, zero where the factory
    /// returned a null pointer. The handle starts with no callbacks.
    pub fn create(g: usize) -> (r: Result<Handle<C>, Error>)
        ensures
            match r {
                Ok(h) => g != 0 && h.resource() == g && h.callbacks() == Map::<i32, C>::empty(),
                Err(e) => g == 0 && e is Create,
            },
    {
        if g == 0 {
            Err(Error::Create)
        } else {
            let callbacks = HashMap::new();
            Ok(Handle { g: Resource { addr: g }, callbacks })
        }
    }

    /// The address of the native resource, for the native calls made
    /// on this handle.
    pub fn as_ptr(&self) -> (r: usize)
        ensures
            r == self.resource(),
            r != 0,
    {
        proof {
            use_type_invariant(&self.g);
        }
        self.g.addr
    }

    pub(crate) fn get_callback(&self, eh: i32) -> (r: Option<&C>)
        ensures
            match r {
                Some(c) => self.callbacks().contains_key(eh) && *c == self.callbacks()[eh],
                None => !self.callbacks().contains_key(eh),
            },
    {
        self.callbacks.get(&eh)
    }

    pub(crate) fn insert_callback(&mut self, eh: i32, callback: C)
        ensures
            final(self).resource() == old(self).resource(),
            final(self).callbacks() == old(self).callbacks().insert(eh, callback),
    {
        self.callbacks.insert(eh, callback);
    }

    pub(crate) fn remove_callback(&mut self, eh: i32)
        ensures
            final(self).resource() == old(self).resource(),
            final(self).callbacks() == old(self).callbacks().remove(eh),
    {
        self.callbacks.remove(&eh);
    }
}

/// The two options that can be chosen when a handle is created.
pub struct CreateFlags {
    create_no_environment_flag: bool,
    create_no_close_on_exit_flag: bool,
}

impl CreateFlags {
    /// Whether the environment is left unread.
    pub closed spec fn no_environment(self) -> bool {
        self.create_no_environment_flag
    }

    /// Whether the handle is left open when the process exits.
    pub closed spec fn no_close_on_exit(self) -> bool {
        self.create_no_close_on_exit_flag
    }

    /// The mask that stands for these options: the bitwise or of the
    /// bits of the options that are set.
    pub open spec fn mask(self) -> i64 {
        (if self.no_environment() {
            GUESTFS_CREATE_NO_ENVIRONMENT
        } else {
            0i64
        }) | (if self.no_close_on_exit() {
            GUESTFS_CREATE_NO_CLOSE_ON_EXIT
        } else {
            0i64
        })
    }

    /// No option set.
    pub fn none() -> (r: CreateFlags)
        ensures
            !r.no_environment(),
            !r.no_close_on_exit(),
    {
        CreateFlags { create_no_environment_flag: false, create_no_close_on_exit_flag: false }
    }

    /// The same as [`CreateFlags::none`].
    pub fn new() -> (r: CreateFlags)
        ensures
            !r.no_environment(),
            !r.no_close_on_exit(),
    {
        CreateFlags::none()
    }

    /// Sets or clears the first option and leaves the other as it was.
    pub fn create_no_environment(self, flag: bool) -> (r: CreateFlags)
        ensures
            r.no_environment() == flag,
            r.no_close_on_exit() == self.no_close_on_exit(),
    {
        let mut flags = self;
        flags.create_no_environment_flag = flag;
        flags
    }

    /// Sets or clears the second option and leaves the other as it was.
    pub fn create_no_close_on_exit_flag(self, flag: bool) -> (r: CreateFlags)
        ensures
            r.no_close_on_exit() == flag,
            r.no_environment() == self.no_environment(),
    {
        let mut flags = self;
        flags.create_no_close_on_exit_flag = flag;
        flags
    }

    /// The mask to hand to the native factory.
    pub fn to_libc_int(self) -> (r: i64)
        ensures
            r == self.mask(),
            r == (if self.no_environment() { 1int } else { 0int })
                + (if self.no_close_on_exit() { 2int } else { 0int }),
    {
        let mut flag: i64 = 0;
        flag |= if self.create_no_environment_flag {
            GUESTFS_CREATE_NO_ENVIRONMENT
        } else {
            0
        };
        flag |= if self.create_no_close_on_exit_flag {
            GUESTFS_CREATE_NO_CLOSE_ON_EXIT
        } else {
            0
        };
        proof {
            assert(0i64 | 0i64 == 0i64) by (bit_vector);
            assert(0i64 | 1i64 == 1i64) by (bit_vector);
            assert(1i64 | 0i64 == 1i64) by (bit_vector);
            assert(0i64 | 2i64 == 2i64) by (bit_vector);
            assert(1i64 | 2i64 == 3i64) by (bit_vector);
        }
        flag
    }
}

/// The mask of a set of options holds the bit of each option that is
/// set and no other bit. With no option set it is zero.
pub proof fn lemma_mask(flags: CreateFlags)
    ensures
        flags.mask() & GUESTFS_CREATE_NO_ENVIRONMENT != 0 <==> flags.no_environment(),
        flags.mask() & GUESTFS_CREATE_NO_CLOSE_ON_EXIT != 0 <==> flags.no_close_on_exit(),
        flags.mask() & !(GUESTFS_CREATE_NO_ENVIRONMENT | GUESTFS_CREATE_NO_CLOSE_ON_EXIT) == 0,
        !flags.no_environment() && !flags.no_close_on_exit() ==> flags.mask() == 0,
{
    assert((0i64 | 0i64) & 1i64 == 0 && (0i64 | 0i64) & 2i64 == 0 && (0i64 | 0i64) & !(1i64 | 2i64)
        == 0 && 0i64 | 0i64 == 0) by (bit_vector);
    assert((1i64 | 0i64) & 1i64 != 0 && (1i64 | 0i64) & 2i64 == 0 && (1i64 | 0i64) & !(1i64 | 2i64)
        == 0) by (bit_vector);
    assert((0i64 | 2i64) & 1i64 == 0 && (0i64 | 2i64) & 2i64 != 0 && (0i64 | 2i64) & !(1i64 | 2i64)
        == 0) by (bit_vector);
    assert((1i64 | 2i64) & 1i64 != 0 && (1i64 | 2i64) & 2i64 != 0 && (1i64 | 2i64) & !(1i64 | 2i64)
        == 0) by (bit_vector);
}

/// A UUID as the native library hands it out: 32 bytes.
pub struct UUID {
    uuid: [u8; 32],
}

impl UUID {
    /// The bytes held.
    pub closed spec fn bytes(self) -> Seq<u8> {
        self.uuid@
    }

    pub fn new(uuid: [u8; 32]) -> (r: UUID)
        ensures
            r.bytes() == uuid@,
    {
        UUID { uuid }
    }

    pub fn to_bytes(self) -> (r: [u8; 32])
        ensures
            r@ == self.bytes(),
    {
        self.uuid
    }
}

} // verus!
