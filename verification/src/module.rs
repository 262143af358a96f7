//! The extension as a module that Explorer loads: when it can be unloaded, and which objects it
//! gives out.

use vstd::prelude::*;

verus! {

/// The class of the extension.
pub const CLSID_UNLOCKER_SHELL_EXT: u128 = 0x8e61a8fd_0b37_4aeb_9ce0_9d833295673f;

/// The reason with which a module is told that it has been loaded.
pub const DLL_PROCESS_ATTACH: u32 = 1;

/// What keeps the module loaded: the objects that it has given out, and the locks on it. The two
/// counts wrap.
pub struct ModuleRefs {
    pub live_objects: u32,
    pub server_locks: u32,
}

/// `count` and one, which wraps to zero.
pub open spec fn one_more(count: u32) -> u32 {
    if count == u32::MAX {
        0
    } else {
        (count + 1) as u32
    }
}

/// `count` less one, which wraps from zero.
pub open spec fn one_less(count: u32) -> u32 {
    if count == 0 {
        u32::MAX
    } else {
        (count - 1) as u32
    }
}

impl ModuleRefs {
    /// The counts of a module that has just been loaded.
    pub fn new() -> (refs: Self)
        ensures
            refs == refs_of(seq![]),
    {
        ModuleRefs { live_objects: 0, server_locks: 0 }
    }

    /// An object has been given out.
    pub fn add_object(&mut self)
        ensures
            *final(self) == refs_after(*old(self), ModuleEvent::ObjectGivenOut),
    {
        self.live_objects = self.live_objects.wrapping_add(1);
    }

    /// An object is gone.
    pub fn drop_object(&mut self)
        ensures
            *final(self) == refs_after(*old(self), ModuleEvent::ObjectGone),
    {
        self.live_objects = self.live_objects.wrapping_sub(1);
    }

    /// The module is locked or unlocked.
    pub fn lock_server(&mut self, lock: bool)
        ensures
            *final(self) == refs_after(
                *old(self),
                if lock {
                    ModuleEvent::Locked
                } else {
                    ModuleEvent::Unlocked
                },
            ),
    {
        if lock {
            self.server_locks = self.server_locks.wrapping_add(1);
        } else {
            self.server_locks = self.server_locks.wrapping_sub(1);
        }
    }

    /// Whether the module can be unloaded now.
    pub fn can_unload_now(&self) -> (r: bool)
        ensures
            r == (self.live_objects == 0 && self.server_locks == 0),
    {
        self.live_objects == 0 && self.server_locks == 0
    }
}

/// What changes the counts.
pub enum ModuleEvent {
    ObjectGivenOut,
    ObjectGone,
    Locked,
    Unlocked,
}

/// `refs` after `event`.
pub open spec fn refs_after(refs: ModuleRefs, event: ModuleEvent) -> ModuleRefs {
    match event {
        ModuleEvent::ObjectGivenOut => ModuleRefs {
            live_objects: one_more(refs.live_objects),
            ..refs
        },
        ModuleEvent::ObjectGone => ModuleRefs { live_objects: one_less(refs.live_objects), ..refs },
        ModuleEvent::Locked => ModuleRefs { server_locks: one_more(refs.server_locks), ..refs },
        ModuleEvent::Unlocked => ModuleRefs { server_locks: one_less(refs.server_locks), ..refs },
    }
}

/// The counts of a module after all that has happened since it was loaded.
pub open spec fn refs_of(events: Seq<ModuleEvent>) -> ModuleRefs {
    events.fold_left(
        ModuleRefs { live_objects: 0, server_locks: 0 },
        |refs: ModuleRefs, event: ModuleEvent| refs_after(refs, event),
    )
}

/// How many objects are out.
pub open spec fn objects_out(events: Seq<ModuleEvent>) -> int
    decreases events.len(),
{
    if events.len() == 0 {
        0
    } else {
        objects_out(events.drop_last()) + match events.last() {
            ModuleEvent::ObjectGivenOut => 1int,
            ModuleEvent::ObjectGone => -1,
            _ => 0,
        }
    }
}

/// How many locks are held.
pub open spec fn locks_held(events: Seq<ModuleEvent>) -> int
    decreases events.len(),
{
    if events.len() == 0 {
        0
    } else {
        locks_held(events.drop_last()) + match events.last() {
            ModuleEvent::Locked => 1int,
            ModuleEvent::Unlocked => -1,
            _ => 0,
        }
    }
}

proof fn lemma_refs_of(events: Seq<ModuleEvent>)
    ensures
        refs_of(events).live_objects == objects_out(events) % 0x1_0000_0000,
        refs_of(events).server_locks == locks_held(events) % 0x1_0000_0000,
    decreases events.len(),
{
    if events.len() > 0 {
        lemma_refs_of(events.drop_last());
    }
}

/// The counts tell what is out: a module can be unloaded exactly when every object that was given
/// out is gone and every lock is released, in whatever order that happened.
pub proof fn unloads_when_nothing_is_out(events: Seq<ModuleEvent>)
    requires
        0 <= objects_out(events) <= u32::MAX,
        0 <= locks_held(events) <= u32::MAX,
    ensures
        refs_of(events).live_objects == 0 && refs_of(events).server_locks == 0 <==> objects_out(
            events,
        ) == 0 && locks_held(events) == 0,
{
    lemma_refs_of(events);
}

/// What comes of the question for an object.
#[derive(Clone, Copy, Debug, Eq, PartialEq, Structural)]
pub enum ObjectRequest {
    InvalidArgument,
    ClassNotAvailable,
    NoAggregation,
    Create,
}

/// What comes of the question for the class object of `class_id`, where all arguments are there or
/// not.
pub fn class_object_request(arguments_given: bool, class_id: u128) -> (r: ObjectRequest)
    ensures
        r == if !arguments_given {
            ObjectRequest::InvalidArgument
        } else if class_id != 0x8e61a8fd_0b37_4aeb_9ce0_9d833295673fu128 {
            ObjectRequest::ClassNotAvailable
        } else {
            ObjectRequest::Create
        },
{
    if !arguments_given {
        ObjectRequest::InvalidArgument
    } else if class_id != CLSID_UNLOCKER_SHELL_EXT {
        ObjectRequest::ClassNotAvailable
    } else {
        ObjectRequest::Create
    }
}

/// What comes of the question for an instance, which is to be part of another object or not, where
/// all arguments are there or not.
pub fn instance_request(aggregated: bool, arguments_given: bool) -> (r: ObjectRequest)
    ensures
        r == if aggregated {
            ObjectRequest::NoAggregation
        } else if !arguments_given {
            ObjectRequest::InvalidArgument
        } else {
            ObjectRequest::Create
        },
{
    if aggregated {
        ObjectRequest::NoAggregation
    } else if !arguments_given {
        ObjectRequest::InvalidArgument
    } else {
        ObjectRequest::Create
    }
}

/// Whether the module's handle is to be kept when the module is called for `reason`.
pub fn keeps_module_handle(reason: u32) -> (r: bool)
    ensures
        r == (reason == 1),
{
    reason == DLL_PROCESS_ATTACH
}

/// Each event changes one count by one and leaves the other: what is given out or locked is counted
/// up, what is gone or unlocked is counted down, and the two undo one another.
pub proof fn events_are_counted_one_by_one(refs: ModuleRefs)
    ensures
        ({
            let given = refs_after(refs, ModuleEvent::ObjectGivenOut);
            let gone = refs_after(refs, ModuleEvent::ObjectGone);
            let locked = refs_after(refs, ModuleEvent::Locked);
            let unlocked = refs_after(refs, ModuleEvent::Unlocked);
            &&& given.live_objects == (refs.live_objects + 1) % 0x1_0000_0000
            &&& gone.live_objects == (refs.live_objects - 1) % 0x1_0000_0000
            &&& given.server_locks == refs.server_locks && gone.server_locks == refs.server_locks
            &&& locked.server_locks == (refs.server_locks + 1) % 0x1_0000_0000
            &&& unlocked.server_locks == (refs.server_locks - 1) % 0x1_0000_0000
            &&& locked.live_objects == refs.live_objects && unlocked.live_objects
                == refs.live_objects
            &&& refs_after(given, ModuleEvent::ObjectGone) == refs
            &&& refs_after(locked, ModuleEvent::Unlocked) == refs
        }),
{
}

/// The counts of a module are those of the events one after the other, from none at all.
pub proof fn events_are_counted_in_order(events: Seq<ModuleEvent>, event: ModuleEvent)
    ensures
        refs_of(seq![]).live_objects == 0,
        refs_of(seq![]).server_locks == 0,
        refs_of(events.push(event)) == refs_after(refs_of(events), event),
        objects_out(events.push(event)) - objects_out(events) == match event {
            ModuleEvent::ObjectGivenOut => 1int,
            ModuleEvent::ObjectGone => -1,
            ModuleEvent::Locked => 0,
            ModuleEvent::Unlocked => 0,
        },
        locks_held(events.push(event)) - locks_held(events) == match event {
            ModuleEvent::ObjectGivenOut => 0int,
            ModuleEvent::ObjectGone => 0,
            ModuleEvent::Locked => 1,
            ModuleEvent::Unlocked => -1,
        },
{
    assert(events.push(event).drop_last() == events);
}

} // verus!
