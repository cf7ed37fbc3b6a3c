//! Reading what the physics engine reports.
//!
//! The engine is `rapier3d`. Nothing is known here of what its collision
//! events hold but what they answer when asked, so each is read once, into a
//! [`ContactEvent`], and the crossing protocol works on what was read.

use crate::crossing::{ContactEvent, Crossing};
use crate::level::{Handle, MagicLevel};
use rapier3d::geometry::CollisionEvent;
use vstd::prelude::*;

verus! {

/// `CollisionEvent` of `rapier3d`, carried as a value of which nothing is
/// known.
#[verifier::external_type_specification]
#[verifier::external_body]
pub struct ExCollisionEvent(CollisionEvent);

/// What `CollisionEvent::started` of `rapier3d` answers for `event`.
pub uninterp spec fn event_started(event: CollisionEvent) -> bool;

/// What `CollisionEvent::collider1` of `rapier3d` answers for `event`, taken
/// apart by `ColliderHandle::into_raw_parts`.
pub uninterp spec fn event_collider1(event: CollisionEvent) -> Handle;

/// What `CollisionEvent::collider2` of `rapier3d` answers for `event`, taken
/// apart by `ColliderHandle::into_raw_parts`.
pub uninterp spec fn event_collider2(event: CollisionEvent) -> Handle;

/// The contact that a collision event is read as.
pub open spec fn contact_of(event: CollisionEvent) -> ContactEvent {
    ContactEvent {
        started: event_started(event),
        collider1: event_collider1(event),
        collider2: event_collider2(event),
    }
}

/// `CollisionEvent::started` of `rapier3d`: whether the event tells of a
/// contact that began. The answer depends on the event alone; no more is
/// claimed of it.
#[verifier::external_body]
fn collision_started(event: &CollisionEvent) -> (started: bool)
    ensures
        started == event_started(*event),
{
    event.started()
}

/// `CollisionEvent::collider1` of `rapier3d`: the handle of the first
/// collider of the event, taken apart into slot and generation. The answer
/// depends on the event alone; no more is claimed of it.
#[verifier::external_body]
fn collision_collider1(event: &CollisionEvent) -> (handle: Handle)
    ensures
        handle == event_collider1(*event),
{
    let (index, generation) = event.collider1().into_raw_parts();
    Handle { index, generation }
}

/// `CollisionEvent::collider2` of `rapier3d`: the handle of the second
/// collider of the event, taken apart into slot and generation. The answer
/// depends on the event alone; no more is claimed of it.
#[verifier::external_body]
fn collision_collider2(event: &CollisionEvent) -> (handle: Handle)
    ensures
        handle == event_collider2(*event),
{
    let (index, generation) = event.collider2().into_raw_parts();
    Handle { index, generation }
}

/// Reads the collision events of one tick: the contact of each event, in
/// order.
pub fn contacts_of(events: &Vec<CollisionEvent>) -> (contacts: Vec<ContactEvent>)
    ensures
        contacts@ == events@.map_values(|e: CollisionEvent| contact_of(e)),
{
    let mut contacts: Vec<ContactEvent> = Vec::new();
    let mut i: usize = 0;
    while i < events.len()
        invariant
            i <= events@.len(),
            contacts@.len() == i,
            forall|k: int| 0 <= k < i ==> #[trigger] contacts@[k] == contact_of(events@[k]),
        decreases events@.len() - i,
    {
        let event = &events[i];
        contacts.push(
            ContactEvent {
                started: collision_started(event),
                collider1: collision_collider1(event),
                collider2: collision_collider2(event),
            },
        );
        i = i + 1;
    }
    proof {
        assert(contacts@ =~= events@.map_values(|e: CollisionEvent| contact_of(e)));
    }
    contacts
}

impl MagicLevel {
    /// Applies the collision events of one tick: the crossings are those of
    /// the contacts that the events are read as.
    pub fn update_collisions(&mut self, events: &Vec<CollisionEvent>) -> (crossings: Vec<Crossing>)
        requires
            old(self)@.wf(),
        ensures
            crossings@ == old(self)@.crossings(
                events@.map_values(|e: CollisionEvent| contact_of(e)),
            ),
            final(self)@ == old(self)@.after(
                events@.map_values(|e: CollisionEvent| contact_of(e)),
            ),
            final(self)@.wf(),
    {
        let contacts = contacts_of(events);
        self.update(&contacts)
    }
}

} // verus!
