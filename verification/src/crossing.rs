//! The crossing protocol: from the contacts that the physics engine reports
//! for one tick to the crossings of the controlled body.

use crate::level::{Handle, MagicLevel, Worlds};
use crate::scale::{Scale, lemma_recip_cancels};
use crate::walk::PortalId;
use vstd::prelude::*;

verus! {

/// A contact between two colliders that started or stopped during a tick.
#[derive(Clone, Copy, Debug, PartialEq, Eq, Structural)]
pub struct ContactEvent {
    /// Whether the contact started; if not, it stopped.
    pub started: bool,
    pub collider1: Handle,
    pub collider2: Handle,
}

/// One passage of the controlled body through a portal.
#[derive(Clone, Copy, Debug, PartialEq, Eq, Structural)]
pub struct Crossing {
    /// The portal that the body went into.
    pub portal: PortalId,
    /// The portal at which it comes out.
    pub link: PortalId,
    /// Factor by which the body's lateral half-extents are multiplied.
    pub scale: Scale,
}

impl Worlds {
    /// Whether `collider` is one of the two colliders of the controlled
    /// body.
    pub open spec fn is_body(self, collider: Handle) -> bool {
        collider == self.me.collider_handle || collider == self.me.body_bounding
    }

    /// Whether `collider` is the sensor of a portal. A collider of the
    /// controlled body is never taken for one.
    pub open spec fn is_sensor(self, collider: Handle) -> bool {
        self.handles.dom().contains(collider) && !self.is_body(collider)
    }

    /// The portal that a contact tells of, if any: the contact has started,
    /// one of its colliders is the controlled body's and the other is the
    /// sensor of a portal. Which of the two comes first plays no part.
    pub open spec fn hit(self, event: ContactEvent) -> Option<PortalId> {
        if event.started && self.is_body(event.collider1) && self.is_sensor(event.collider2) {
            Some(self.handles[event.collider2])
        } else if event.started && self.is_body(event.collider2) && self.is_sensor(
            event.collider1,
        ) {
            Some(self.handles[event.collider1])
        } else {
            None
        }
    }

    /// The portals that the contacts of one tick tell of, each once, in the
    /// order in which they are first told of.
    pub open spec fn crossed(self, events: Seq<ContactEvent>) -> Seq<PortalId>
        decreases events.len(),
    {
        if events.len() == 0 {
            Seq::empty()
        } else {
            let before = self.crossed(events.drop_last());
            match self.hit(events.last()) {
                Some(p) => if before.contains(p) {
                    before
                } else {
                    before.push(p)
                },
                None => before,
            }
        }
    }

    /// The passage through `p`.
    pub open spec fn crossing(self, p: PortalId) -> Crossing {
        Crossing { portal: p, link: self.link(p), scale: self.portal(p).scale }
    }

    /// The crossings that the contacts of one tick amount to, in order.
    pub open spec fn crossings(self, events: Seq<ContactEvent>) -> Seq<Crossing> {
        Seq::new(self.crossed(events).len(), |i: int| self.crossing(self.crossed(events)[i]))
    }

    /// The worlds after the contacts of one tick: the controlled body is in
    /// the world into which the last crossing leads.
    pub open spec fn after(self, events: Seq<ContactEvent>) -> Worlds {
        let crossed = self.crossed(events);
        if crossed.len() == 0 {
            self
        } else {
            Worlds { me_world: self.link(crossed.last()).world, ..self }
        }
    }
}

/// No portal is crossed twice in a tick, however many contacts tell of it;
/// a portal is crossed exactly if some contact tells of it.
pub proof fn lemma_crossed_once(m: Worlds, events: Seq<ContactEvent>)
    ensures
        m.crossed(events).no_duplicates(),
        forall|p: PortalId| #[trigger]
            m.crossed(events).contains(p) <==> exists|i: int|
                0 <= i < events.len() && m.hit(#[trigger] events[i]) == Some(p),
        m.crossed(events).len() <= events.len(),
    decreases events.len(),
{
    if events.len() > 0 {
        let head = events.drop_last();
        let before = m.crossed(head);
        lemma_crossed_once(m, head);
        assert forall|p: PortalId| #[trigger]
            m.crossed(events).contains(p) <==> exists|i: int|
                0 <= i < events.len() && m.hit(#[trigger] events[i]) == Some(p) by {
            if m.crossed(events).contains(p) {
                if before.contains(p) {
                    let i = choose|i: int|
                        0 <= i < head.len() && m.hit(#[trigger] head[i]) == Some(p);
                    assert(events[i] == head[i]);
                } else {
                    assert(m.hit(events[events.len() - 1]) == Some(p));
                }
            }
            if exists|i: int| 0 <= i < events.len() && m.hit(#[trigger] events[i]) == Some(p) {
                let i = choose|i: int|
                    0 <= i < events.len() && m.hit(#[trigger] events[i]) == Some(p);
                if i < head.len() {
                    assert(head[i] == events[i]);
                    assert(before.contains(p));
                    let k = choose|k: int| 0 <= k < before.len() && before[k] == p;
                    assert(m.crossed(events)[k] == p);
                } else {
                    assert(m.hit(events.last()) == Some(p));
                    if !before.contains(p) {
                        assert(m.crossed(events)[before.len() as int] == p);
                    }
                }
            }
        }
    } else {
        assert forall|p: PortalId| #[trigger]
            m.crossed(events).contains(p) <==> exists|i: int|
                0 <= i < events.len() && m.hit(#[trigger] events[i]) == Some(p) by {}
    }
}

/// A contact tells of the same portal whichever of its colliders comes
/// first, and of none unless it has started and one of its colliders is the
/// controlled body's.
pub proof fn lemma_hit_symmetric(m: Worlds, event: ContactEvent)
    ensures
        m.hit(event) == m.hit(
            ContactEvent {
                started: event.started,
                collider1: event.collider2,
                collider2: event.collider1,
            },
        ),
        m.hit(event) is Some ==> event.started && (m.is_body(event.collider1) || m.is_body(
            event.collider2,
        )),
        m.hit(event) matches Some(p) ==> m.handles.dom().contains(event.collider1)
            && m.handles[event.collider1] == p || m.handles.dom().contains(event.collider2)
            && m.handles[event.collider2] == p,
{
}

/// Going through a portal and back through its link arrives at the portal
/// where it began, and the two scale factors multiply to one.
pub proof fn lemma_round_trip(m: Worlds, p: PortalId)
    requires
        m.wf(),
        m.has(p),
    ensures
        m.has(m.crossing(p).link),
        m.crossing(m.crossing(p).link).link == p,
        m.crossing(p).scale.cancels(m.crossing(m.crossing(p).link).scale),
        m.crossing(p).scale.wf(),
{
    assert(m.paired(p));
    lemma_recip_cancels(m.portal(p).scale);
}

/// Whether a crossing of `id` is among `crossings`.
fn seen(crossings: &Vec<Crossing>, id: PortalId) -> (b: bool)
    ensures
        b == exists|k: int| 0 <= k < crossings@.len() && (#[trigger] crossings@[k]).portal == id,
{
    let mut k: usize = 0;
    while k < crossings.len()
        invariant
            k <= crossings@.len(),
            forall|j: int| 0 <= j < k ==> (#[trigger] crossings@[j]).portal != id,
        decreases crossings@.len() - k,
    {
        if crossings[k].portal == id {
            return true;
        }
        k = k + 1;
    }
    false
}

impl MagicLevel {
    /// Whether `collider` is one of the two colliders of the controlled
    /// body.
    fn is_body(&self, collider: Handle) -> (b: bool)
        ensures
            b == self@.is_body(collider),
    {
        collider == self.me.collider_handle || collider == self.me.body_bounding
    }

    /// The portal whose sensor one of the two colliders is, if the other is
    /// the controlled body's.
    fn sensor_of(&self, collider1: Handle, collider2: Handle) -> (p: Option<PortalId>)
        ensures
            p == self@.hit(ContactEvent { started: true, collider1, collider2 }),
    {
        let (body1, body2) = (self.is_body(collider1), self.is_body(collider2));
        if body1 && !body2 {
            self.portal_of(collider2)
        } else if body2 && !body1 {
            self.portal_of(collider1)
        } else {
            None
        }
    }

    /// Applies the contacts of one tick.
    ///
    /// Contacts that stopped are ignored, and so are those in which the
    /// controlled body does not touch the sensor of a portal. The others
    /// name a portal each; of the
    /// contacts that name one portal only the first counts. For each portal
    /// so named the result holds one crossing, in the order of the contacts,
    /// and the controlled body ends up in the world into which the last one
    /// leads.
    pub fn update(&mut self, events: &Vec<ContactEvent>) -> (crossings: Vec<Crossing>)
        requires
            old(self)@.wf(),
        ensures
            crossings@ == old(self)@.crossings(events@),
            final(self)@ == old(self)@.after(events@),
            final(self)@.wf(),
    {
        let ghost before = self@;
        let mut crossings: Vec<Crossing> = Vec::new();
        let mut i: usize = 0;
        proof {
            assert(events@.take(0) =~= Seq::<ContactEvent>::empty());
            assert(crossings@ =~= before.crossings(events@.take(0)));
        }
        while i < events.len()
            invariant
                i <= events@.len(),
                before.wf(),
                crossings@ == before.crossings(events@.take(i as int)),
                self@ == before.after(events@.take(i as int)),
            decreases events@.len() - i,
        {
            let event = events[i];
            let ghost head = events@.take(i as int);
            let ghost now = events@.take(i + 1);
            proof {
                assert(now.drop_last() =~= head);
                assert(now.last() == event);
                lemma_crossed_once(before, head);
            }
            let told = if event.started {
                self.sensor_of(event.collider1, event.collider2)
            } else {
                None
            };
            match told {
                Some(id) => {
                    let found = seen(&crossings, id);
                    proof {
                        assert(before.hit(event) == Some(id));
                        if found {
                            let k = choose|k: int|
                                0 <= k < crossings@.len() && (#[trigger] crossings@[k]).portal
                                    == id;
                            assert(before.crossed(head)[k] == id);
                        }
                        if before.crossed(head).contains(id) {
                            let k = choose|k: int|
                                0 <= k < before.crossed(head).len() && before.crossed(head)[k]
                                    == id;
                            assert(crossings@[k].portal == id);
                        }
                    }
                    if !found {
                        proof {
                            assert(before.has(id));
                            assert(before.paired(id));
                        }
                        let portal = self.levels[id.world].portals[id.index];
                        let link = portal.connecting;
                        let connecting = self.levels[link.world].portals[link.index];
                        crossings.push(Crossing { portal: id, link, scale: portal.scale });
                        self.me_world = connecting.this.world;
                        proof {
                            assert(before.paired(portal.connecting));
                        }
                    }
                },
                None => {},
            }
            proof {
                assert(crossings@ =~= before.crossings(now));
            }
            i = i + 1;
        }
        proof {
            assert(events@.take(events@.len() as int) =~= events@);
            assert(self@.wf()) by {
                assert forall|p: PortalId| self@.has(p) implies #[trigger] self@.paired(p) by {
                    assert(before.paired(p));
                }
                let crossed = before.crossed(events@);
                if crossed.len() > 0 {
                    lemma_crossed_once(before, events@);
                    assert(crossed.contains(crossed.last()));
                    let i = choose|i: int|
                        0 <= i < events@.len() && before.hit(#[trigger] events@[i]) == Some(
                            crossed.last(),
                        );
                    assert(before.has(crossed.last()));
                    assert(before.paired(crossed.last()));
                }
            }
        }
        crossings
    }
}

} // verus!
