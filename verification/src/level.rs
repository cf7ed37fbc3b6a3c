//! Worlds, their portals and the links between them.

use crate::scale::Scale;
use crate::target::PortalView;
use crate::walk::PortalId;
use std::collections::HashMap;
use vstd::prelude::*;

verus! {

/// The handle under which the physics engine knows a body or a collider: a
/// slot and the generation of its occupant.
#[derive(Clone, Copy, Debug, PartialEq, Eq, Hash, Structural)]
pub struct Handle {
    pub index: u32,
    pub generation: u32,
}

impl Handle {
    /// The handle as one number: the slot in the upper half, the generation
    /// in the lower.
    pub open spec fn spec_key(self) -> u64 {
        (self.index as int * 0x1_0000_0000 + self.generation as int) as u64
    }

    /// The handle as one number, by which the portal table is keyed.
    pub fn key(&self) -> (k: u64)
        ensures
            k == self.spec_key(),
    {
        (self.index as u64) * 0x1_0000_0000 + (self.generation as u64)
    }
}

/// Different handles have different keys, so the table of sensors, which
/// is keyed by them, keeps the sensors apart.
pub proof fn lemma_key_injective(a: Handle, b: Handle)
    ensures
        a.spec_key() == b.spec_key() <==> a == b,
{
}

/// The controlled body, as the physics engine knows it.
#[derive(Clone, Copy, Debug, PartialEq, Eq, Structural)]
pub struct Object {
    /// The rigid body.
    pub handle: Handle,
    /// The collider that bounds the body, whose extent is rescaled at every
    /// crossing.
    pub body_bounding: Handle,
    /// The collider that touches the portals' sensors.
    pub collider_handle: Handle,
}

impl Object {
    /// The controlled body with the given handles.
    pub fn new(handle: Handle, body_bounding: Handle, collider_handle: Handle) -> (me: Object)
        ensures
            me == (Object { handle, body_bounding, collider_handle }),
    {
        Object { handle, body_bounding, collider_handle }
    }
}

/// Where a portal stands: the world that owns it. Its placement inside that
/// world is kept by the embedding program, under the portal's name.
#[derive(Clone, Copy, Debug, PartialEq, Eq, Structural)]
pub struct PortalPos {
    pub world: usize,
}

/// One side of a link between two worlds.
#[derive(Clone, Copy, Debug, PartialEq, Eq, Structural)]
pub struct Portal {
    pub this: PortalPos,
    /// The portal on the other side.
    pub connecting: PortalId,
    /// Factor by which lengths grow on the way through.
    pub scale: Scale,
}

/// The portals of one world, in the order in which they were added.
pub struct Level {
    pub(crate) portals: Vec<Portal>,
}

impl View for Level {
    type V = Seq<Portal>;

    open(crate) spec fn view(&self) -> Seq<Portal> {
        self.portals@
    }
}

impl Level {
    /// A world without portals.
    pub fn new() -> (level: Level)
        ensures
            level@ == Seq::<Portal>::empty(),
    {
        Level { portals: Vec::new() }
    }

    /// Adds a portal that is not linked yet and returns its index. Until it
    /// is linked, its `connecting` names the first portal of the first world.
    pub(crate) fn add_portal(&mut self, this: PortalPos, scale: Scale) -> (idx: usize)
        ensures
            idx == old(self)@.len(),
            final(self)@ == old(self)@.push(
                Portal { this, connecting: PortalId { world: 0, index: 0 }, scale },
            ),
    {
        let idx = self.portals.len();
        self.portals.push(Portal { this, connecting: PortalId { world: 0, index: 0 }, scale });
        idx
    }

    /// Points the portal at `idx` to `to`.
    fn connect(&mut self, idx: usize, to: PortalId)
        requires
            idx < old(self)@.len(),
        ensures
            final(self)@ == old(self)@.update(
                idx as int,
                Portal { connecting: to, ..old(self)@[idx as int] },
            ),
    {
        let portal = self.portals[idx];
        self.portals[idx] = Portal { this: portal.this, connecting: to, scale: portal.scale };
    }

    /// Number of portals.
    pub fn len(&self) -> (n: usize)
        ensures
            n == self@.len(),
    {
        self.portals.len()
    }

    /// The portal at `idx`, if there is one.
    pub fn portal(&self, idx: usize) -> (p: Option<Portal>)
        ensures
            p == if idx < self@.len() {
                Some(self@[idx as int])
            } else {
                None::<Portal>
            },
    {
        if idx < self.portals.len() {
            Some(self.portals[idx])
        } else {
            None
        }
    }
}

/// A set of worlds as plain mathematics.
pub struct Worlds {
    /// For each world its portals, in the order in which they were added.
    pub portals: Seq<Seq<Portal>>,
    /// The controlled body.
    pub me: Object,
    /// The world in which the controlled body is.
    pub me_world: usize,
    /// The portal behind each sensor.
    pub handles: Map<Handle, PortalId>,
    /// The pool of offscreen targets, indexed by recursion depth.
    pub pool: Seq<PortalView>,
}

impl Worlds {
    /// Whether `p` names a portal.
    pub open spec fn has(self, p: PortalId) -> bool {
        p.world < self.portals.len() && p.index < self.portals[p.world as int].len()
    }

    /// The portal that `p` names.
    pub open spec fn portal(self, p: PortalId) -> Portal {
        self.portals[p.world as int][p.index as int]
    }

    /// The portal on the other side of `p`.
    pub open spec fn link(self, p: PortalId) -> PortalId {
        self.portal(p).connecting
    }

    /// `p` and the portal it leads to form a pair: each leads to the other,
    /// they are two portals, each is recorded under the world that owns it,
    /// and their scale factors are positive and reciprocal.
    pub open spec fn paired(self, p: PortalId) -> bool {
        let q = self.link(p);
        &&& self.has(q)
        &&& q != p
        &&& self.link(q) == p
        &&& self.portal(p).this.world == p.world
        &&& self.portal(p).scale.wf()
        &&& self.portal(q).scale == self.portal(p).scale.spec_recip()
    }

    /// Every portal is one of a pair.
    pub open spec fn linked(self) -> bool {
        forall|p: PortalId| self.has(p) ==> #[trigger] self.paired(p)
    }

    /// The number of worlds, of portals in each world and of pool entries
    /// can be held in memory.
    pub open spec fn sized(self) -> bool {
        &&& self.portals.len() <= usize::MAX
        &&& self.pool.len() <= usize::MAX
        &&& forall|w: int|
            0 <= w < self.portals.len() ==> (#[trigger] self.portals[w]).len() <= usize::MAX
    }

    /// The worlds are ready for use: every portal is linked, the controlled
    /// body is in one of the worlds, every sensor stands for a portal, and
    /// the pool is not empty and made for one output size.
    pub open spec fn wf(self) -> bool {
        &&& self.sized()
        &&& self.linked()
        &&& self.me_world < self.portals.len()
        &&& forall|h: Handle|
            self.handles.dom().contains(h) ==> self.has(#[trigger] self.handles[h])
        &&& self.pool.len() > 0
        &&& forall|i: int| 0 <= i < self.pool.len() ==> #[trigger] self.pool[i] == self.pool[0]
    }

    /// The names of the portals of world `w`, in order.
    pub open spec fn row(self, w: int) -> Seq<PortalId> {
        Seq::new(
            self.portals[w].len(),
            |i: int| PortalId { world: w as usize, index: i as usize },
        )
    }

    /// The names of the portals of the first `w` worlds, world by world.
    pub open spec fn rows(self, w: int) -> Seq<PortalId>
        decreases w,
    {
        if w <= 0 {
            Seq::empty()
        } else {
            self.rows(w - 1) + self.row(w - 1)
        }
    }

    /// The names of all portals, world by world.
    pub open spec fn all_portals(self) -> Seq<PortalId> {
        self.rows(self.portals.len() as int)
    }

    /// For each portal of `all_portals`, the portal it leads to.
    pub open spec fn all_links(self) -> Seq<PortalId> {
        Seq::new(self.all_portals().len(), |i: int| self.link(self.all_portals()[i]))
    }

    /// The worlds after a pair of portals was added: one in world `w1`,
    /// behind the sensor `h1`, with scale factor `scale`, and its
    /// counterpart in world `w2`, behind the sensor `h2`, with the
    /// reciprocal.
    pub open spec fn with_pair(
        self,
        w1: usize,
        w2: usize,
        h1: Handle,
        h2: Handle,
        scale: Scale,
    ) -> Worlds {
        let i1 = self.portals[w1 as int].len();
        let i2 = if w1 == w2 {
            i1 + 1
        } else {
            self.portals[w2 as int].len()
        };
        let id1 = PortalId { world: w1, index: i1 as usize };
        let id2 = PortalId { world: w2, index: i2 as usize };
        let first = Portal { this: PortalPos { world: w1 }, connecting: id2, scale };
        let second = Portal {
            this: PortalPos { world: w2 },
            connecting: id1,
            scale: scale.spec_recip(),
        };
        let with_first = self.portals.update(w1 as int, self.portals[w1 as int].push(first));
        Worlds {
            portals: with_first.update(w2 as int, with_first[w2 as int].push(second)),
            handles: self.handles.insert(h1, id1).insert(h2, id2),
            ..self
        }
    }
}

/// A set of worlds joined by portals, the controlled body that moves
/// through them, and the pool of offscreen targets for rendering them.
pub struct MagicLevel {
    pub(crate) levels: Vec<Level>,
    pub(crate) me: Object,
    pub(crate) me_world: usize,
    /// (Col world, portal index)
    pub(crate) portals_map: HashMap<u64, PortalId>,
    pub(crate) portal_views: Vec<PortalView>,
}

impl View for MagicLevel {
    type V = Worlds;

    open(crate) spec fn view(&self) -> Worlds {
        Worlds {
            portals: Seq::new(self.levels@.len(), |w: int| self.levels@[w]@),
            me: self.me,
            me_world: self.me_world,
            handles: Map::new(
                |h: Handle| self.portals_map@.dom().contains(h.spec_key()),
                |h: Handle| self.portals_map@[h.spec_key()],
            ),
            pool: self.portal_views@,
        }
    }
}

impl MagicLevel {
    /// What is held in memory has a size that fits.
    pub(crate) proof fn lemma_sized(&self)
        ensures
            self@.sized(),
    {
        assert(self.levels.len() == self.levels@.len());
        assert(self.portal_views.len() == self.portal_views@.len());
        let rows = self@.portals;
        assert forall|w: int| 0 <= w < rows.len() implies (#[trigger] rows[w]).len()
            <= usize::MAX by {
            assert(self.levels@[w].portals.len() == self.levels@[w].portals@.len());
        }
    }

    /// `worlds` worlds without portals, the controlled body `me` in the
    /// first of them, and a pool of `views` entries for an output of `width`
    /// by `height` pixels.
    pub fn new(worlds: usize, me: Object, views: usize, width: u32, height: u32) -> (level:
        MagicLevel)
        requires
            worlds >= 1,
            views >= 1,
        ensures
            level@.wf(),
            level@ == (Worlds {
                portals: Seq::new(worlds as nat, |w: int| Seq::<Portal>::empty()),
                me,
                me_world: 0,
                handles: Map::<Handle, PortalId>::empty(),
                pool: Seq::new(views as nat, |i: int| PortalView::spec_new(width, height)),
            }),
    {
        let mut levels: Vec<Level> = Vec::new();
        let mut w: usize = 0;
        while w < worlds
            invariant
                w <= worlds,
                levels@.len() == w,
                forall|i: int| 0 <= i < w ==> (#[trigger] levels@[i])@ == Seq::<Portal>::empty(),
            decreases worlds - w,
        {
            levels.push(Level::new());
            w = w + 1;
        }
        let mut portal_views: Vec<PortalView> = Vec::new();
        let mut i: usize = 0;
        while i < views
            invariant
                i <= views,
                portal_views@.len() == i,
                forall|k: int|
                    0 <= k < i ==> #[trigger] portal_views@[k] == PortalView::spec_new(
                        width,
                        height,
                    ),
            decreases views - i,
        {
            portal_views.push(PortalView::new(width, height));
            i = i + 1;
        }
        let level = MagicLevel {
            levels,
            me,
            me_world: 0,
            portals_map: HashMap::new(),
            portal_views,
        };
        proof {
            assert(level@.portals =~= Seq::new(worlds as nat, |w: int| Seq::<Portal>::empty()));
            assert(level@.pool =~= Seq::new(
                views as nat,
                |i: int| PortalView::spec_new(width, height),
            ));
            assert(level@.handles =~= Map::<Handle, PortalId>::empty());
            level.lemma_sized();
        }
        level
    }

    /// Number of worlds.
    pub fn world_count(&self) -> (n: usize)
        ensures
            n == self@.portals.len(),
    {
        self.levels.len()
    }

    /// Number of portals of world `world`, or zero if there is no such world.
    pub fn portal_count(&self, world: usize) -> (n: usize)
        ensures
            n == if world < self@.portals.len() {
                self@.portals[world as int].len()
            } else {
                0
            },
    {
        if world < self.levels.len() {
            self.levels[world].len()
        } else {
            0
        }
    }

    /// The portal that `id` names, if it names one.
    pub fn portal(&self, id: PortalId) -> (p: Option<Portal>)
        ensures
            p == if self@.has(id) {
                Some(self@.portal(id))
            } else {
                None::<Portal>
            },
    {
        if id.world < self.levels.len() {
            self.levels[id.world].portal(id.index)
        } else {
            None
        }
    }

    /// The world in which the controlled body is.
    pub fn me_world(&self) -> (w: usize)
        ensures
            w == self@.me_world,
    {
        self.me_world
    }

    /// The controlled body.
    pub fn me(&self) -> (me: Object)
        ensures
            me == self@.me,
    {
        self.me
    }

    /// The portal behind the sensor `sensor`, if the sensor is a portal's.
    pub fn portal_of(&self, sensor: Handle) -> (p: Option<PortalId>)
        ensures
            p == if self@.handles.dom().contains(sensor) {
                Some(self@.handles[sensor])
            } else {
                None::<PortalId>
            },
    {
        let key = sensor.key();
        match self.portals_map.get(&key) {
            Some(id) => Some(*id),
            None => None,
        }
    }

    /// Number of entries of the pool of offscreen targets, which bounds how
    /// deep a render looks through portals.
    pub fn pool_size(&self) -> (n: usize)
        ensures
            n == self@.pool.len(),
    {
        self.portal_views.len()
    }

    /// The pool entry for recursion depth `depth`, if there is one.
    pub fn portal_view(&self, depth: usize) -> (v: Option<PortalView>)
        ensures
            v == if depth < self@.pool.len() {
                Some(self@.pool[depth as int])
            } else {
                None::<PortalView>
            },
    {
        if depth < self.portal_views.len() {
            Some(self.portal_views[depth])
        } else {
            None
        }
    }

    /// Adds a portal to world `first.world` and its counterpart to world
    /// `second.world`, links the two, and returns their names. The first
    /// gets the scale factor `scale`, the second its reciprocal. `handle1`
    /// and `handle2` are the handles of the sensors that the physics engine
    /// holds for them.
    pub fn add_portal(
        &mut self,
        first: PortalPos,
        second: PortalPos,
        handle1: Handle,
        handle2: Handle,
        scale: Scale,
    ) -> (pair: (PortalId, PortalId))
        requires
            old(self)@.wf(),
            first.world < old(self)@.portals.len(),
            second.world < old(self)@.portals.len(),
            scale.wf(),
        ensures
            final(self)@ == old(self)@.with_pair(
                first.world,
                second.world,
                handle1,
                handle2,
                scale,
            ),
            final(self)@.wf(),
            pair.0 == (PortalId {
                world: first.world,
                index: old(self)@.portals[first.world as int].len() as usize,
            }),
            final(self)@.has(pair.0),
            pair.1 == final(self)@.link(pair.0),
    {
        let ghost before = self@;
        let idx = self.levels[first.world].add_portal(first, scale);
        let idx2 = self.levels[second.world].add_portal(second, scale.recip());
        let id1 = PortalId { world: first.world, index: idx };
        let id2 = PortalId { world: second.world, index: idx2 };
        self.levels[first.world].connect(idx, id2);
        self.levels[second.world].connect(idx2, id1);
        self.portals_map.insert(handle1.key(), id1);
        self.portals_map.insert(handle2.key(), id2);
        proof {
            let after = before.with_pair(first.world, second.world, handle1, handle2, scale);
            assert(self@.portals =~= after.portals) by {
                assert forall|w: int| 0 <= w < self@.portals.len() implies self@.portals[w]
                    =~= after.portals[w] by {}
            }
            assert(self@.handles =~= after.handles) by {
                assert forall|h: Handle|
                    self@.handles.dom().contains(h) <==> after.handles.dom().contains(h) by {
                    lemma_key_injective(h, handle1);
                    lemma_key_injective(h, handle2);
                }
                assert forall|h: Handle| self@.handles.dom().contains(h) implies self@.handles[h]
                    == after.handles[h] by {
                    lemma_key_injective(h, handle1);
                    lemma_key_injective(h, handle2);
                }
            }
            self.lemma_sized();
            lemma_with_pair_wf(before, first.world, second.world, handle1, handle2, scale);
        }
        (id1, id2)
    }
}

/// Adding a pair of portals keeps the worlds ready for use.
pub proof fn lemma_with_pair_wf(
    m: Worlds,
    w1: usize,
    w2: usize,
    h1: Handle,
    h2: Handle,
    scale: Scale,
)
    requires
        m.wf(),
        w1 < m.portals.len(),
        w2 < m.portals.len(),
        scale.wf(),
        m.with_pair(w1, w2, h1, h2, scale).sized(),
    ensures
        m.with_pair(w1, w2, h1, h2, scale).wf(),
{
    let after = m.with_pair(w1, w2, h1, h2, scale);
    let i1 = m.portals[w1 as int].len();
    let i2 = if w1 == w2 {
        i1 + 1
    } else {
        m.portals[w2 as int].len()
    };
    let id1 = PortalId { world: w1, index: i1 as usize };
    let id2 = PortalId { world: w2, index: i2 as usize };
    assert(after.portals[w1 as int].len() <= usize::MAX);
    assert(after.portals[w2 as int].len() <= usize::MAX);
    assert forall|p: PortalId| after.has(p) implies #[trigger] after.paired(p) by {
        if p == id1 {
        } else if p == id2 {
        } else {
            assert(m.has(p));
            assert(m.paired(p));
            assert(after.portal(p) == m.portal(p));
            assert(after.portal(m.link(p)) == m.portal(m.link(p)));
        }
    }
    assert forall|h: Handle| after.handles.dom().contains(h) implies after.has(
        #[trigger] after.handles[h],
    ) by {
        if h != h1 && h != h2 {
            assert(m.has(m.handles[h]));
        }
    }
}

} // verus!
