//! Rendering a set of worlds: the pool of offscreen targets and the walks
//! that order the passes.

use crate::level::{MagicLevel, Worlds};
use crate::plan::{Sight, lemma_start_has_whole_plan};
use crate::target::PortalView;
use crate::walk::{
    Origin, Phase, PortalId, RenderAction, RenderWalk, Sighting, Target, WalkState,
};
use vstd::prelude::*;

verus! {

impl Worlds {
    /// The pool for an output of `width` by `height` pixels: the pool as it
    /// is if it was made for that size, else one of the same length made
    /// anew.
    pub open spec fn pool_for(self, width: u32, height: u32) -> Seq<PortalView> {
        if self.pool[0].spec_fits(width, height) {
            self.pool
        } else {
            Seq::new(self.pool.len(), |i: int| PortalView::spec_new(width, height))
        }
    }

    /// The action speaks of worlds, portals and pool entries that exist, and
    /// of a view that is entered through a portal as lying behind the link of
    /// that portal.
    pub open spec fn names(self, action: RenderAction) -> bool {
        match action {
            RenderAction::World { world } => world < self.portals.len(),
            RenderAction::Probe { portal, entered } => {
                &&& self.has(portal)
                &&& entered != Some(portal)
                &&& entered matches Some(e) ==> self.has(e)
            },
            RenderAction::Enter { through, entry, depth } => {
                &&& self.has(through)
                &&& entry == self.link(through)
                &&& depth < self.pool.len()
            },
            RenderAction::Composite { portal, depth, onto } => {
                &&& self.has(portal)
                &&& depth < self.pool.len()
                &&& onto matches Target::Pool(parent) ==> parent + 1 == depth
            },
            RenderAction::Done => true,
        }
    }
}

impl WalkState {
    /// The walk is one over the worlds `m`.
    pub open spec fn on(self, m: Worlds) -> bool {
        &&& self.order == m.all_portals()
        &&& self.links == m.all_links()
        &&& self.pool == m.pool.len()
        &&& match self.origin {
            Origin::Screen { world } => world < m.portals.len(),
            Origin::View { through, entry, depth } => {
                &&& m.has(through)
                &&& entry == m.link(through)
                &&& depth < m.pool.len()
            },
        }
    }
}

/// The names of the portals of the first `w` worlds are those of the
/// portals that these worlds have, each once.
pub proof fn lemma_rows(m: Worlds, w: int)
    requires
        m.sized(),
        0 <= w <= m.portals.len(),
    ensures
        forall|p: PortalId| #[trigger] m.rows(w).contains(p) <==> m.has(p) && p.world < w,
        m.rows(w).no_duplicates(),
    decreases w,
{
    if w > 0 {
        lemma_rows(m, w - 1);
        let before = m.rows(w - 1);
        let row = m.row(w - 1);
        assert(m.portals[w - 1].len() <= usize::MAX);
        assert forall|p: PortalId| #[trigger] m.rows(w).contains(p) <==> m.has(p) && p.world
            < w by {
            if m.rows(w).contains(p) {
                let i = choose|i: int| 0 <= i < m.rows(w).len() && m.rows(w)[i] == p;
                if i < before.len() {
                    assert(before.contains(p));
                } else {
                    assert(p == row[i - before.len()]);
                }
            }
            if m.has(p) && p.world < w {
                if p.world < w - 1 {
                    assert(before.contains(p));
                    let i = choose|i: int| 0 <= i < before.len() && before[i] == p;
                    assert(m.rows(w)[i] == p);
                } else {
                    assert(row[p.index as int] == p);
                    assert(m.rows(w)[before.len() + p.index] == p);
                }
            }
        }
        assert forall|i: int, j: int|
            0 <= i < m.rows(w).len() && 0 <= j < m.rows(w).len() && i != j implies m.rows(w)[i]
            != m.rows(w)[j] by {
            if i < before.len() {
                assert(before.contains(m.rows(w)[i]));
            }
            if j < before.len() {
                assert(before.contains(m.rows(w)[j]));
            }
        }
    }
}

/// Every portal is in the order in which views consider the portals, once,
/// and nothing else is.
pub proof fn lemma_all_portals(m: Worlds)
    requires
        m.sized(),
    ensures
        forall|p: PortalId| #[trigger] m.all_portals().contains(p) <==> m.has(p),
        m.all_portals().no_duplicates(),
        m.all_portals().len() == m.all_links().len(),
{
    lemma_rows(m, m.portals.len() as int);
}

/// A walk over a set of worlds stays one, and every action that it hands
/// out speaks of what these worlds hold.
pub proof fn lemma_step_names(m: Worlds, s: WalkState, reply: Sighting)
    requires
        m.wf(),
        s.wf(),
        s.on(m),
    ensures
        s.step(reply).0.on(m),
        m.names(s.step(reply).1),
{
    lemma_all_portals(m);
    let t = s.stack.len() - 1;
    let f = s.stack[t];
    let (s2, action) = s.step(reply);
    assert(s.frame_ok(t));
    assert forall|i: int| 0 <= i < s.order.len() implies m.has(#[trigger] s.order[i]) && m.has(
        s.links[i],
    ) by {
        assert(m.all_portals().contains(s.order[i]));
        assert(m.paired(s.order[i]));
    }
    assert(f.entry matches Some(e) ==> m.has(e)) by {
        if t > 0 {
            assert(m.has(s.links[s.stack[t - 1].next as int]));
        } else {
            match s.origin {
                Origin::Screen { .. } => {},
                Origin::View { through, .. } => {
                    assert(m.paired(through));
                },
            }
        }
    }
    match s.phase {
        Phase::Start => {},
        Phase::Scan => {
            crate::plan::lemma_skip_entry_bounds(s.order, f.entry, f.next as int);
        },
        Phase::Asked => {
            if !reply.spec_worth_entering(f.entry) {
                crate::plan::lemma_skip_entry_bounds(s.order, f.entry, f.next + 1);
            }
        },
        Phase::Finished => {},
    }
}

impl MagicLevel {
    /// The names of all portals, world by world: the order in which the
    /// apertures are drawn when all of them are drawn.
    pub fn render_portal(&self) -> (order: Vec<PortalId>)
        ensures
            order@ == self@.all_portals(),
    {
        let mut order: Vec<PortalId> = Vec::new();
        let mut world: usize = 0;
        let worlds = self.world_count();
        while world < worlds
            invariant
                world <= worlds,
                worlds == self@.portals.len(),
                order@ == self@.rows(world as int),
            decreases worlds - world,
        {
            let count = self.portal_count(world);
            let mut index: usize = 0;
            while index < count
                invariant
                    index <= count,
                    world < worlds,
                    worlds == self@.portals.len(),
                    count == self@.portals[world as int].len(),
                    order@ == self@.rows(world as int) + self@.row(world as int).take(
                        index as int,
                    ),
                decreases count - index,
            {
                order.push(PortalId { world, index });
                proof {
                    let row = self@.row(world as int);
                    assert(row.take(index + 1) =~= row.take(index as int).push(row[index as int]));
                }
                index = index + 1;
            }
            proof {
                let row = self@.row(world as int);
                assert(row.take(count as int) =~= row);
            }
            world = world + 1;
        }
        order
    }

    /// For each portal of `order`, the portal it leads to.
    fn links_of(&self, order: &Vec<PortalId>) -> (links: Vec<PortalId>)
        requires
            self@.wf(),
            order@ == self@.all_portals(),
        ensures
            links@ == self@.all_links(),
    {
        let mut links: Vec<PortalId> = Vec::new();
        let mut i: usize = 0;
        proof {
            lemma_all_portals(self@);
        }
        while i < order.len()
            invariant
                i <= order@.len(),
                order@ == self@.all_portals(),
                links@.len() == i,
                forall|p: PortalId| #[trigger] self@.all_portals().contains(p) <==> self@.has(p),
                forall|k: int| 0 <= k < i ==> #[trigger] links@[k] == self@.link(order@[k]),
            decreases order@.len() - i,
        {
            let id = order[i];
            proof {
                assert(self@.all_portals().contains(id));
            }
            match self.portal(id) {
                Some(portal) => {
                    links.push(portal.connecting);
                },
                None => {
                    proof {
                        assert(false);
                    }
                },
            }
            i = i + 1;
        }
        proof {
            assert(links@ =~= self@.all_links());
        }
        links
    }

    /// Begins the render of a frame for an output of `width` by `height`
    /// pixels.
    ///
    /// If the pool was made for another output size, every entry is made
    /// anew for this one. The walk that is returned starts from the
    /// controlled body's own view of the world it is in.
    pub fn render(&mut self, width: u32, height: u32) -> (walk: RenderWalk)
        requires
            old(self)@.wf(),
        ensures
            final(self)@ == (Worlds { pool: old(self)@.pool_for(width, height), ..old(self)@ }),
            final(self)@.wf(),
            walk@ == WalkState::start(
                final(self)@.all_portals(),
                final(self)@.all_links(),
                final(self)@.pool.len(),
                Origin::Screen { world: final(self)@.me_world },
            ),
            walk@.wf(),
            walk@.on(final(self)@),
            forall|vis: Sight| #[trigger] walk@.remaining(vis) == walk@.rendering(vis),
    {
        let ghost before = self@;
        if !self.portal_views[0].fits(width, height) {
            let n = self.portal_views.len();
            let mut i: usize = 0;
            while i < n
                invariant
                    i <= n,
                    n == self.portal_views@.len(),
                    n == before.pool.len(),
                    forall|k: int|
                        0 <= k < i ==> #[trigger] self.portal_views@[k] == PortalView::spec_new(
                            width,
                            height,
                        ),
                    self.levels == old(self).levels,
                    self.me == old(self).me,
                    self.me_world == old(self).me_world,
                    self.portals_map == old(self).portals_map,
                decreases n - i,
            {
                self.portal_views[i] = PortalView::new(width, height);
                i = i + 1;
            }
        }
        proof {
            assert(self@.pool =~= before.pool_for(width, height));
            assert(self@.portals =~= before.portals);
            assert(self@.wf()) by {
                assert forall|p: PortalId| self@.has(p) implies #[trigger] self@.paired(p) by {
                    assert(before.paired(p));
                }
            }
        }
        let order = self.render_portal();
        let links = self.links_of(&order);
        let pool = self.portal_views.len();
        let origin = Origin::Screen { world: self.me_world };
        proof {
            assert forall|vis: Sight|
                (#[trigger] WalkState::start(order@, links@, pool as nat, origin).remaining(vis))
                    == WalkState::start(order@, links@, pool as nat, origin).rendering(vis) by {
                lemma_start_has_whole_plan(order@, links@, pool as nat, origin, vis);
            }
        }
        RenderWalk::new(order, links, pool, origin)
    }

    /// The walk for the view that arrives at the portal `entry` and is
    /// drawn into pool entry `rec_dep`: first that view, then, as far as the
    /// pool allows, the views behind the portals seen from it. `None` if
    /// there is no such portal or no such pool entry.
    pub fn render_in_portal(&self, entry: PortalId, rec_dep: usize) -> (walk: Option<RenderWalk>)
        requires
            self@.wf(),
        ensures
            walk is Some <==> self@.has(entry) && rec_dep < self@.pool.len(),
            walk matches Some(w) ==> {
                &&& w@ == WalkState::start(
                    self@.all_portals(),
                    self@.all_links(),
                    self@.pool.len(),
                    Origin::View { through: self@.link(entry), entry, depth: rec_dep },
                )
                &&& w@.wf()
                &&& w@.on(self@)
                &&& forall|vis: Sight| #[trigger] w@.remaining(vis) == w@.rendering(vis)
            },
    {
        if rec_dep >= self.portal_views.len() {
            return None;
        }
        match self.portal(entry) {
            None => None,
            Some(portal) => {
                let order = self.render_portal();
                let links = self.links_of(&order);
                let pool = self.portal_views.len();
                let origin = Origin::View { through: portal.connecting, entry, depth: rec_dep };
                proof {
                    assert(self@.paired(entry));
                    assert forall|vis: Sight|
                        (#[trigger] WalkState::start(order@, links@, pool as nat, origin).remaining(
                            vis,
                        )) == WalkState::start(order@, links@, pool as nat, origin).rendering(
                            vis,
                        ) by {
                        lemma_start_has_whole_plan(order@, links@, pool as nat, origin, vis);
                    }
                }
                Some(RenderWalk::new(order, links, pool, origin))
            },
        }
    }
}

} // verus!
