//! The walk that orders the passes of a recursive portal render.
//!
//! Looking through a portal shows the linked world, in which further portals
//! may be seen, and so on. A [`RenderWalk`] turns that recursion into a
//! sequence of [`RenderAction`]s, one per call of [`RenderWalk::step`]. The
//! embedding program carries each action out and, after a
//! [`RenderAction::Probe`], reports what it found at the portal. How deep the
//! walk goes is bounded by the size of the pool of offscreen targets, so it
//! ends on every portal graph, cyclic ones included.

use crate::plan::{
    Sight, lemma_skip_entry_bounds, lemma_step_follows_plan, lemma_step_keeps_wf,
    lemma_step_lowers_budget,
};
use vstd::prelude::*;

verus! {

/// Names a portal: the world that owns it and its place in that world's
/// list of portals.
#[derive(Clone, Copy, Debug, PartialEq, Eq, Hash, Structural)]
pub struct PortalId {
    pub world: usize,
    pub index: usize,
}

/// Whether a quad is in front of the viewpoint: at least one of its four
/// corners has a projected depth inside the range of the view. What the
/// corners project to sideways plays no part.
pub open spec fn spec_will_see_face(corners: [bool; 4]) -> bool {
    corners[0] || corners[1] || corners[2] || corners[3]
}

/// Whether a quad is in front of the viewpoint. `corners` says for each
/// corner whether its projected depth lies inside the range of the view.
pub fn will_see_face(corners: &[bool; 4]) -> (front: bool)
    ensures
        front == spec_will_see_face(*corners),
{
    let mut front = false;
    let mut i: usize = 0;
    while i < 4
        invariant
            i <= 4,
            front == (exists|k: int| 0 <= k < i && corners[k]),
        decreases 4 - i,
    {
        if corners[i] {
            front = true;
        }
        i = i + 1;
    }
    front
}

/// What the embedding program finds when it looks at a portal from the
/// current viewpoint: the outcome of each test of the visibility heuristic.
#[derive(Clone, Copy, Debug, PartialEq, Eq)]
pub struct Sighting {
    /// For each corner of the aperture, whether it projects to a depth
    /// inside the range of the view.
    pub corners: [bool; 4],
    /// The portal is no farther from the viewpoint along the vertical axis
    /// than the fixed reach.
    pub in_reach: bool,
    /// The direction from the viewpoint to the portal does not point
    /// against the direction from the viewpoint to the entered aperture.
    pub along_entry: bool,
}

impl Sighting {
    /// Whether a portal so seen is worth entering from a view that looks
    /// through `entered`: its face is seen and it is in reach, and, where the
    /// view looks through an aperture, it lies the way of that aperture.
    pub open spec fn spec_worth_entering(self, entered: Option<PortalId>) -> bool {
        spec_will_see_face(self.corners) && self.in_reach && (entered is None
            || self.along_entry)
    }

    /// Whether a portal so seen is worth entering from a view that looks
    /// through `entered`.
    pub fn worth_entering(&self, entered: Option<PortalId>) -> (b: bool)
        ensures
            b == self.spec_worth_entering(entered),
    {
        will_see_face(&self.corners) && self.in_reach && (entered.is_none() || self.along_entry)
    }
}

/// Where a pass draws.
#[derive(Clone, Copy, Debug, PartialEq, Eq, Structural)]
pub enum Target {
    /// The main colour and depth target.
    Screen,
    /// The offscreen targets of the pool entry with this index.
    Pool(usize),
}

/// One unit of work for the embedding program.
#[derive(Clone, Copy, Debug, PartialEq, Eq, Structural)]
pub enum RenderAction {
    /// Clear the screen and draw the static geometry of `world`.
    World { world: usize },
    /// Look at `portal` from the current viewpoint. `entered` is the
    /// aperture through which the current view looks, if any. What is found
    /// is the argument of the next step.
    Probe { portal: PortalId, entered: Option<PortalId> },
    /// Move the viewpoint through `through` to its link `entry`, draw the
    /// silhouette of `entry` into the depth-only target of pool entry
    /// `depth`, then draw the world of `entry` into that entry's colour and
    /// depth targets.
    Enter { through: PortalId, entry: PortalId, depth: usize },
    /// Return to the viewpoint in front of `portal` and draw its aperture
    /// into `onto`, textured with the colour target of pool entry `depth`.
    Composite { portal: PortalId, depth: usize, onto: Target },
    /// Nothing is left to do.
    Done,
}

/// What a walk starts from.
#[derive(Clone, Copy, Debug, PartialEq, Eq, Structural)]
pub enum Origin {
    /// The controlled body's own view of `world`, drawn to the screen.
    Screen { world: usize },
    /// The view that arrives at `entry` after passing `through`, drawn into
    /// pool entry `depth`.
    View { through: PortalId, entry: PortalId, depth: usize },
}

/// One view on the way from the origin to the view being scanned.
#[derive(Clone, Copy, Debug, PartialEq, Eq, Structural)]
pub struct Frame {
    /// The aperture through which this view looks; `None` for the screen.
    pub entry: Option<PortalId>,
    /// Index, in the walk's portal order, of the next portal to consider.
    pub next: usize,
}

/// What the next step of a walk does first.
#[derive(Clone, Copy, Debug, PartialEq, Eq, Structural)]
pub enum Phase {
    /// Nothing was handed out yet.
    Start,
    /// The innermost view looks for its next portal.
    Scan,
    /// A probe was handed out and its answer is awaited.
    Asked,
    /// `Done` was handed out.
    Finished,
}

/// The first index at or after `from` whose portal is not `entry`, or the
/// length of `order` if there is none.
pub open spec fn skip_entry(
    order: Seq<PortalId>,
    entry: Option<PortalId>,
    from: int,
) -> int
    decreases order.len() - from,
{
    if from < 0 || from >= order.len() {
        order.len() as int
    } else if entry == Some(order[from]) {
        skip_entry(order, entry, from + 1)
    } else {
        from
    }
}

/// The mathematical state of a walk.
pub struct WalkState {
    /// Every portal of every world, in the order in which views consider them.
    pub order: Seq<PortalId>,
    /// `links[i]` is the portal that `order[i]` leads to.
    pub links: Seq<PortalId>,
    /// Number of offscreen target sets.
    pub pool: nat,
    /// What the walk started from.
    pub origin: Origin,
    /// The views from the origin (first) to the one being scanned (last).
    pub stack: Seq<Frame>,
    /// What the next step does first.
    pub phase: Phase,
}

impl WalkState {
    /// Pool index into which the views entered from the origin are drawn.
    pub open spec fn base(self) -> int {
        match self.origin {
            Origin::Screen { .. } => 0,
            Origin::View { depth, .. } => depth + 1,
        }
    }

    /// Where the view of frame `k` is drawn.
    pub open spec fn target(self, k: int) -> Target {
        if k == 0 {
            match self.origin {
                Origin::Screen { .. } => Target::Screen,
                Origin::View { depth, .. } => Target::Pool(depth),
            }
        } else {
            Target::Pool((self.base() + k - 1) as usize)
        }
    }

    /// The portals passed, in order, to get from the origin to frame `k`.
    pub open spec fn path(self, k: int) -> Seq<PortalId> {
        Seq::new(k as nat, |i: int| self.order[self.stack[i].next as int])
    }

    /// The action that opens the walk.
    pub open spec fn prologue(self) -> RenderAction {
        match self.origin {
            Origin::Screen { world } => RenderAction::World { world },
            Origin::View { through, entry, depth } => RenderAction::Enter { through, entry, depth },
        }
    }

    /// The entry of the outermost frame, as the origin fixes it.
    pub open spec fn origin_entry(self) -> Option<PortalId> {
        match self.origin {
            Origin::Screen { .. } => None,
            Origin::View { entry, .. } => Some(entry),
        }
    }

    /// Frame `k` has a position in the portal order, and looks through the
    /// link of the portal at which the frame before it stands.
    pub open spec fn frame_ok(self, k: int) -> bool {
        &&& self.stack[k].next <= self.order.len()
        &&& k > 0 ==> {
            &&& self.stack[k - 1].next < self.order.len()
            &&& self.stack[k].entry == Some(self.links[self.stack[k - 1].next as int])
        }
    }

    /// The state is one that a walk can be in. In particular there are
    /// never more views open than the pool has room for.
    pub open spec fn wf(self) -> bool {
        &&& self.order.len() == self.links.len()
        &&& self.order.len() <= usize::MAX
        &&& self.pool <= usize::MAX
        &&& self.base() <= self.pool
        &&& self.stack.len() >= 1
        &&& self.base() + self.stack.len() <= self.pool + 1
        &&& self.stack[0].entry == self.origin_entry()
        &&& forall|k: int| 0 <= k < self.stack.len() ==> #[trigger] self.frame_ok(k)
        &&& self.phase == Phase::Start ==> self.stack.len() == 1 && self.stack[0].next == 0
        &&& self.phase == Phase::Asked ==> {
            let top = self.stack.last();
            &&& top.next < self.order.len()
            &&& top.entry != Some(self.order[top.next as int])
            &&& self.base() + self.stack.len() <= self.pool
        }
    }

    /// The state in which a walk from `origin` begins.
    pub open spec fn start(
        order: Seq<PortalId>,
        links: Seq<PortalId>,
        pool: nat,
        origin: Origin,
    ) -> WalkState {
        let entry = match origin {
            Origin::Screen { .. } => None,
            Origin::View { entry, .. } => Some(entry),
        };
        WalkState {
            order,
            links,
            pool,
            origin,
            stack: seq![Frame { entry, next: 0 }],
            phase: Phase::Start,
        }
    }

    /// The innermost view looks for its next portal: it probes the first one
    /// that is not its own entry, if deeper views are allowed; with none
    /// left, it is composited into the view before it, or the walk is done.
    pub open spec fn scan(self) -> (WalkState, RenderAction) {
        let t = self.stack.len() - 1;
        let f = self.stack[t];
        let j = if self.base() + t < self.pool {
            skip_entry(self.order, f.entry, f.next as int)
        } else {
            self.order.len() as int
        };
        if j < self.order.len() {
            (
                WalkState {
                    stack: self.stack.update(t, Frame { entry: f.entry, next: j as usize }),
                    phase: Phase::Asked,
                    ..self
                },
                RenderAction::Probe { portal: self.order[j], entered: f.entry },
            )
        } else if t == 0 {
            (WalkState { phase: Phase::Finished, ..self }, RenderAction::Done)
        } else {
            let parent = self.stack[t - 1];
            (
                WalkState {
                    stack: self.stack.drop_last().update(
                        t - 1,
                        Frame { entry: parent.entry, next: (parent.next + 1) as usize },
                    ),
                    phase: Phase::Scan,
                    ..self
                },
                RenderAction::Composite {
                    portal: self.order[parent.next as int],
                    depth: (self.base() + t - 1) as usize,
                    onto: self.target(t - 1),
                },
            )
        }
    }

    /// One step of the walk: the state after it and the action it hands out.
    /// `reply` is read only when a probe is awaiting its answer.
    pub open spec fn step(self, reply: Sighting) -> (WalkState, RenderAction) {
        let t = self.stack.len() - 1;
        let f = self.stack[t];
        match self.phase {
            Phase::Start => (WalkState { phase: Phase::Scan, ..self }, self.prologue()),
            Phase::Scan => self.scan(),
            Phase::Asked => if reply.spec_worth_entering(f.entry) {
                (
                    WalkState {
                        stack: self.stack.push(
                            Frame { entry: Some(self.links[f.next as int]), next: 0 },
                        ),
                        phase: Phase::Scan,
                        ..self
                    },
                    RenderAction::Enter {
                        through: self.order[f.next as int],
                        entry: self.links[f.next as int],
                        depth: (self.base() + t) as usize,
                    },
                )
            } else {
                (WalkState {
                    stack: self.stack.update(
                        t,
                        Frame { entry: f.entry, next: (f.next + 1) as usize },
                    ),
                    phase: Phase::Scan,
                    ..self
                }).scan()
            },
            Phase::Finished => (self, RenderAction::Done),
        }
    }
}

/// A walk in progress.
pub struct RenderWalk {
    order: Vec<PortalId>,
    links: Vec<PortalId>,
    pool: usize,
    origin: Origin,
    stack: Vec<Frame>,
    phase: Phase,
}

impl View for RenderWalk {
    type V = WalkState;

    closed spec fn view(&self) -> WalkState {
        WalkState {
            order: self.order@,
            links: self.links@,
            pool: self.pool as nat,
            origin: self.origin,
            stack: self.stack@,
            phase: self.phase,
        }
    }
}

impl RenderWalk {
    /// A walk from `origin` over the portals `order`, where `links[i]` is
    /// the far side of `order[i]`, with `pool` offscreen target sets.
    pub(crate) fn new(
        order: Vec<PortalId>,
        links: Vec<PortalId>,
        pool: usize,
        origin: Origin,
    ) -> (walk: RenderWalk)
        requires
            order@.len() == links@.len(),
            origin matches Origin::View { depth, .. } ==> depth < pool,
        ensures
            walk@ == WalkState::start(order@, links@, pool as nat, origin),
            walk@.wf(),
    {
        let entry = match origin {
            Origin::Screen { .. } => None,
            Origin::View { entry, .. } => Some(entry),
        };
        let mut stack: Vec<Frame> = Vec::new();
        stack.push(Frame { entry, next: 0 });
        let walk = RenderWalk { order, links, pool, origin, stack, phase: Phase::Start };
        proof {
            assert(walk@.stack =~= seq![Frame { entry, next: 0 }]);
            assert(walk.order.len() == walk@.order.len());
            assert(walk@.frame_ok(0));
        }
        walk
    }

    /// Pool index into which the views entered from the origin are drawn.
    fn base(&self) -> (b: usize)
        requires
            self@.wf(),
        ensures
            b == self@.base(),
    {
        match self.origin {
            Origin::Screen { .. } => 0,
            Origin::View { depth, .. } => depth + 1,
        }
    }

    /// Where the view of frame `k` is drawn.
    fn target(&self, k: usize) -> (t: Target)
        requires
            self@.wf(),
            k < self@.stack.len(),
        ensures
            t == self@.target(k as int),
    {
        if k == 0 {
            match self.origin {
                Origin::Screen { .. } => Target::Screen,
                Origin::View { depth, .. } => Target::Pool(depth),
            }
        } else {
            Target::Pool(self.base() + k - 1)
        }
    }

    /// The scan of the innermost view.
    fn scan(&mut self) -> (action: RenderAction)
        requires
            old(self)@.wf(),
            old(self)@.phase == Phase::Scan,
        ensures
            (final(self)@, action) == old(self)@.scan(),
    {
        let ghost before = self@;
        let t = self.stack.len() - 1;
        let f = self.stack[t];
        let n = self.order.len();
        proof {
            assert(before.frame_ok(t as int));
            lemma_skip_entry_bounds(before.order, f.entry, f.next as int);
        }
        let mut j = n;
        if self.base() + t < self.pool {
            j = f.next;
            while j < n && f.entry == Some(self.order[j])
                invariant
                    f.next <= j <= n,
                    n == self.order@.len(),
                    skip_entry(self.order@, f.entry, j as int) == skip_entry(
                        self.order@,
                        f.entry,
                        f.next as int,
                    ),
                decreases n - j,
            {
                j = j + 1;
            }
        }
        if j < n {
            self.stack[t] = Frame { entry: f.entry, next: j };
            self.phase = Phase::Asked;
            RenderAction::Probe { portal: self.order[j], entered: f.entry }
        } else if t == 0 {
            self.phase = Phase::Finished;
            RenderAction::Done
        } else {
            let parent = self.stack[t - 1];
            let action = RenderAction::Composite {
                portal: self.order[parent.next],
                depth: self.base() + t - 1,
                onto: self.target(t - 1),
            };
            self.stack.pop();
            self.stack[t - 1] = Frame { entry: parent.entry, next: parent.next + 1 };
            self.phase = Phase::Scan;
            proof {
                assert(self@.stack =~= before.stack.drop_last().update(
                    t - 1,
                    Frame { entry: parent.entry, next: (parent.next + 1) as usize },
                ));
            }
            action
        }
    }

    /// Hands out the next action. `reply` is what was found at the portal of
    /// the probe that the previous step handed out; after any other action
    /// it is ignored.
    ///
    /// The action is the first of those that the recursive description of
    /// the render has left, and the others are left for the steps to come. At
    /// no time are more views open than the origin's and one for each pool
    /// entry, every view that is entered is drawn into a pool entry that
    /// exists, and each step brings the walk nearer to its end.
    pub fn step(&mut self, reply: Sighting) -> (action: RenderAction)
        requires
            old(self)@.wf(),
        ensures
            (final(self)@, action) == old(self)@.step(reply),
            final(self)@.wf(),
            forall|vis: Sight|
                old(self)@.phase != Phase::Finished && (old(self)@.phase == Phase::Asked ==> reply
                    == old(self)@.answer(vis)) ==> #[trigger] old(self)@.remaining(vis) == seq![
                    action,
                ] + final(self)@.remaining(vis),
            final(self)@.stack.len() <= old(self)@.pool + 1,
            action matches RenderAction::Enter { depth, .. } ==> depth < old(self)@.pool,
            action matches RenderAction::Composite { depth, .. } ==> depth < old(self)@.pool,
            old(self)@.phase != Phase::Finished ==> final(self)@.budget() < old(self)@.budget(),
    {
        let ghost before = self@;
        proof {
            lemma_step_keeps_wf(before, reply);
            if before.phase != Phase::Finished {
                lemma_step_lowers_budget(before, reply);
            }
            assert forall|vis: Sight|
                before.phase != Phase::Finished && (before.phase == Phase::Asked ==> reply
                    == before.answer(vis)) implies #[trigger] before.remaining(vis) == seq![
                before.step(reply).1,
            ] + before.step(reply).0.remaining(vis) by {
                lemma_step_follows_plan(before, vis, reply);
            }
        }
        match self.phase {
            Phase::Start => {
                self.phase = Phase::Scan;
                match self.origin {
                    Origin::Screen { world } => RenderAction::World { world },
                    Origin::View { through, entry, depth } => RenderAction::Enter {
                        through,
                        entry,
                        depth,
                    },
                }
            },
            Phase::Scan => self.scan(),
            Phase::Asked => {
                let t = self.stack.len() - 1;
                let f = self.stack[t];
                if reply.worth_entering(f.entry) {
                    let entry = self.links[f.next];
                    let action = RenderAction::Enter {
                        through: self.order[f.next],
                        entry,
                        depth: self.base() + t,
                    };
                    self.stack.push(Frame { entry: Some(entry), next: 0 });
                    self.phase = Phase::Scan;
                    action
                } else {
                    self.stack[t] = Frame { entry: f.entry, next: f.next + 1 };
                    self.phase = Phase::Scan;
                    proof {
                        assert forall|k: int|
                            0 <= k < self@.stack.len() implies #[trigger] self@.frame_ok(k) by {
                            assert(before.frame_ok(k));
                        }
                    }
                    self.scan()
                }
            },
            Phase::Finished => RenderAction::Done,
        }
    }

    /// Whether the walk has handed out `Done`.
    pub fn is_finished(&self) -> (b: bool)
        ensures
            b == (self@.phase == Phase::Finished),
    {
        match self.phase {
            Phase::Finished => true,
            _ => false,
        }
    }

    /// Number of views that are open: the origin's and those entered and
    /// not yet composited.
    pub fn open_views(&self) -> (n: usize)
        ensures
            n == self@.stack.len(),
    {
        self.stack.len()
    }
}

} // verus!
