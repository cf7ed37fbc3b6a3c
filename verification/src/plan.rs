//! What a walk hands out, told as the recursion that it unrolls.
//!
//! [`WalkState::rendering`] describes a whole render the way one would
//! write it down as a recursive procedure: draw the view, then for each
//! portal that is worth entering draw the view behind it, one pool entry
//! deeper, and composite the result. The laws of this module tie the steps of
//! a walk to that description and show that every walk ends.

use crate::walk::{
    Frame, Origin, Phase, PortalId, RenderAction, Sighting, Target, WalkState, skip_entry,
};
use vstd::prelude::*;

verus! {

/// Says for each view, named by the portals passed to reach it, and each
/// portal what is found when the portal is looked at from that view.
pub type Sight = spec_fn(Seq<PortalId>, PortalId) -> Sighting;

/// Finds every portal in front of the viewpoint, in reach and the way of
/// the entry.
pub open spec fn all_in_sight() -> Sight {
    |path: Seq<PortalId>, portal: PortalId|
        Sighting { corners: [true, true, true, true], in_reach: true, along_entry: true }
}

/// What stays the same throughout a walk.
pub struct Course {
    /// Every portal of every world, in the order in which views consider them.
    pub order: Seq<PortalId>,
    /// `links[i]` is the portal that `order[i]` leads to.
    pub links: Seq<PortalId>,
    /// Number of offscreen target sets.
    pub pool: nat,
}

impl Course {
    /// The actions of a view that considers the portals from index `from`
    /// on. The view looks through `entry`, was reached by passing the portals
    /// of `path`, is drawn into `onto`, and the views behind its portals go
    /// to pool entry `depth`. With no pool entry left for them, the view
    /// considers no portal.
    #[verifier::opaque]
    pub open spec fn scan_plan(
        self,
        vis: Sight,
        path: Seq<PortalId>,
        entry: Option<PortalId>,
        depth: int,
        onto: Target,
        from: int,
    ) -> Seq<RenderAction>
        decreases self.pool - depth, self.order.len() - from, 2int,
    {
        if depth < 0 || from < 0 || depth >= self.pool || from >= self.order.len() {
            Seq::empty()
        } else {
            self.visit(vis, path, entry, depth, onto, from) + self.scan_plan(
                vis,
                path,
                entry,
                depth,
                onto,
                from + 1,
            )
        }
    }

    /// The actions that the portal at index `from` gives rise to: none if it
    /// is the view's own entry, else a probe and, if the portal is worth
    /// entering, the view behind it.
    #[verifier::opaque]
    pub open spec fn visit(
        self,
        vis: Sight,
        path: Seq<PortalId>,
        entry: Option<PortalId>,
        depth: int,
        onto: Target,
        from: int,
    ) -> Seq<RenderAction>
        decreases self.pool - depth, self.order.len() - from, 1int,
    {
        if depth < 0 || from < 0 || depth >= self.pool || from >= self.order.len() {
            Seq::empty()
        } else if entry == Some(self.order[from]) {
            Seq::empty()
        } else {
            seq![RenderAction::Probe { portal: self.order[from], entered: entry }] + self.behind(
                vis,
                path,
                entry,
                depth,
                onto,
                from,
            )
        }
    }

    /// What follows the probe of the portal at index `from`: nothing if the
    /// portal is not worth entering, else the view behind the portal, drawn
    /// into pool entry `depth` and composited into `onto`.
    #[verifier::opaque]
    pub open spec fn behind(
        self,
        vis: Sight,
        path: Seq<PortalId>,
        entry: Option<PortalId>,
        depth: int,
        onto: Target,
        from: int,
    ) -> Seq<RenderAction>
        decreases self.pool - depth, self.order.len() - from, 0int,
    {
        if depth < 0 || from < 0 || depth >= self.pool || from >= self.order.len() {
            Seq::empty()
        } else if vis(path, self.order[from]).spec_worth_entering(entry) {
            seq![
                RenderAction::Enter {
                    through: self.order[from],
                    entry: self.links[from],
                    depth: depth as usize,
                },
            ] + self.scan_plan(
                vis,
                path.push(self.order[from]),
                Some(self.links[from]),
                depth + 1,
                Target::Pool(depth as usize),
                0,
            ) + seq![
                RenderAction::Composite { portal: self.order[from], depth: depth as usize, onto },
            ]
        } else {
            Seq::empty()
        }
    }
}

impl WalkState {
    /// What stays the same throughout the walk.
    pub open spec fn course(self) -> Course {
        Course { order: self.order, links: self.links, pool: self.pool }
    }

    /// Everything a walk from this start state hands out, given the answers
    /// `vis`.
    pub open spec fn rendering(self, vis: Sight) -> Seq<RenderAction> {
        seq![self.prologue()] + self.course().scan_plan(
            vis,
            Seq::empty(),
            self.origin_entry(),
            self.base(),
            self.target(0),
            0,
        ) + seq![RenderAction::Done]
    }

    /// What follows when frame `k` has considered all its portals: its view
    /// is composited into the view of the frame before it, which goes on with
    /// its next portal.
    #[verifier::opaque]
    pub open spec fn closing(self, vis: Sight, k: int) -> Seq<RenderAction>
        decreases k, 0int,
    {
        if k <= 0 || k >= self.stack.len() {
            Seq::empty()
        } else {
            seq![
                RenderAction::Composite {
                    portal: self.order[self.stack[k - 1].next as int],
                    depth: (self.base() + k - 1) as usize,
                    onto: self.target(k - 1),
                },
            ] + self.unwind(vis, k - 1, self.stack[k - 1].next + 1)
        }
    }

    /// What is left for frame `k`, scanning from index `from`, and for the
    /// frames before it.
    #[verifier::opaque]
    pub open spec fn unwind(self, vis: Sight, k: int, from: int) -> Seq<RenderAction>
        decreases k, 1int,
    {
        if k < 0 || k >= self.stack.len() {
            Seq::empty()
        } else {
            self.course().scan_plan(
                vis,
                self.path(k),
                self.stack[k].entry,
                self.base() + k,
                self.target(k),
                from,
            ) + self.closing(vis, k)
        }
    }

    /// The actions that a walk in this state has yet to hand out before it
    /// is done, given the answers `vis`.
    pub open spec fn rest(self, vis: Sight) -> Seq<RenderAction> {
        let t = self.stack.len() - 1;
        let top = self.stack[t];
        match self.phase {
            Phase::Start => seq![self.prologue()] + self.unwind(vis, t, top.next as int),
            Phase::Scan => self.unwind(vis, t, top.next as int),
            Phase::Asked => self.course().behind(
                vis,
                self.path(t),
                top.entry,
                self.base() + t,
                self.target(t),
                top.next as int,
            ) + self.unwind(vis, t, top.next + 1),
            Phase::Finished => Seq::empty(),
        }
    }

    /// The actions that a walk in this state has yet to hand out, the
    /// closing `Done` included.
    pub open spec fn remaining(self, vis: Sight) -> Seq<RenderAction> {
        if self.phase == Phase::Finished {
            Seq::empty()
        } else {
            self.rest(vis) + seq![RenderAction::Done]
        }
    }

    /// What `vis` finds at the portal of the probe that the walk awaits.
    pub open spec fn answer(self, vis: Sight) -> Sighting {
        vis(self.path(self.stack.len() - 1), self.order[self.stack.last().next as int])
    }

    /// The actions that the next `n` steps hand out when what is found at
    /// each probed portal is what `vis` says.
    pub open spec fn trace(self, vis: Sight, n: nat) -> Seq<RenderAction>
        decreases n,
    {
        if n == 0 {
            Seq::empty()
        } else {
            seq![self.step(self.answer(vis)).1] + self.step(self.answer(vis)).0.trace(
                vis,
                (n - 1) as nat,
            )
        }
    }

    /// The state after `n` steps when what is found at each probed portal is
    /// what `vis` says.
    pub open spec fn advanced(self, vis: Sight, n: nat) -> WalkState
        decreases n,
    {
        if n == 0 {
            self
        } else {
            self.step(self.answer(vis)).0.advanced(vis, (n - 1) as nat)
        }
    }

    /// An upper bound on the number of steps that a walk in this state can
    /// still take before it has handed out `Done`: the number it takes when
    /// every portal probed is worth entering.
    pub open spec fn budget(self) -> nat {
        self.remaining(all_in_sight()).len()
    }
}

/// The recursive description, one layer at a time.
proof fn lemma_scan_plan_unfolds(
    c: Course,
    vis: Sight,
    path: Seq<PortalId>,
    entry: Option<PortalId>,
    depth: int,
    onto: Target,
    from: int,
)
    ensures
        c.scan_plan(vis, path, entry, depth, onto, from) == if depth < 0 || from < 0 || depth
            >= c.pool || from >= c.order.len() {
            Seq::<RenderAction>::empty()
        } else {
            c.visit(vis, path, entry, depth, onto, from) + c.scan_plan(
                vis,
                path,
                entry,
                depth,
                onto,
                from + 1,
            )
        },
        c.visit(vis, path, entry, depth, onto, from) == if depth < 0 || from < 0 || depth >= c.pool
            || from >= c.order.len() {
            Seq::<RenderAction>::empty()
        } else if entry == Some(c.order[from]) {
            Seq::<RenderAction>::empty()
        } else {
            seq![RenderAction::Probe { portal: c.order[from], entered: entry }] + c.behind(
                vis,
                path,
                entry,
                depth,
                onto,
                from,
            )
        },
        c.behind(vis, path, entry, depth, onto, from) == if depth < 0 || from < 0 || depth
            >= c.pool || from >= c.order.len() {
            Seq::<RenderAction>::empty()
        } else if vis(path, c.order[from]).spec_worth_entering(entry) {
            seq![
                RenderAction::Enter {
                    through: c.order[from],
                    entry: c.links[from],
                    depth: depth as usize,
                },
            ] + c.scan_plan(
                vis,
                path.push(c.order[from]),
                Some(c.links[from]),
                depth + 1,
                Target::Pool(depth as usize),
                0,
            ) + seq![
                RenderAction::Composite { portal: c.order[from], depth: depth as usize, onto },
            ]
        } else {
            Seq::<RenderAction>::empty()
        },
{
    reveal_with_fuel(Course::scan_plan, 1);
    reveal_with_fuel(Course::visit, 1);
    reveal_with_fuel(Course::behind, 1);
}

/// What is left for a frame, one layer at a time.
proof fn lemma_unwind_unfolds(s: WalkState, vis: Sight, k: int, from: int)
    ensures
        s.unwind(vis, k, from) == if k < 0 || k >= s.stack.len() {
            Seq::<RenderAction>::empty()
        } else {
            s.course().scan_plan(
                vis,
                s.path(k),
                s.stack[k].entry,
                s.base() + k,
                s.target(k),
                from,
            ) + s.closing(vis, k)
        },
        s.closing(vis, k) == if k <= 0 || k >= s.stack.len() {
            Seq::<RenderAction>::empty()
        } else {
            seq![
                RenderAction::Composite {
                    portal: s.order[s.stack[k - 1].next as int],
                    depth: (s.base() + k - 1) as usize,
                    onto: s.target(k - 1),
                },
            ] + s.unwind(vis, k - 1, s.stack[k - 1].next + 1)
        },
{
    reveal_with_fuel(WalkState::unwind, 1);
    reveal_with_fuel(WalkState::closing, 1);
}

/// The first index that `skip_entry` finds lies between `from` and the end,
/// and the portal there is not the entry.
pub proof fn lemma_skip_entry_bounds(order: Seq<PortalId>, entry: Option<PortalId>, from: int)
    requires
        0 <= from <= order.len(),
    ensures
        from <= skip_entry(order, entry, from) <= order.len(),
        skip_entry(order, entry, from) < order.len() ==> entry != Some(
            order[skip_entry(order, entry, from)],
        ),
    decreases order.len() - from,
{
    if from < order.len() && entry == Some(order[from]) {
        lemma_skip_entry_bounds(order, entry, from + 1);
    }
}

/// A scan leaves a walk a walk.
pub(crate) proof fn lemma_scan_keeps_wf(s: WalkState)
    requires
        s.wf(),
        s.phase == Phase::Scan,
    ensures
        s.scan().0.wf(),
        s.scan().0.course() == s.course(),
        s.scan().0.origin == s.origin,
        s.scan().1 matches RenderAction::Composite { depth, .. } ==> depth < s.pool,
        !(s.scan().1 is Enter),
{
    let t = s.stack.len() - 1;
    let f = s.stack[t];
    let s2 = s.scan().0;
    assert(s.frame_ok(t));
    lemma_skip_entry_bounds(s.order, f.entry, f.next as int);
    assert forall|k: int| 0 <= k < s2.stack.len() implies #[trigger] s2.frame_ok(k) by {
        assert(s.frame_ok(k));
    }
}

/// A step leaves a walk a walk, over the same portals and with the same
/// pool: at no time are more views open than the origin's and one for each
/// pool entry, and every view that is entered or composited was drawn into a
/// pool entry that exists.
pub proof fn lemma_step_keeps_wf(s: WalkState, reply: Sighting)
    requires
        s.wf(),
    ensures
        s.step(reply).0.wf(),
        s.step(reply).0.course() == s.course(),
        s.step(reply).0.origin == s.origin,
        s.step(reply).0.stack.len() <= s.pool + 1,
        s.step(reply).1 matches RenderAction::Enter { depth, .. } ==> depth < s.pool,
        s.step(reply).1 matches RenderAction::Composite { depth, .. } ==> depth < s.pool,
{
    let t = s.stack.len() - 1;
    let f = s.stack[t];
    let s2 = s.step(reply).0;
    match s.phase {
        Phase::Start => {
            assert(s.frame_ok(0));
            assert(s2.frame_ok(0));
        },
        Phase::Scan => {
            lemma_scan_keeps_wf(s);
        },
        Phase::Asked => {
            if reply.spec_worth_entering(f.entry) {
                assert forall|k: int| 0 <= k < s2.stack.len() implies #[trigger] s2.frame_ok(
                    k,
                ) by {
                    if k <= t {
                        assert(s.frame_ok(k));
                    }
                }
            } else {
                let s1 = WalkState {
                    stack: s.stack.update(t, Frame { entry: f.entry, next: (f.next + 1) as usize }),
                    phase: Phase::Scan,
                    ..s
                };
                assert forall|k: int| 0 <= k < s1.stack.len() implies #[trigger] s1.frame_ok(
                    k,
                ) by {
                    assert(s.frame_ok(k));
                }
                lemma_scan_keeps_wf(s1);
            }
        },
        Phase::Finished => {},
    }
}

/// A view that stands at its own entry goes on with the portal after it.
proof fn lemma_scan_plan_skips(
    c: Course,
    vis: Sight,
    path: Seq<PortalId>,
    entry: Option<PortalId>,
    depth: int,
    onto: Target,
    from: int,
)
    requires
        0 <= from <= c.order.len(),
    ensures
        c.scan_plan(vis, path, entry, depth, onto, from) == c.scan_plan(
            vis,
            path,
            entry,
            depth,
            onto,
            skip_entry(c.order, entry, from),
        ),
    decreases c.order.len() - from,
{
    if from < c.order.len() && entry == Some(c.order[from]) {
        let to = skip_entry(c.order, entry, from);
        lemma_skip_entry_bounds(c.order, entry, from + 1);
        lemma_scan_plan_unfolds(c, vis, path, entry, depth, onto, from);
        if 0 <= depth < c.pool {
            lemma_scan_plan_skips(c, vis, path, entry, depth, onto, from + 1);
            let after = c.scan_plan(vis, path, entry, depth, onto, from + 1);
            assert(Seq::<RenderAction>::empty() + after =~= after);
        } else {
            lemma_scan_plan_unfolds(c, vis, path, entry, depth, onto, to);
        }
    }
}

/// What is left for a frame and those before it depends on the walk's
/// course, on the entries of those frames, and on the positions of the
/// frames before it.
proof fn lemma_unwind_same(a: WalkState, b: WalkState, vis: Sight, k: int, from: int)
    requires
        a.course() == b.course(),
        a.origin == b.origin,
        0 <= k < a.stack.len(),
        k < b.stack.len(),
        forall|i: int| 0 <= i <= k ==> (#[trigger] a.stack[i]).entry == b.stack[i].entry,
        forall|i: int| 0 <= i < k ==> (#[trigger] a.stack[i]).next == b.stack[i].next,
    ensures
        a.unwind(vis, k, from) == b.unwind(vis, k, from),
        a.closing(vis, k) == b.closing(vis, k),
        a.path(k) == b.path(k),
    decreases k,
{
    assert(a.path(k) =~= b.path(k));
    assert(a.stack[k].entry == b.stack[k].entry);
    lemma_unwind_unfolds(a, vis, k, from);
    lemma_unwind_unfolds(b, vis, k, from);
    if k > 0 {
        assert(a.stack[k - 1].next == b.stack[k - 1].next);
        lemma_unwind_same(a, b, vis, k - 1, a.stack[k - 1].next + 1);
    }
}

/// Regrouping of the parts of what remains when a probe is handed out.
proof fn lemma_regroup_probe<A>(p: Seq<A>, b: Seq<A>, a: Seq<A>, c: Seq<A>, d: Seq<A>)
    ensures
        (((p + b) + a) + c) + d == p + ((b + (a + c)) + d),
{
    assert((((p + b) + a) + c) + d =~= p + ((b + (a + c)) + d));
}

/// Regrouping of the parts of what remains when a view is entered.
proof fn lemma_regroup_enter<A>(e: Seq<A>, i: Seq<A>, b: Seq<A>, u: Seq<A>, d: Seq<A>)
    ensures
        (((e + i) + b) + u) + d == e + ((i + (b + u)) + d),
{
    assert((((e + i) + b) + u) + d =~= e + ((i + (b + u)) + d));
}

/// Regrouping of the parts of what remains when a view is composited.
proof fn lemma_regroup_close<A>(a: Seq<A>, u: Seq<A>, d: Seq<A>)
    ensures
        (Seq::<A>::empty() + (a + u)) + d == a + (u + d),
        (a + u) + d == a + (u + d),
{
    assert((Seq::<A>::empty() + (a + u)) + d =~= a + (u + d));
    assert((a + u) + d =~= a + (u + d));
}

/// Regrouping of the parts of what remains when a portal is passed by.
proof fn lemma_regroup_pass<A>(u: Seq<A>, d: Seq<A>)
    ensures
        (Seq::<A>::empty() + u) + d == u + d,
{
    assert((Seq::<A>::empty() + u) + d =~= u + d);
}

/// Regrouping of the parts of what remains when the last view is closed.
proof fn lemma_regroup_last<A>(d: Seq<A>)
    ensures
        (Seq::<A>::empty() + Seq::<A>::empty()) + d == d + Seq::<A>::empty(),
{
    assert((Seq::<A>::empty() + Seq::<A>::empty()) + d =~= d + Seq::<A>::empty());
}

/// A scan that finds a portal to probe hands out the probe and leaves the
/// rest.
proof fn lemma_scan_probes(s: WalkState, vis: Sight, j: int)
    requires
        s.wf(),
        s.phase == Phase::Scan,
        s.base() + s.stack.len() - 1 < s.pool,
        j == skip_entry(s.order, s.stack.last().entry, s.stack.last().next as int),
        j < s.order.len(),
    ensures
        s.remaining(vis) == seq![
            RenderAction::Probe { portal: s.order[j], entered: s.stack.last().entry },
        ] + (WalkState {
            stack: s.stack.update(
                s.stack.len() - 1,
                Frame { entry: s.stack.last().entry, next: j as usize },
            ),
            phase: Phase::Asked,
            ..s
        }).remaining(vis),
{
    let c = s.course();
    let t = s.stack.len() - 1;
    let f = s.stack[t];
    let d = s.base() + t;
    let s2 = WalkState {
        stack: s.stack.update(t, Frame { entry: f.entry, next: j as usize }),
        phase: Phase::Asked,
        ..s
    };
    let done = seq![RenderAction::Done];
    let probe = seq![RenderAction::Probe { portal: s.order[j], entered: f.entry }];
    let closing = s.closing(vis, t);
    let behind = c.behind(vis, s.path(t), f.entry, d, s.target(t), j);
    let after = c.scan_plan(vis, s.path(t), f.entry, d, s.target(t), j + 1);
    assert(s.frame_ok(t));
    lemma_skip_entry_bounds(s.order, f.entry, f.next as int);
    lemma_scan_plan_skips(c, vis, s.path(t), f.entry, d, s.target(t), f.next as int);
    lemma_scan_plan_unfolds(c, vis, s.path(t), f.entry, d, s.target(t), j);
    lemma_unwind_unfolds(s, vis, t, f.next as int);
    assert(s.rest(vis) == ((probe + behind) + after) + closing);
    lemma_unwind_same(s, s2, vis, t, j + 1);
    lemma_unwind_unfolds(s, vis, t, j + 1);
    assert(s2.stack[t].entry == f.entry);
    assert(s2.rest(vis) == behind + (after + closing));
    lemma_regroup_probe(probe, behind, after, closing, done);
}

/// A scan that finds no portal to probe hands out what closes the view and
/// leaves the rest.
proof fn lemma_scan_closes(s: WalkState, vis: Sight)
    requires
        s.wf(),
        s.phase == Phase::Scan,
        s.base() + s.stack.len() - 1 >= s.pool || skip_entry(
            s.order,
            s.stack.last().entry,
            s.stack.last().next as int,
        ) >= s.order.len(),
    ensures
        s.remaining(vis) == seq![s.scan().1] + s.scan().0.remaining(vis),
{
    let c = s.course();
    let t = s.stack.len() - 1;
    let f = s.stack[t];
    let d = s.base() + t;
    let n = s.order.len() as int;
    let (s2, action) = s.scan();
    let done = seq![RenderAction::Done];
    let closing = s.closing(vis, t);
    let here = c.scan_plan(vis, s.path(t), f.entry, d, s.target(t), f.next as int);
    assert(s.frame_ok(t));
    lemma_skip_entry_bounds(s.order, f.entry, f.next as int);
    assert(here == Seq::<RenderAction>::empty()) by {
        lemma_scan_plan_skips(c, vis, s.path(t), f.entry, d, s.target(t), f.next as int);
        lemma_scan_plan_unfolds(c, vis, s.path(t), f.entry, d, s.target(t), f.next as int);
        lemma_scan_plan_unfolds(c, vis, s.path(t), f.entry, d, s.target(t), n);
    }
    lemma_unwind_unfolds(s, vis, t, f.next as int);
    assert(s.rest(vis) == here + closing);
    if t == 0 {
        assert(closing == Seq::<RenderAction>::empty());
        assert(s2.remaining(vis) == Seq::<RenderAction>::empty());
        lemma_regroup_last(done);
    } else {
        let up = s.unwind(vis, t - 1, s.stack[t - 1].next + 1);
        assert(closing == seq![action] + up);
        lemma_unwind_same(s, s2, vis, t - 1, s.stack[t - 1].next + 1);
        assert(s2.rest(vis) == up);
        lemma_regroup_close(seq![action], up, done);
    }
}

/// The law of a scan: it hands out the first of the remaining actions and
/// leaves the others.
proof fn lemma_scan_follows_plan(s: WalkState, vis: Sight)
    requires
        s.wf(),
        s.phase == Phase::Scan,
    ensures
        s.remaining(vis) == seq![s.scan().1] + s.scan().0.remaining(vis),
{
    let t = s.stack.len() - 1;
    let f = s.stack[t];
    let j = skip_entry(s.order, f.entry, f.next as int);
    if s.base() + t < s.pool && j < s.order.len() {
        lemma_scan_probes(s, vis, j);
    } else {
        lemma_scan_closes(s, vis);
    }
}

/// A portal worth entering: the walk hands out the entering of the view
/// behind the portal and leaves the rest.
proof fn lemma_yes_follows_plan(s: WalkState, vis: Sight)
    requires
        s.wf(),
        s.phase == Phase::Asked,
        s.answer(vis).spec_worth_entering(s.stack.last().entry),
    ensures
        s.remaining(vis) == seq![s.step(s.answer(vis)).1] + s.step(s.answer(vis)).0.remaining(vis),
{
    let c = s.course();
    let t = s.stack.len() - 1;
    let f = s.stack[t];
    let d = s.base() + t;
    let (s2, action) = s.step(s.answer(vis));
    let done = seq![RenderAction::Done];
    let portal = s.order[f.next as int];
    let up = s.unwind(vis, t, f.next + 1);
    let behind = c.behind(vis, s.path(t), f.entry, d, s.target(t), f.next as int);
    let inner = c.scan_plan(
        vis,
        s.path(t).push(portal),
        Some(s.links[f.next as int]),
        d + 1,
        Target::Pool(d as usize),
        0,
    );
    let back = seq![RenderAction::Composite { portal, depth: d as usize, onto: s.target(t) }];
    lemma_scan_plan_unfolds(c, vis, s.path(t), f.entry, d, s.target(t), f.next as int);
    assert(behind == (seq![action] + inner) + back);
    assert(s.rest(vis) == behind + up);
    lemma_unwind_same(s, s2, vis, t, f.next + 1);
    assert(s2.path(t + 1) =~= s.path(t).push(portal));
    lemma_unwind_unfolds(s2, vis, t + 1, 0);
    assert(s2.stack[t + 1].entry == Some(s.links[f.next as int]));
    assert(s2.stack[t].next == f.next);
    assert(s2.closing(vis, t + 1) == back + up);
    assert(s2.rest(vis) == inner + (back + up));
    lemma_regroup_enter(seq![action], inner, back, up, done);
}

/// A portal not worth entering: the walk goes on as a scan from the portal
/// after it.
proof fn lemma_no_follows_plan(s: WalkState, vis: Sight, reply: Sighting)
    requires
        s.wf(),
        s.phase == Phase::Asked,
        !reply.spec_worth_entering(s.stack.last().entry),
    ensures
        ({
            let t = s.stack.len() - 1;
            let f = s.stack[t];
            let s1 = WalkState {
                stack: s.stack.update(t, Frame { entry: f.entry, next: (f.next + 1) as usize }),
                phase: Phase::Scan,
                ..s
            };
            &&& s1.wf()
            &&& s.step(reply) == s1.scan()
            &&& s1.remaining(vis) == seq![s.step(reply).1] + s.step(reply).0.remaining(vis)
            &&& reply == s.answer(vis) ==> s.remaining(vis) == s1.remaining(vis)
            &&& s.remaining(vis).len() >= s1.remaining(vis).len()
        }),
{
    let c = s.course();
    let t = s.stack.len() - 1;
    let f = s.stack[t];
    let d = s.base() + t;
    let s1 = WalkState {
        stack: s.stack.update(t, Frame { entry: f.entry, next: (f.next + 1) as usize }),
        phase: Phase::Scan,
        ..s
    };
    let done = seq![RenderAction::Done];
    let up = s.unwind(vis, t, f.next + 1);
    let behind = c.behind(vis, s.path(t), f.entry, d, s.target(t), f.next as int);
    assert forall|k: int| 0 <= k < s1.stack.len() implies #[trigger] s1.frame_ok(k) by {
        assert(s.frame_ok(k));
    }
    assert(s1.wf());
    lemma_scan_follows_plan(s1, vis);
    lemma_unwind_same(s, s1, vis, t, f.next + 1);
    assert(s1.rest(vis) == up);
    assert(s.rest(vis) == behind + up);
    if reply == s.answer(vis) {
        lemma_scan_plan_unfolds(c, vis, s.path(t), f.entry, d, s.target(t), f.next as int);
        assert(behind == Seq::<RenderAction>::empty());
        lemma_regroup_pass(up, done);
    }
}

/// Each step hands out the first of the actions that the recursive
/// description has left, and leaves the others: a walk whose probes are
/// answered by `vis` hands out `remaining(vis)`, action by action.
pub proof fn lemma_step_follows_plan(s: WalkState, vis: Sight, reply: Sighting)
    requires
        s.wf(),
        s.phase != Phase::Finished,
        s.phase == Phase::Asked ==> reply == s.answer(vis),
    ensures
        s.remaining(vis) == seq![s.step(reply).1] + s.step(reply).0.remaining(vis),
{
    match s.phase {
        Phase::Start => {
            let t = s.stack.len() - 1;
            let f = s.stack[t];
            let (s2, action) = s.step(reply);
            let all = s.unwind(vis, t, f.next as int);
            lemma_unwind_same(s, s2, vis, t, f.next as int);
            assert(s.rest(vis) == seq![action] + all);
            assert(s2.rest(vis) == all);
            lemma_regroup_close(seq![action], all, seq![RenderAction::Done]);
        },
        Phase::Scan => {
            lemma_scan_follows_plan(s, vis);
        },
        Phase::Asked => {
            if reply.spec_worth_entering(s.stack.last().entry) {
                lemma_yes_follows_plan(s, vis);
            } else {
                lemma_no_follows_plan(s, vis, reply);
            }
        },
        Phase::Finished => {},
    }
}

/// A walk that has just started has the whole recursive description ahead.
pub proof fn lemma_start_has_whole_plan(
    order: Seq<PortalId>,
    links: Seq<PortalId>,
    pool: nat,
    origin: Origin,
    vis: Sight,
)
    ensures
        WalkState::start(order, links, pool, origin).remaining(vis) == WalkState::start(
            order,
            links,
            pool,
            origin,
        ).rendering(vis),
{
    let s = WalkState::start(order, links, pool, origin);
    assert(s.path(0) =~= Seq::<PortalId>::empty());
    lemma_unwind_unfolds(s, vis, 0, 0);
    let plan = s.course().scan_plan(vis, Seq::empty(), s.origin_entry(), s.base(), s.target(0), 0);
    assert(s.unwind(vis, 0, 0) =~= plan);
}

/// A walk whose probes are answered by `vis` hands out what the recursive
/// description has left, in as many steps as that has actions, and is then
/// finished.
pub proof fn lemma_walk_hands_out_plan(s: WalkState, vis: Sight)
    requires
        s.wf(),
    ensures
        s.trace(vis, s.remaining(vis).len()) == s.remaining(vis),
        s.advanced(vis, s.remaining(vis).len()).phase == Phase::Finished,
        s.remaining(vis).len() <= s.budget(),
    decreases s.remaining(vis).len(),
{
    if s.phase != Phase::Finished {
        let reply = s.answer(vis);
        let (s2, action) = s.step(reply);
        lemma_step_follows_plan(s, vis, reply);
        lemma_step_keeps_wf(s, reply);
        lemma_step_lowers_budget(s, reply);
        assert(s.remaining(vis).len() == 1 + s2.remaining(vis).len());
        lemma_walk_hands_out_plan(s2, vis);
    } else {
        assert(s.remaining(vis).len() == 0);
    }
}

/// A render is the recursive description of it: the walk that a render
/// starts hands out `rendering(vis)`, action by action, and is then finished.
pub proof fn lemma_render_is_rendering(
    order: Seq<PortalId>,
    links: Seq<PortalId>,
    pool: nat,
    origin: Origin,
    vis: Sight,
)
    requires
        WalkState::start(order, links, pool, origin).wf(),
    ensures
        ({
            let start = WalkState::start(order, links, pool, origin);
            let whole = start.rendering(vis);
            &&& start.trace(vis, whole.len()) == whole
            &&& start.advanced(vis, whole.len()).phase == Phase::Finished
        }),
{
    lemma_start_has_whole_plan(order, links, pool, origin, vis);
    lemma_walk_hands_out_plan(WalkState::start(order, links, pool, origin), vis);
}

/// Every step of a walk that is not finished lowers its budget, whatever
/// the answers: no walk goes on forever.
pub proof fn lemma_step_lowers_budget(s: WalkState, reply: Sighting)
    requires
        s.wf(),
        s.phase != Phase::Finished,
    ensures
        s.step(reply).0.budget() < s.budget(),
{
    let yes = all_in_sight();
    if s.phase == Phase::Asked {
        if reply.spec_worth_entering(s.stack.last().entry) {
            assert(s.step(reply) == s.step(s.answer(yes)));
            lemma_step_follows_plan(s, yes, s.answer(yes));
        } else {
            lemma_no_follows_plan(s, yes, reply);
        }
    } else {
        lemma_step_follows_plan(s, yes, reply);
    }
}

} // verus!
