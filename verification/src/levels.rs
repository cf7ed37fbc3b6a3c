//! The sets of worlds that come with the library.

use crate::level::{Handle, MagicLevel, Object, Portal, PortalPos, Worlds};
use crate::scale::Scale;
use crate::target::PortalView;
use crate::walk::PortalId;
use vstd::prelude::*;

verus! {

impl Worlds {
    /// `worlds` worlds without portals, the controlled body `me` in the
    /// first, and a pool of `views` entries for an output of `width` by
    /// `height` pixels.
    pub open spec fn bare(worlds: nat, me: Object, views: nat, width: u32, height: u32) -> Worlds {
        Worlds {
            portals: Seq::new(worlds, |w: int| Seq::<Portal>::empty()),
            me,
            me_world: 0,
            handles: Map::<Handle, PortalId>::empty(),
            pool: Seq::new(views, |i: int| PortalView::spec_new(width, height)),
        }
    }

    /// The worlds after a pair of portals with sensors `sensors` was added
    /// between the worlds `w1` and `w2`, with the scale factor `num / den`
    /// on the side of `w1`.
    pub open spec fn joined(
        self,
        w1: usize,
        w2: usize,
        sensors: (Handle, Handle),
        num: u32,
        den: u32,
    ) -> Worlds {
        self.with_pair(w1, w2, sensors.0, sensors.1, Scale { num, den })
    }

    /// The room after room `w` in a ring of `n` rooms.
    pub open spec fn next_room(n: int, w: int) -> int {
        if w + 1 == n {
            0
        } else {
            w + 1
        }
    }

    /// The room before room `w` in a ring of `n` rooms.
    pub open spec fn prev_room(n: int, w: int) -> int {
        if w == 0 {
            n - 1
        } else {
            w - 1
        }
    }

    /// Index, among the portals of room `w` of a ring, of the portal that
    /// leads into the next room.
    pub open spec fn ring_exit(w: int) -> int {
        if w == 0 {
            0
        } else {
            1
        }
    }

    /// Index, among the portals of room `w` of a ring, of the portal that
    /// leads into the room before.
    pub open spec fn ring_entrance(w: int) -> int {
        if w == 0 {
            1
        } else {
            0
        }
    }

    /// The worlds after the first `k` of them were joined to the next: each
    /// of them got a portal that leads to a portal of the world after it, the
    /// last of all to one of the first, with no change of scale.
    pub open spec fn ring(self, sensors: Seq<(Handle, Handle)>, k: int) -> Worlds
        decreases k,
    {
        if k <= 0 {
            self
        } else {
            self.ring(sensors, k - 1).joined(
                (k - 1) as usize,
                Self::next_room(self.portals.len() as int, k - 1) as usize,
                sensors[k - 1],
                1,
                1,
            )
        }
    }

    /// Room `w` has its portal into the next room, and that portal is as a
    /// ring of `n` rooms has it.
    pub open spec fn has_ring_exit(self, n: int, w: int) -> bool {
        let e = Self::ring_exit(w);
        &&& e < self.portals[w].len()
        &&& self.portals[w][e] == (Portal {
            this: PortalPos { world: w as usize },
            connecting: PortalId {
                world: Self::next_room(n, w) as usize,
                index: Self::ring_entrance(Self::next_room(n, w)) as usize,
            },
            scale: Scale { num: 1, den: 1 },
        })
    }

    /// Room `w` has its portal into the room before, and that portal is as
    /// a ring of `n` rooms has it.
    pub open spec fn has_ring_entrance(self, n: int, w: int) -> bool {
        let e = Self::ring_entrance(w);
        &&& e < self.portals[w].len()
        &&& self.portals[w][e] == (Portal {
            this: PortalPos { world: w as usize },
            connecting: PortalId {
                world: Self::prev_room(n, w) as usize,
                index: Self::ring_exit(Self::prev_room(n, w)) as usize,
            },
            scale: Scale { num: 1, den: 1 },
        })
    }

    /// Number of portals of room `w` after the first `k` rooms of a ring of
    /// `n` were joined to the next.
    pub open spec fn ring_len(n: int, k: int, w: int) -> int {
        (if w < k {
            1int
        } else {
            0int
        }) + (if (w == 0 && k == n) || (1 <= w <= k) {
            1int
        } else {
            0int
        })
    }

    /// The first `k` rooms of a ring of `n` rooms are joined to the next,
    /// and no others.
    pub open spec fn ring_upto(self, n: int, k: int) -> bool {
        &&& self.portals.len() == n
        &&& forall|w: int|
            0 <= w < n ==> {
                &&& (#[trigger] self.portals[w]).len() == Self::ring_len(n, k, w)
                &&& w < k ==> self.has_ring_exit(n, w)
                &&& (w == 0 && k == n) || (1 <= w <= k) ==> self.has_ring_entrance(n, w)
            }
    }

    /// The five worlds of the first level: a hall, and behind its portals a
    /// room five times as large, a long tunnel and two rooms of plain size.
    pub open spec fn halls(
        me: Object,
        sensors: Seq<(Handle, Handle)>,
        width: u32,
        height: u32,
    ) -> Worlds {
        Worlds::bare(5, me, 5, width, height).joined(0, 1, sensors[0], 5, 1).joined(
            0,
            1,
            sensors[1],
            5,
            1,
        ).joined(0, 1, sensors[2], 1, 1).joined(0, 2, sensors[3], 1, 1).joined(
            0,
            3,
            sensors[4],
            1,
            1,
        ).joined(0, 3, sensors[5], 1, 1).joined(0, 4, sensors[6], 1, 1).joined(
            0,
            4,
            sensors[7],
            1,
            1,
        )
    }
    /// The portal of the hall, world 0, with index `k` leads to the portal
    /// `index` of world `world`, and lengths grow by the factor `num` on the
    /// way.
    pub open spec fn hall_door(self, k: int, world: usize, index: usize, num: u32) -> bool {
        &&& k < self.portals[0].len()
        &&& self.portals[0][k] == (Portal {
            this: PortalPos { world: 0 },
            connecting: PortalId { world, index },
            scale: Scale { num, den: 1 },
        })
    }
}

impl MagicLevel {
    /// Adds a pair of portals between the worlds `w1` and `w2`, with the
    /// scale factor `num / den` on the side of `w1`.
    fn join(&mut self, w1: usize, w2: usize, sensors: (Handle, Handle), num: u32, den: u32)
        requires
            old(self)@.wf(),
            w1 < old(self)@.portals.len(),
            w2 < old(self)@.portals.len(),
            num > 0,
            den > 0,
        ensures
            final(self)@ == old(self)@.joined(w1, w2, sensors, num, den),
            final(self)@.wf(),
            final(self)@.portals.len() == old(self)@.portals.len(),
    {
        let _ = self.add_portal(
            PortalPos { world: w1 },
            PortalPos { world: w2 },
            sensors.0,
            sensors.1,
            Scale { num, den },
        );
    }

    /// The first level: five worlds and eight pairs of portals, all of them
    /// between the hall, world 0, and one of the others. The first two pairs
    /// lead into a world five times as large. `sensors` holds the sensors'
    /// handles, pair by pair. The pool has five entries.
    pub fn level0(me: Object, sensors: &[(Handle, Handle); 8], width: u32, height: u32) -> (level:
        MagicLevel)
        ensures
            level@ == Worlds::halls(me, sensors@, width, height),
            level@.wf(),
            level@.portals.len() == 5,
            level@.portals[0].len() == 8,
            level@.portals[1].len() == 3,
            level@.portals[2].len() == 1,
            level@.portals[3].len() == 2,
            level@.portals[4].len() == 2,
            level@.hall_door(0, 1, 0, 5),
            level@.hall_door(1, 1, 1, 5),
            level@.hall_door(2, 1, 2, 1),
            level@.hall_door(3, 2, 0, 1),
            level@.hall_door(4, 3, 0, 1),
            level@.hall_door(5, 3, 1, 1),
            level@.hall_door(6, 4, 0, 1),
            level@.hall_door(7, 4, 1, 1),
    {
        let mut this = MagicLevel::new(5, me, 5, width, height);
        // from normal level to fat level
        this.join(0, 1, sensors[0], 5, 1);
        this.join(0, 1, sensors[1], 5, 1);
        // from normal level to long tunnel
        this.join(0, 1, sensors[2], 1, 1);
        this.join(0, 2, sensors[3], 1, 1);
        // long inside
        this.join(0, 3, sensors[4], 1, 1);
        this.join(0, 3, sensors[5], 1, 1);
        // short inside
        this.join(0, 4, sensors[6], 1, 1);
        this.join(0, 4, sensors[7], 1, 1);
        this
    }

    /// One world whose two portals lead to each other, with no change of
    /// scale, and a pool of ten entries.
    pub fn level_loop(me: Object, sensors: (Handle, Handle), width: u32, height: u32) -> (level:
        MagicLevel)
        ensures
            level@ == Worlds::bare(1, me, 10, width, height).joined(0, 0, sensors, 1, 1),
            level@.wf(),
            level@.ring_upto(1, 1),
    {
        let mut this = MagicLevel::new(1, me, 10, width, height);
        this.join(0, 0, sensors, 1, 1);
        this
    }

    /// A ring of `room_cnt` rooms: each room has two portals, one that leads
    /// into the next room and one that leads into the room before, the last
    /// room's next being the first, with no change of scale. `sensors` holds
    /// one pair of sensor handles for each room. The pool has five entries.
    /// `None` if there is no room, or not one pair of sensors for each room.
    pub fn level_rooms(
        room_cnt: usize,
        me: Object,
        sensors: &Vec<(Handle, Handle)>,
        width: u32,
        height: u32,
    ) -> (level: Option<MagicLevel>)
        ensures
            level is Some <==> room_cnt >= 1 && sensors@.len() == room_cnt,
            level matches Some(l) ==> {
                &&& l@ == Worlds::bare(room_cnt as nat, me, 5, width, height).ring(
                    sensors@,
                    room_cnt as int,
                )
                &&& l@.wf()
                &&& l@.ring_upto(room_cnt as int, room_cnt as int)
            },
    {
        if room_cnt == 0 || sensors.len() != room_cnt {
            return None;
        }
        let mut this = MagicLevel::new(room_cnt, me, 5, width, height);
        let ghost bare = this@;
        let mut i: usize = 0;
        while i < room_cnt
            invariant
                i <= room_cnt,
                room_cnt >= 1,
                sensors@.len() == room_cnt,
                bare.portals.len() == room_cnt,
                this@.portals.len() == room_cnt,
                this@ == bare.ring(sensors@, i as int),
                this@.wf(),
            decreases room_cnt - i,
        {
            let next = if i + 1 == room_cnt {
                0
            } else {
                i + 1
            };
            this.join(i, next, sensors[i], 1, 1);
            i = i + 1;
        }
        proof {
            lemma_ring_shape(room_cnt as nat, me, sensors@, width, height, room_cnt as int);
        }
        Some(this)
    }
}

/// After the first `k` rooms of a ring were joined to the next, each of
/// them has its portal into the next room, and each room after one of them
/// its portal into the room before. In the finished ring every room has
/// these two portals.
pub proof fn lemma_ring_shape(
    n: nat,
    me: Object,
    sensors: Seq<(Handle, Handle)>,
    width: u32,
    height: u32,
    k: int,
)
    requires
        1 <= n <= usize::MAX,
        0 <= k <= n,
    ensures
        Worlds::bare(n, me, 5, width, height).ring(sensors, k).ring_upto(n as int, k),
    decreases k,
{
    let bare = Worlds::bare(n, me, 5, width, height);
    if k > 0 {
        lemma_ring_shape(n, me, sensors, width, height, k - 1);
        let before = bare.ring(sensors, k - 1);
        let after = bare.ring(sensors, k);
        let w1 = k - 1;
        let w2 = Worlds::next_room(n as int, k - 1);
        assert(before.portals[w1].len() == Worlds::ring_len(n as int, k - 1, w1));
        assert(before.portals[w2].len() == Worlds::ring_len(n as int, k - 1, w2));
        assert forall|w: int| 0 <= w < n implies {
            &&& (#[trigger] after.portals[w]).len() == Worlds::ring_len(n as int, k, w)
            &&& w < k ==> after.has_ring_exit(n as int, w)
            &&& (w == 0 && k == n) || (1 <= w <= k) ==> after.has_ring_entrance(n as int, w)
        } by {
            assert(before.portals[w].len() == Worlds::ring_len(n as int, k - 1, w));
            if w < k - 1 {
                assert(before.has_ring_exit(n as int, w));
            }
            if (w == 0 && k - 1 == n) || (1 <= w <= k - 1) {
                assert(before.has_ring_entrance(n as int, w));
            }
        }
    }
}

} // verus!
