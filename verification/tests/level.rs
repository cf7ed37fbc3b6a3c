use portal_worlds::level::{Handle, Level, MagicLevel, Object, Portal, PortalPos};
use portal_worlds::scale::Scale;
use portal_worlds::target::{
    Blend, DepthTest, PortalDepthTexture, PortalRenderer, PortalView, Stages, TargetFormat,
    TextureInfo, Topology,
};
use portal_worlds::walk::PortalId;

fn handle(index: u32) -> Handle {
    Handle { index, generation: 0 }
}

fn body() -> Object {
    Object::new(handle(1), handle(2), handle(3))
}

fn id(world: usize, index: usize) -> PortalId {
    PortalId { world, index }
}

fn one() -> Scale {
    Scale { num: 1, den: 1 }
}

#[test]
fn a_scale_is_a_positive_ratio() {
    assert_eq!(Scale::new(5, 1), Some(Scale { num: 5, den: 1 }));
    assert_eq!(Scale::new(2, 4), Some(Scale { num: 2, den: 4 }));
    assert_eq!(Scale::new(0, 1), None);
    assert_eq!(Scale::new(1, 0), None);
    assert_eq!(Scale::new(0, 0), None);
    assert_eq!(Scale::identity(), Scale { num: 1, den: 1 });
    assert!(Scale::identity().is_identity());
    assert!(Scale { num: 3, den: 3 }.is_identity());
    assert!(!Scale { num: 5, den: 1 }.is_identity());
}

#[test]
fn the_reciprocal_swaps_the_parts() {
    let s = Scale { num: 5, den: 2 };
    assert_eq!(s.recip(), Scale { num: 2, den: 5 });
    assert_eq!(s.recip().recip(), s);
    assert_eq!(
        s.num as u64 * s.recip().num as u64,
        s.den as u64 * s.recip().den as u64
    );
    let big = Scale { num: u32::MAX, den: 1 };
    assert_eq!(big.recip(), Scale { num: 1, den: u32::MAX });
}

#[test]
fn a_handle_is_keyed_by_slot_and_generation() {
    assert_eq!(Handle { index: 0, generation: 0 }.key(), 0);
    assert_eq!(Handle { index: 0, generation: 7 }.key(), 7);
    assert_eq!(Handle { index: 1, generation: 2 }.key(), 4_294_967_298);
    assert_eq!(Handle { index: u32::MAX, generation: u32::MAX }.key(), u64::MAX);
    assert_ne!(
        Handle { index: 1, generation: 0 }.key(),
        Handle { index: 0, generation: 1 }.key()
    );
}

#[test]
fn a_level_of_its_own_has_no_portals() {
    let level = Level::new();
    assert_eq!(level.len(), 0);
    assert_eq!(level.portal(0), None);
}

#[test]
fn new_worlds_have_no_portals() {
    let level = MagicLevel::new(3, body(), 4, 1600, 900);
    assert_eq!(level.world_count(), 3);
    assert_eq!(level.me_world(), 0);
    assert_eq!(level.me(), body());
    assert_eq!(level.pool_size(), 4);
    for w in 0..3 {
        assert_eq!(level.portal_count(w), 0);
    }
    assert_eq!(level.portal_count(3), 0);
    assert_eq!(level.portal(id(0, 0)), None);
    assert_eq!(level.portal_of(handle(10)), None);
    assert!(level.render_portal().is_empty());
    assert_eq!(level.portal_view(3).unwrap(), PortalView::new(1600, 900));
    assert_eq!(level.portal_view(4), None);
}

#[test]
fn a_pair_of_portals_is_linked_both_ways_with_reciprocal_scales() {
    let mut level = MagicLevel::new(2, body(), 5, 1600, 900);
    let pair = level.add_portal(
        PortalPos { world: 0 },
        PortalPos { world: 1 },
        handle(10),
        handle(11),
        Scale { num: 5, den: 1 },
    );
    assert_eq!(pair, (id(0, 0), id(1, 0)));
    let a = level.portal(id(0, 0)).unwrap();
    let b = level.portal(id(1, 0)).unwrap();
    assert_eq!(a.connecting, id(1, 0));
    assert_eq!(b.connecting, id(0, 0));
    assert_eq!(a.this.world, 0);
    assert_eq!(b.this.world, 1);
    assert_eq!(a.scale, Scale { num: 5, den: 1 });
    assert_eq!(b.scale, Scale { num: 1, den: 5 });
    assert_eq!(a.scale.num as u64 * b.scale.num as u64, a.scale.den as u64 * b.scale.den as u64);
    let product =
        (a.scale.num as f64 / a.scale.den as f64) * (b.scale.num as f64 / b.scale.den as f64);
    assert!((product - 1.0).abs() < 1e-12);
    assert_eq!(
        level.portal(id(0, 0)),
        Some(Portal {
            this: PortalPos { world: 0 },
            connecting: id(1, 0),
            scale: Scale { num: 5, den: 1 }
        })
    );
    assert_eq!(level.portal_of(handle(10)), Some(id(0, 0)));
    assert_eq!(level.portal_of(handle(11)), Some(id(1, 0)));
    assert_eq!(level.portal_of(handle(12)), None);
    assert_eq!(level.portal_count(0), 1);
    assert_eq!(level.portal_count(1), 1);
    assert_eq!(level.me_world(), 0);
}

#[test]
fn two_portals_of_one_world_can_lead_to_each_other() {
    let mut level = MagicLevel::new(1, body(), 5, 1600, 900);
    let pair = level.add_portal(
        PortalPos { world: 0 },
        PortalPos { world: 0 },
        handle(10),
        handle(11),
        Scale { num: 2, den: 3 },
    );
    assert_eq!(pair, (id(0, 0), id(0, 1)));
    assert_eq!(level.portal_count(0), 2);
    assert_eq!(level.portal(id(0, 0)).unwrap().connecting, id(0, 1));
    assert_eq!(level.portal(id(0, 1)).unwrap().connecting, id(0, 0));
    assert_eq!(level.portal(id(0, 0)).unwrap().scale, Scale { num: 2, den: 3 });
    assert_eq!(level.portal(id(0, 1)).unwrap().scale, Scale { num: 3, den: 2 });
    assert_eq!(level.portal_of(handle(10)), Some(id(0, 0)));
    assert_eq!(level.portal_of(handle(11)), Some(id(0, 1)));
}

#[test]
fn a_sensor_added_again_stands_for_the_later_portal() {
    let mut level = MagicLevel::new(2, body(), 5, 1600, 900);
    level.add_portal(PortalPos { world: 0 }, PortalPos { world: 1 }, handle(10), handle(11), one());
    level.add_portal(PortalPos { world: 1 }, PortalPos { world: 0 }, handle(10), handle(10), one());
    assert_eq!(level.portal_of(handle(10)), Some(id(0, 1)));
    assert_eq!(level.portal_of(handle(11)), Some(id(1, 0)));
    assert_eq!(level.portal(id(1, 1)).unwrap().connecting, id(0, 1));
}

#[test]
fn every_portal_of_every_world_is_linked_back() {
    let sensors = [
        (handle(10), handle(11)),
        (handle(12), handle(13)),
        (handle(14), handle(15)),
        (handle(16), handle(17)),
        (handle(18), handle(19)),
        (handle(20), handle(21)),
        (handle(22), handle(23)),
        (handle(24), handle(25)),
    ];
    let level = MagicLevel::level0(body(), &sensors, 1600, 900);
    let all = level.render_portal();
    assert_eq!(all.len(), 16);
    for p in all {
        let portal = level.portal(p).unwrap();
        let back = level.portal(portal.connecting).unwrap();
        assert_eq!(back.connecting, p);
        assert_ne!(portal.connecting, p);
        assert_eq!(portal.this.world, p.world);
        assert_eq!(back.scale, portal.scale.recip());
        assert!(portal.scale.num > 0 && portal.scale.den > 0);
    }
}

#[test]
fn the_first_level_has_five_worlds_behind_the_doors_of_the_hall() {
    let sensors = [
        (handle(10), handle(11)),
        (handle(12), handle(13)),
        (handle(14), handle(15)),
        (handle(16), handle(17)),
        (handle(18), handle(19)),
        (handle(20), handle(21)),
        (handle(22), handle(23)),
        (handle(24), handle(25)),
    ];
    let level = MagicLevel::level0(body(), &sensors, 1600, 900);
    assert_eq!(level.world_count(), 5);
    assert_eq!(level.pool_size(), 5);
    assert_eq!(level.me_world(), 0);
    let counts: Vec<usize> = (0..5).map(|w| level.portal_count(w)).collect();
    assert_eq!(counts, vec![8, 3, 1, 2, 2]);
    let doors: Vec<(PortalId, Scale)> = (0..8)
        .map(|k| {
            let p = level.portal(id(0, k)).unwrap();
            (p.connecting, p.scale)
        })
        .collect();
    let five = Scale { num: 5, den: 1 };
    assert_eq!(
        doors,
        vec![
            (id(1, 0), five),
            (id(1, 1), five),
            (id(1, 2), one()),
            (id(2, 0), one()),
            (id(3, 0), one()),
            (id(3, 1), one()),
            (id(4, 0), one()),
            (id(4, 1), one()),
        ]
    );
    assert_eq!(level.portal_of(handle(10)), Some(id(0, 0)));
    assert_eq!(level.portal_of(handle(11)), Some(id(1, 0)));
    assert_eq!(level.portal_of(handle(25)), Some(id(4, 1)));
    assert_eq!(level.portal(id(1, 0)).unwrap().scale, Scale { num: 1, den: 5 });
}

#[test]
fn the_loop_is_one_world_with_two_portals() {
    let level = MagicLevel::level_loop(body(), (handle(10), handle(11)), 1600, 900);
    assert_eq!(level.world_count(), 1);
    assert_eq!(level.portal_count(0), 2);
    assert_eq!(level.pool_size(), 10);
    assert_eq!(level.portal(id(0, 0)).unwrap().connecting, id(0, 1));
    assert_eq!(level.portal(id(0, 1)).unwrap().connecting, id(0, 0));
    assert_eq!(level.portal(id(0, 0)).unwrap().scale, one());
    assert_eq!(level.render_portal(), vec![id(0, 0), id(0, 1)]);
}

#[test]
fn rooms_form_a_ring() {
    let sensors: Vec<(Handle, Handle)> =
        (0..4).map(|i| (handle(10 + 2 * i), handle(11 + 2 * i))).collect();
    let level = MagicLevel::level_rooms(4, body(), &sensors, 1600, 900).unwrap();
    assert_eq!(level.world_count(), 4);
    assert_eq!(level.pool_size(), 5);
    for w in 0..4 {
        assert_eq!(level.portal_count(w), 2);
        let exit = if w == 0 { 0 } else { 1 };
        let entrance = 1 - exit;
        let next = (w + 1) % 4;
        let prev = (w + 3) % 4;
        let next_entrance = if next == 0 { 1 } else { 0 };
        let prev_exit = if prev == 0 { 0 } else { 1 };
        assert_eq!(level.portal(id(w, exit)).unwrap().connecting, id(next, next_entrance));
        assert_eq!(level.portal(id(w, entrance)).unwrap().connecting, id(prev, prev_exit));
        assert_eq!(level.portal(id(w, exit)).unwrap().scale, one());
        assert_eq!(level.portal(id(w, entrance)).unwrap().scale, one());
        assert_eq!(level.portal_of(sensors[w].0), Some(id(w, exit)));
        assert_eq!(level.portal_of(sensors[w].1), Some(id(next, next_entrance)));
    }
    assert_eq!(
        level.render_portal(),
        vec![id(0, 0), id(0, 1), id(1, 0), id(1, 1), id(2, 0), id(2, 1), id(3, 0), id(3, 1)]
    );
}

#[test]
fn a_ring_of_one_room_leads_into_itself() {
    let sensors = vec![(handle(10), handle(11))];
    let level = MagicLevel::level_rooms(1, body(), &sensors, 1600, 900).unwrap();
    assert_eq!(level.world_count(), 1);
    assert_eq!(level.portal_count(0), 2);
    assert_eq!(level.portal(id(0, 0)).unwrap().connecting, id(0, 1));
    assert_eq!(level.portal(id(0, 1)).unwrap().connecting, id(0, 0));
}

#[test]
fn a_ring_needs_a_room_and_a_pair_of_sensors_for_each() {
    let sensors = vec![(handle(10), handle(11)), (handle(12), handle(13))];
    assert!(MagicLevel::level_rooms(0, body(), &vec![], 1600, 900).is_none());
    assert!(MagicLevel::level_rooms(0, body(), &sensors, 1600, 900).is_none());
    assert!(MagicLevel::level_rooms(1, body(), &sensors, 1600, 900).is_none());
    assert!(MagicLevel::level_rooms(3, body(), &sensors, 1600, 900).is_none());
    assert!(MagicLevel::level_rooms(2, body(), &sensors, 1600, 900).is_some());
}

#[test]
fn the_pool_is_made_anew_when_the_output_size_changes() {
    let mut level = MagicLevel::new(1, body(), 3, 1600, 900);
    let _ = level.render(1600, 900);
    for depth in 0..3 {
        assert_eq!(level.portal_view(depth), Some(PortalView::new(1600, 900)));
    }
    let _ = level.render(1280, 720);
    assert_eq!(level.pool_size(), 3);
    for depth in 0..3 {
        assert_eq!(level.portal_view(depth), Some(PortalView::new(1280, 720)));
    }
    let _ = level.render(1280, 721);
    for depth in 0..3 {
        let view = level.portal_view(depth).unwrap();
        assert!(view.fits(1280, 721));
        assert!(!view.fits(1280, 720));
    }
    assert_eq!(level.world_count(), 1);
    assert_eq!(level.me_world(), 0);
}

#[test]
fn a_pool_entry_has_three_targets_of_the_output_size() {
    let view = PortalView::new(1600, 900);
    assert_eq!(
        view.color,
        TextureInfo { width: 1600, height: 900, format: TargetFormat::Surface }
    );
    assert_eq!(
        view.depth,
        TextureInfo { width: 1600, height: 900, format: TargetFormat::Depth32Float }
    );
    assert_eq!(view.pd, PortalDepthTexture::new(1600, 900));
    assert_eq!(
        view.pd.texture,
        TextureInfo { width: 1600, height: 900, format: TargetFormat::Depth32Float }
    );
    assert_eq!(view.pd.binding, 0);
    assert_eq!(view.color_binding, 0);
    assert!(view.fits(1600, 900));
    assert!(!view.fits(900, 1600));
}

#[test]
fn the_portal_pipeline_binds_the_silhouette_last() {
    let renderer = PortalRenderer::new();
    assert_eq!(
        renderer,
        PortalRenderer {
            bind_groups: 3,
            base_group: 0,
            color_group: 1,
            depth_group: 2,
            depth_entries: 1,
            depth_binding: 0,
            depth_visibility: Stages::Fragment,
            depth_multisampled: false,
            topology: Topology::TriangleStrip,
            two_sided: true,
            depth_format: TargetFormat::Depth32Float,
            depth_write: true,
            depth_compare: DepthTest::Less,
            color_targets: 1,
            color_format: TargetFormat::Surface,
            blend: Blend::Replace,
            samples: 1,
        }
    );
}
