use portal_worlds::level::{Handle, MagicLevel, Object, PortalPos};
use portal_worlds::scale::Scale;
use portal_worlds::walk::{
    will_see_face, PortalId, RenderAction, RenderWalk, Sighting, Target,
};

fn handle(index: u32) -> Handle {
    Handle { index, generation: 0 }
}

fn body() -> Object {
    Object::new(handle(1), handle(2), handle(3))
}

fn id(world: usize, index: usize) -> PortalId {
    PortalId { world, index }
}

fn seen() -> Sighting {
    Sighting { corners: [true; 4], in_reach: true, along_entry: true }
}

fn unseen() -> Sighting {
    Sighting { corners: [false; 4], in_reach: false, along_entry: false }
}

/// Runs a walk to its end. `look` is asked what is found at a portal, given
/// the portals passed to reach the current view.
fn run(
    walk: &mut RenderWalk,
    look: &dyn Fn(&[PortalId], PortalId) -> Sighting,
) -> Vec<RenderAction> {
    let mut actions = Vec::new();
    let mut path: Vec<PortalId> = Vec::new();
    let mut reply = unseen();
    for _ in 0..100_000 {
        let action = walk.step(reply);
        actions.push(action);
        match action {
            RenderAction::Probe { portal, .. } => reply = look(&path, portal),
            RenderAction::Enter { through, .. } => {
                if actions.len() > 1 {
                    path.push(through);
                }
            }
            RenderAction::Composite { .. } => {
                path.pop();
            }
            RenderAction::Done => return actions,
            RenderAction::World { .. } => {}
        }
    }
    panic!("the walk did not end");
}

fn two_worlds(pool: usize) -> MagicLevel {
    let mut level = MagicLevel::new(2, body(), pool, 800, 600);
    level.add_portal(
        PortalPos { world: 0 },
        PortalPos { world: 1 },
        handle(10),
        handle(11),
        Scale { num: 5, den: 1 },
    );
    level
}

#[test]
fn a_render_of_two_worlds_with_two_pool_entries_is_this_sequence() {
    let mut level = two_worlds(2);
    let mut walk = level.render(800, 600);
    let actions = run(&mut walk, &|_, _| seen());
    assert_eq!(
        actions,
        vec![
            RenderAction::World { world: 0 },
            RenderAction::Probe { portal: id(0, 0), entered: None },
            RenderAction::Enter { through: id(0, 0), entry: id(1, 0), depth: 0 },
            RenderAction::Probe { portal: id(0, 0), entered: Some(id(1, 0)) },
            RenderAction::Enter { through: id(0, 0), entry: id(1, 0), depth: 1 },
            RenderAction::Composite { portal: id(0, 0), depth: 1, onto: Target::Pool(0) },
            RenderAction::Composite { portal: id(0, 0), depth: 0, onto: Target::Screen },
            RenderAction::Probe { portal: id(1, 0), entered: None },
            RenderAction::Enter { through: id(1, 0), entry: id(0, 0), depth: 0 },
            RenderAction::Probe { portal: id(1, 0), entered: Some(id(0, 0)) },
            RenderAction::Enter { through: id(1, 0), entry: id(0, 0), depth: 1 },
            RenderAction::Composite { portal: id(1, 0), depth: 1, onto: Target::Pool(0) },
            RenderAction::Composite { portal: id(1, 0), depth: 0, onto: Target::Screen },
            RenderAction::Done,
        ]
    );
    assert!(walk.is_finished());
    assert_eq!(walk.step(seen()), RenderAction::Done);
    assert_eq!(walk.step(unseen()), RenderAction::Done);
}

#[test]
fn with_nothing_in_sight_every_portal_is_probed_once() {
    let mut level = two_worlds(5);
    let mut walk = level.render(800, 600);
    let actions = run(&mut walk, &|_, _| unseen());
    assert_eq!(
        actions,
        vec![
            RenderAction::World { world: 0 },
            RenderAction::Probe { portal: id(0, 0), entered: None },
            RenderAction::Probe { portal: id(1, 0), entered: None },
            RenderAction::Done,
        ]
    );
}

#[test]
fn a_face_is_seen_if_a_corner_is_in_depth_range() {
    assert!(will_see_face(&[true, true, true, true]));
    assert!(will_see_face(&[true, false, false, false]));
    assert!(will_see_face(&[false, true, false, false]));
    assert!(will_see_face(&[false, false, true, false]));
    assert!(will_see_face(&[false, false, false, true]));
    assert!(will_see_face(&[false, true, true, false]));
    assert!(!will_see_face(&[false, false, false, false]));
}

#[test]
fn each_test_of_the_heuristic_can_keep_a_portal_out() {
    let out_of_range = Sighting { corners: [false; 4], in_reach: true, along_entry: true };
    let out_of_reach = Sighting { corners: [true; 4], in_reach: false, along_entry: true };
    let behind_entry = Sighting { corners: [true; 4], in_reach: true, along_entry: false };
    let one_corner =
        Sighting { corners: [false, false, true, false], in_reach: true, along_entry: true };
    assert!(one_corner.worth_entering(None));
    assert!(one_corner.worth_entering(Some(id(0, 0))));
    assert!(seen().worth_entering(None));
    assert!(seen().worth_entering(Some(id(0, 0))));
    assert!(!out_of_range.worth_entering(None));
    assert!(!out_of_range.worth_entering(Some(id(0, 0))));
    assert!(!out_of_reach.worth_entering(None));
    assert!(!out_of_reach.worth_entering(Some(id(0, 0))));
    assert!(behind_entry.worth_entering(None));
    assert!(!behind_entry.worth_entering(Some(id(0, 0))));
    assert!(!unseen().worth_entering(None));
}

#[test]
fn the_screen_view_has_no_entry_to_look_beyond() {
    let behind_entry = Sighting { corners: [true; 4], in_reach: true, along_entry: false };
    let mut level = two_worlds(3);
    let mut walk = level.render(800, 600);
    let actions = run(&mut walk, &|_, _| behind_entry);
    assert_eq!(
        actions,
        vec![
            RenderAction::World { world: 0 },
            RenderAction::Probe { portal: id(0, 0), entered: None },
            RenderAction::Enter { through: id(0, 0), entry: id(1, 0), depth: 0 },
            RenderAction::Probe { portal: id(0, 0), entered: Some(id(1, 0)) },
            RenderAction::Composite { portal: id(0, 0), depth: 0, onto: Target::Screen },
            RenderAction::Probe { portal: id(1, 0), entered: None },
            RenderAction::Enter { through: id(1, 0), entry: id(0, 0), depth: 0 },
            RenderAction::Probe { portal: id(1, 0), entered: Some(id(0, 0)) },
            RenderAction::Composite { portal: id(1, 0), depth: 0, onto: Target::Screen },
            RenderAction::Done,
        ]
    );
}

#[test]
fn a_world_that_leads_into_itself_is_rendered_no_deeper_than_the_pool() {
    let mut level = MagicLevel::level_loop(body(), (handle(10), handle(11)), 800, 600);
    assert_eq!(level.pool_size(), 10);
    let mut walk = level.render(800, 600);
    let mut actions = Vec::new();
    let mut most_open = 0;
    loop {
        let action = walk.step(seen());
        most_open = most_open.max(walk.open_views());
        actions.push(action);
        if action == RenderAction::Done {
            break;
        }
        assert!(actions.len() < 1000);
    }
    let depths: Vec<usize> = actions
        .iter()
        .filter_map(|a| match a {
            RenderAction::Enter { depth, .. } => Some(*depth),
            _ => None,
        })
        .collect();
    assert_eq!(depths.len(), 20);
    assert_eq!(depths.iter().max(), Some(&9));
    assert_eq!(most_open, 11);
    assert_eq!(actions.len(), 62);
    let composites = actions.iter().filter(|a| matches!(a, RenderAction::Composite { .. })).count();
    assert_eq!(composites, 20);
    for action in &actions {
        if let RenderAction::Probe { portal, entered } = action {
            assert_ne!(Some(*portal), *entered);
        }
    }
}

#[test]
fn the_view_behind_a_portal_is_asked_about_with_the_portals_passed() {
    let mut level = two_worlds(3);
    let mut walk = level.render(800, 600);
    let actions = run(&mut walk, &|path, portal| {
        if path.is_empty() && portal == id(0, 0) {
            seen()
        } else if path == [id(0, 0)] && portal == id(0, 0) {
            seen()
        } else {
            unseen()
        }
    });
    assert_eq!(
        actions,
        vec![
            RenderAction::World { world: 0 },
            RenderAction::Probe { portal: id(0, 0), entered: None },
            RenderAction::Enter { through: id(0, 0), entry: id(1, 0), depth: 0 },
            RenderAction::Probe { portal: id(0, 0), entered: Some(id(1, 0)) },
            RenderAction::Enter { through: id(0, 0), entry: id(1, 0), depth: 1 },
            RenderAction::Probe { portal: id(0, 0), entered: Some(id(1, 0)) },
            RenderAction::Composite { portal: id(0, 0), depth: 1, onto: Target::Pool(0) },
            RenderAction::Composite { portal: id(0, 0), depth: 0, onto: Target::Screen },
            RenderAction::Probe { portal: id(1, 0), entered: None },
            RenderAction::Done,
        ]
    );
}

#[test]
fn a_walk_from_a_portal_view_starts_with_that_view() {
    let level = two_worlds(3);
    let mut walk = level.render_in_portal(id(1, 0), 1).unwrap();
    let actions = run(&mut walk, &|_, _| seen());
    assert_eq!(
        actions,
        vec![
            RenderAction::Enter { through: id(0, 0), entry: id(1, 0), depth: 1 },
            RenderAction::Probe { portal: id(0, 0), entered: Some(id(1, 0)) },
            RenderAction::Enter { through: id(0, 0), entry: id(1, 0), depth: 2 },
            RenderAction::Composite { portal: id(0, 0), depth: 2, onto: Target::Pool(1) },
            RenderAction::Done,
        ]
    );
}

#[test]
fn the_deepest_pool_entry_shows_its_world_and_no_portal() {
    let level = two_worlds(3);
    let mut walk = level.render_in_portal(id(0, 0), 2).unwrap();
    let actions = run(&mut walk, &|_, _| seen());
    assert_eq!(
        actions,
        vec![
            RenderAction::Enter { through: id(1, 0), entry: id(0, 0), depth: 2 },
            RenderAction::Done,
        ]
    );
}

#[test]
fn there_is_no_walk_from_a_portal_or_pool_entry_that_does_not_exist() {
    let level = two_worlds(3);
    assert!(level.render_in_portal(id(0, 0), 3).is_none());
    assert!(level.render_in_portal(id(0, 1), 0).is_none());
    assert!(level.render_in_portal(id(2, 0), 0).is_none());
    assert!(level.render_in_portal(id(1, 0), 0).is_some());
}

#[test]
fn a_world_without_portals_is_drawn_and_that_is_all() {
    let mut level = MagicLevel::new(1, body(), 1, 640, 480);
    let mut walk = level.render(640, 480);
    assert_eq!(walk.open_views(), 1);
    assert!(!walk.is_finished());
    assert_eq!(walk.step(seen()), RenderAction::World { world: 0 });
    assert_eq!(walk.step(seen()), RenderAction::Done);
    assert!(walk.is_finished());
}

#[test]
fn the_render_starts_in_the_world_of_the_controlled_body() {
    let mut level = two_worlds(3);
    level.update(&vec![portal_worlds::crossing::ContactEvent {
        started: true,
        collider1: handle(3),
        collider2: handle(10),
    }]);
    let mut walk = level.render(800, 600);
    assert_eq!(walk.step(unseen()), RenderAction::World { world: 1 });
}
