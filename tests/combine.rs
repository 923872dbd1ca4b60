use kami_combine::{combination_for, rule_for, Canvas, Effect, Interaction, Kind, MutationQueue, Position, Rect, SpatialIndex, random_position, widget_rect, COORD_LIMIT};

fn at(x: i64, y: i64, z: i64) -> Position {
    Position { x, y, z }
}

/// Five starting widgets far apart: handles 0 to 4.
fn five_apart() -> Canvas {
    let mut c = Canvas::new();
    c.enqueue_spawn(Kind::HeWho, at(0, 0, 10));
    c.enqueue_spawn(Kind::SheWho, at(1000, 0, 20));
    c.enqueue_spawn(Kind::Land, at(2000, 0, 30));
    c.enqueue_spawn(Kind::Ocean, at(3000, 0, 40));
    c.enqueue_spawn(Kind::Heaven, at(4000, 0, 50));
    c.flush();
    c
}

fn kinds_from(c: &Canvas, first: u64) -> Vec<Kind> {
    let mut r = Vec::new();
    for h in first..c.next_handle() {
        if let Some(w) = c.widget(h) {
            r.push(w.kind);
        }
    }
    r
}

#[test]
fn starting_widgets_are_indexed() {
    let mut c = Canvas::new();
    c.enqueue_starting_widgets();
    assert_eq!(c.queue().to_spawn.len(), 5);
    c.flush();
    assert_eq!(c.widget_count(), 5);
    assert_eq!(c.index_len(), 5);
    assert_eq!(kinds_from(&c, 0), vec![Kind::HeWho, Kind::SheWho, Kind::Land, Kind::Ocean, Kind::Heaven]);
    for h in 0..5 {
        let w = c.widget(h).unwrap();
        assert!(-100 <= w.pos.x && w.pos.x < 100);
        assert!(-100 <= w.pos.y && w.pos.y < 100);
        assert!(0 <= w.pos.z && w.pos.z < 500);
        assert!(c.query_topmost_at(w.pos.x, w.pos.y).is_some());
        assert!(c.query_topmost_at(w.pos.x + 50, w.pos.y - 50).is_some());
    }
    assert_eq!(c.query_topmost_at(1000, 1000), None);
}

#[test]
fn he_who_onto_she_who() {
    let mut c = five_apart();
    assert_eq!(c.press(0, 0), Some(0));
    assert_eq!(c.state(), Interaction::Dragging(0, at(0, 0, 10)));
    c.follow_pointer(1010, 5);
    assert_eq!(c.release(1010, 5), Some(1));
    assert_eq!(c.state(), Interaction::Idle);
    assert_eq!(c.queue().to_despawn, vec![1]);
    c.flush();
    assert_eq!(c.widget(1), None);
    assert_eq!(c.widget(0).unwrap().pos, at(1010, 5, 10));
    assert_eq!(c.widget(0).unwrap().kind, Kind::HeWho);
    assert_eq!(kinds_from(&c, 5), vec![Kind::SheWhoDead, Kind::BadFlame, Kind::Leech]);
    assert_eq!(c.widget_count(), 7);
    assert_eq!(c.index_len(), 7);
}

#[test]
fn land_onto_ocean_has_no_effect() {
    let mut c = five_apart();
    assert_eq!(c.press(2000, 0), Some(2));
    c.follow_pointer(3000, 10);
    assert_eq!(c.release(3000, 10), Some(3));
    assert!(c.queue().to_spawn.is_empty());
    assert!(c.queue().to_despawn.is_empty());
    c.flush();
    assert_eq!(c.widget_count(), 5);
    assert_eq!(c.index_len(), 5);
    assert_eq!(c.widget(2).unwrap().pos, at(3000, 10, 30));
    assert_eq!(c.widget(3).unwrap().pos, at(3000, 0, 40));
    assert_eq!(c.next_handle(), 5);
}

#[test]
fn press_on_empty_space_stays_idle() {
    let mut c = five_apart();
    assert_eq!(c.press(500, 500), None);
    assert_eq!(c.state(), Interaction::Idle);
    assert_eq!(c.widget_count(), 5);
    assert_eq!(c.index_len(), 5);
}

#[test]
fn drag_to_empty_space_reinserts() {
    let mut c = five_apart();
    assert_eq!(c.press(40, -40), Some(0));
    c.follow_pointer(0, 600);
    assert_eq!(c.release(0, 600), None);
    c.flush();
    assert_eq!(c.widget(0).unwrap().pos, at(0, 600, 10));
    assert_eq!(c.query_topmost_at(0, 600), Some(0));
    assert_eq!(c.query_topmost_at(0, 0), None);
    assert_eq!(c.widget_count(), 5);
    assert_eq!(c.index_len(), 5);
}

#[test]
fn he_who_dirty_onto_ocean() {
    let mut c = Canvas::new();
    c.enqueue_spawn(Kind::HeWhoDirty, at(0, 0, 10));
    c.enqueue_spawn(Kind::Ocean, at(3000, 0, 40));
    c.flush();
    assert_eq!(c.press(0, 0), Some(0));
    c.follow_pointer(3000, 0);
    assert_eq!(c.release(3000, 0), Some(1));
    let spawned: Vec<Kind> = c.queue().to_spawn.iter().map(|s| s.0).collect();
    assert_eq!(spawned, vec![Kind::Rrm, Kind::MoonCounting, Kind::HeavenShining, Kind::HeWho]);
    assert_eq!(c.queue().to_despawn, vec![0]);
    c.flush();
    assert_eq!(c.widget(0), None);
    assert_eq!(c.widget(1).unwrap().kind, Kind::Ocean);
    assert_eq!(kinds_from(&c, 2), vec![Kind::Rrm, Kind::MoonCounting, Kind::HeavenShining, Kind::HeWho]);
    assert_eq!(c.widget_count(), 5);
    assert_eq!(c.index_len(), 5);
}

#[test]
fn he_who_onto_she_who_dead_removes_both() {
    let mut c = Canvas::new();
    c.enqueue_spawn(Kind::SheWhoDead, at(0, 0, 10));
    c.enqueue_spawn(Kind::HeWho, at(3000, 0, 40));
    c.flush();
    assert_eq!(c.press(0, 0), Some(0));
    c.follow_pointer(3000, 0);
    assert_eq!(c.release(3000, 0), Some(1));
    assert_eq!(c.queue().to_despawn, vec![1, 0]);
    c.flush();
    assert_eq!(c.widget_count(), 1);
    assert_eq!(c.widget(2).unwrap().kind, Kind::HeWhoDirty);
    assert_eq!(c.index_len(), 1);
}

#[test]
fn pair_lookup_is_symmetric() {
    let all = [
        Kind::HeWho, Kind::SheWho, Kind::Land, Kind::Ocean, Kind::Heaven, Kind::Leech,
        Kind::BadFlame, Kind::SheWhoDead, Kind::HeWhoDirty, Kind::Rrm, Kind::HeavenShining,
        Kind::MoonCounting,
    ];
    for a in all {
        for b in all {
            assert_eq!(combination_for(a, b), combination_for(b, a));
        }
    }
    assert_eq!(combination_for(Kind::SheWho, Kind::HeWho), rule_for(Kind::HeWho, Kind::SheWho));
    assert_eq!(rule_for(Kind::SheWho, Kind::HeWho), None);
    assert_eq!(combination_for(Kind::Land, Kind::Ocean), None);
    assert_eq!(combination_for(Kind::BadFlame, Kind::HeWhoDirty), Some(vec![Effect::Delete(Kind::BadFlame)]));
}

#[test]
fn dragged_widget_is_not_found_at_its_live_position() {
    let mut c = five_apart();
    assert_eq!(c.press(0, 0), Some(0));
    c.follow_pointer(500, 500);
    assert_eq!(c.widget(0).unwrap().pos, at(500, 500, 10));
    assert_eq!(c.query_topmost_at(500, 500), None);
    assert_eq!(c.query_topmost_at(0, 0), Some(0));
    assert_eq!(c.index_len(), 5);
    c.release(500, 500);
    assert_eq!(c.query_topmost_at(500, 500), Some(0));
    assert_eq!(c.query_topmost_at(0, 0), None);
}

#[test]
fn higher_priority_wins() {
    let mut c = Canvas::new();
    c.enqueue_spawn(Kind::Land, at(0, 0, 5));
    c.enqueue_spawn(Kind::Ocean, at(30, 30, 9));
    c.enqueue_spawn(Kind::Heaven, at(-30, -30, 7));
    c.flush();
    assert_eq!(c.query_topmost_at(10, 10), Some(1));
    assert_eq!(c.query_topmost_at(-25, -25), Some(2));
    assert_eq!(c.query_topmost_at(-60, -60), Some(2));
    assert_eq!(c.query_topmost_at(50, 50), Some(1));
    assert_eq!(c.query_topmost_at(81, 81), None);
    assert_eq!(c.query_topmost_at(80, 80), Some(1));
}

#[test]
fn release_picks_topmost_other() {
    let mut c = Canvas::new();
    c.enqueue_spawn(Kind::HeWho, at(0, 0, 100));
    c.enqueue_spawn(Kind::Land, at(1000, 0, 5));
    c.enqueue_spawn(Kind::SheWho, at(1020, 0, 9));
    c.flush();
    assert_eq!(c.press(0, 0), Some(0));
    c.follow_pointer(1000, 0);
    assert_eq!(c.release(1000, 0), Some(2));
    c.flush();
    assert_eq!(c.widget(2), None);
    assert_eq!(c.widget_count(), 5);
}

#[test]
fn delete_of_unrelated_kind_removes_other() {
    let mut q = MutationQueue::new();
    q.push_effects(&vec![Effect::Delete(Kind::Rrm), Effect::Delete(Kind::Land)], Kind::Land, 7, 9);
    assert_eq!(q.to_despawn, vec![9, 7]);
    assert!(q.to_spawn.is_empty());
    q.push_effects(&vec![Effect::Create(Kind::Leech)], Kind::Land, 7, 9);
    assert_eq!(q.to_spawn.len(), 1);
    assert_eq!(q.to_spawn[0].0, Kind::Leech);
}

#[test]
fn release_while_idle_does_nothing() {
    let mut c = five_apart();
    assert_eq!(c.release(0, 0), None);
    assert!(c.queue().to_despawn.is_empty());
    assert_eq!(c.index_len(), 5);
}

#[test]
fn despawn_of_gone_widget_is_ignored() {
    let mut c = five_apart();
    assert_eq!(c.press(0, 0), Some(0));
    c.follow_pointer(1000, 0);
    c.release(1000, 0);
    c.flush();
    assert_eq!(c.press(1000, 0), Some(0));
    c.follow_pointer(1000, 0);
    assert_eq!(c.release(1000, 0), None);
    c.flush();
    assert_eq!(c.widget_count(), 7);
    assert_eq!(c.index_len(), 7);
}

#[test]
fn index_remove_miss_is_tolerated() {
    let mut ix = SpatialIndex::new();
    let r = Rect { min_x: 0, min_y: 0, max_x: 10, max_y: 10, priority: 3, handle: 1 };
    assert!(!ix.remove(r));
    ix.insert(r);
    ix.insert(r);
    assert_eq!(ix.len(), 2);
    assert!(r.contains_point(10, 0));
    assert!(!r.contains_point(11, 0));
    assert_eq!(ix.query_topmost_at(10, 10), Some(1));
    assert!(ix.remove(r));
    assert_eq!(ix.len(), 1);
    assert!(ix.remove(r));
    assert!(!ix.remove(r));
    assert_eq!(ix.query_topmost_at(5, 5), None);
}

#[test]
fn widget_rect_is_centred() {
    let r = widget_rect(4, at(10, -20, 7));
    assert_eq!(r, Rect { min_x: -40, min_y: -70, max_x: 60, max_y: 30, priority: 7, handle: 4 });
}

#[test]
fn random_positions_in_range() {
    let mut seen_x = std::collections::HashSet::new();
    for _ in 0..200 {
        let p = random_position();
        assert!(-100 <= p.x && p.x < 100);
        assert!(-100 <= p.y && p.y < 100);
        assert!(0 <= p.z && p.z < 500);
        seen_x.insert(p.x);
    }
    assert!(seen_x.len() > 1);
}

#[test]
fn kind_tables() {
    assert_eq!(Kind::HeWho.name(), "he_who");
    assert_eq!(Kind::Rrm.asset_name(), "RRM.png");
    assert_eq!(Kind::Heaven.full_name(), "The Heavens");
    assert_eq!(Kind::starting(), vec![Kind::HeWho, Kind::SheWho, Kind::Land, Kind::Ocean, Kind::Heaven]);
}

#[test]
fn spawns_apply_before_despawns() {
    let mut c = Canvas::new();
    c.enqueue_spawn(Kind::Land, at(0, 0, 1));
    c.enqueue_despawn(0);
    c.enqueue_despawn(0);
    c.enqueue_despawn(42);
    c.flush();
    assert_eq!(c.widget(0), None);
    assert_eq!(c.widget_count(), 0);
    assert_eq!(c.index_len(), 0);
    assert_eq!(c.next_handle(), 1);
    assert_eq!(c.query_topmost_at(0, 0), None);
    c.enqueue_spawn(Kind::Ocean, at(5, 5, 2));
    c.flush();
    assert_eq!(c.widget(1).unwrap().kind, Kind::Ocean);
    assert!(c.can_spawn_pending());
}

#[test]
fn far_apart_widgets_fill_the_tree() {
    let mut c = Canvas::new();
    let spots = [
        (0, 0), (10, 10), (-10, 5), (3, -7), (20, 0), (0, 20),
        (COORD_LIMIT, COORD_LIMIT), (-COORD_LIMIT, COORD_LIMIT), (COORD_LIMIT, -COORD_LIMIT),
        (-COORD_LIMIT, -COORD_LIMIT), (COORD_LIMIT, 0), (0, -COORD_LIMIT), (12345678, -87654321),
    ];
    for (i, (x, y)) in spots.iter().enumerate() {
        c.enqueue_spawn(Kind::Land, at(*x, *y, i as i64));
    }
    c.flush();
    assert_eq!(c.widget_count(), 13);
    assert_eq!(c.index_len(), 13);
    assert_eq!(c.query_topmost_at(COORD_LIMIT + 50, COORD_LIMIT + 50), Some(6));
    assert_eq!(c.query_topmost_at(-COORD_LIMIT, -COORD_LIMIT), Some(9));
    assert_eq!(c.press(COORD_LIMIT, 0), Some(10));
    c.follow_pointer(-COORD_LIMIT, COORD_LIMIT);
    assert_eq!(c.release(-COORD_LIMIT, COORD_LIMIT), Some(7));
    c.flush();
    assert_eq!(c.widget(10).unwrap().pos, at(-COORD_LIMIT, COORD_LIMIT, 10));
    assert_eq!(c.index_len(), 13);
}
