use tunnel_game::{
    intent_of, latest_intent, Bullet, DrawOp, Draws, Enemy, Intent, Key, KeyStroke, Location,
    PlayerStatus, World,
};

fn quiet() -> Draws {
    Draws {
        left_roll: 0,
        left_target: 0,
        right_roll: 0,
        right_target: 0,
        spawn_roll: 0,
        spawn_col: 0,
    }
}

fn press(key: Key) -> KeyStroke {
    KeyStroke { key, press: true }
}

#[test]
fn new_world_layout() {
    let w = World::new(40, 20);
    assert_eq!(w.player_location, Location::new(19, 20));
    assert_eq!(w.map.len(), 20);
    assert!(w.map.iter().all(|&row| row == (15, 25)));
    assert_eq!((w.next_left, w.next_right), (13, 27));
    assert_eq!(w.status, PlayerStatus::Alive);
    assert!(w.enemy.is_empty());
    assert!(w.bullet.is_empty());
    assert_eq!(w.ship, 'P');
}

#[test]
fn one_tick_without_input_keeps_player_alive_and_still() {
    let mut w = World::new(40, 20);
    w.physics();
    assert_eq!(w.status, PlayerStatus::Alive);
    assert_eq!(w.player_location, Location::new(19, 20));
}

#[test]
fn player_on_left_wall_dies() {
    let mut w = World::new(40, 20);
    w.player_location.c = w.map[w.player_location.l as usize].0;
    w.physics();
    assert_eq!(w.status, PlayerStatus::Dead);
}

#[test]
fn player_on_right_wall_dies() {
    let mut w = World::new(40, 20);
    w.player_location.c = w.map[w.player_location.l as usize].1;
    w.physics_with(quiet());
    assert_eq!(w.status, PlayerStatus::Dead);
}

#[test]
fn enemy_leaves_after_twenty_ticks() {
    let mut w = World::new(40, 20);
    w.enemy.push(Enemy { location: Location::new(0, 17) });
    w.run_ticks(&vec![quiet(); 19]);
    assert_eq!(w.enemy, vec![Enemy { location: Location::new(19, 17) }]);
    w.physics_with(quiet());
    assert!(w.enemy.is_empty());
    assert_eq!(w.status, PlayerStatus::Alive);
}

#[test]
fn second_shot_in_flight_is_ignored() {
    let mut w = World::new(40, 20);
    assert!(w.apply_intent(Intent::Fire));
    assert!(w.apply_intent(Intent::Fire));
    assert_eq!(w.bullet.len(), 1);
    assert_eq!(w.bullet[0], Bullet { location: Location::new(19, 20), energy: 10 });
}

#[test]
fn moves_are_clamped_at_the_edges() {
    let mut w = World::new(40, 20);
    w.apply_intent(Intent::Down);
    assert_eq!(w.player_location, Location::new(19, 20));
    w.player_location = Location::new(1, 1);
    w.apply_intent(Intent::Up);
    w.apply_intent(Intent::Left);
    assert_eq!(w.player_location, Location::new(1, 1));
    w.player_location = Location::new(5, 39);
    w.apply_intent(Intent::Right);
    assert_eq!(w.player_location, Location::new(5, 39));
    w.apply_intent(Intent::Left);
    w.apply_intent(Intent::Up);
    assert_eq!(w.player_location, Location::new(4, 38));
    w.apply_intent(Intent::Down);
    w.apply_intent(Intent::Right);
    assert_eq!(w.player_location, Location::new(5, 39));
}

#[test]
fn quit_stops_and_changes_nothing() {
    let mut w = World::new(40, 20);
    assert!(!w.apply_intent(Intent::Quit));
    assert_eq!(w.player_location, Location::new(19, 20));
    assert_eq!(w.status, PlayerStatus::Alive);
}

#[test]
fn keys_map_to_intents() {
    assert_eq!(intent_of(&press(Key::Char('q'))), Some(Intent::Quit));
    assert_eq!(intent_of(&press(Key::Char('w'))), Some(Intent::Up));
    assert_eq!(intent_of(&press(Key::Char('s'))), Some(Intent::Down));
    assert_eq!(intent_of(&press(Key::Char('a'))), Some(Intent::Left));
    assert_eq!(intent_of(&press(Key::Char('d'))), Some(Intent::Right));
    assert_eq!(intent_of(&press(Key::Char(' '))), Some(Intent::Fire));
    assert_eq!(intent_of(&press(Key::Up)), Some(Intent::Up));
    assert_eq!(intent_of(&press(Key::Down)), Some(Intent::Down));
    assert_eq!(intent_of(&press(Key::Left)), Some(Intent::Left));
    assert_eq!(intent_of(&press(Key::Right)), Some(Intent::Right));
    assert_eq!(intent_of(&press(Key::Char('x'))), None);
    assert_eq!(intent_of(&press(Key::Other)), None);
    assert_eq!(intent_of(&KeyStroke { key: Key::Char('q'), press: false }), None);
}

#[test]
fn latest_relevant_stroke_wins() {
    let ks = vec![
        press(Key::Up),
        press(Key::Char(' ')),
        KeyStroke { key: Key::Left, press: false },
        press(Key::Char('z')),
    ];
    assert_eq!(latest_intent(&ks), Some(Intent::Fire));
    assert_eq!(latest_intent(&vec![]), None);
    assert_eq!(latest_intent(&vec![press(Key::Other)]), None);
}

#[test]
fn top_row_drifts_one_unit_toward_targets() {
    let mut w = World::new(40, 20);
    w.physics_with(quiet());
    assert_eq!(w.map[0], (14, 26));
    assert_eq!(w.map[1], (15, 25));
    w.physics_with(quiet());
    assert_eq!(w.map[0], (13, 27));
    assert_eq!(w.map[1], (14, 26));
    w.physics_with(quiet());
    assert_eq!(w.map[0], (13, 27));
    assert_eq!((w.next_left, w.next_right), (13, 27));
}

#[test]
fn retarget_only_at_rest() {
    let mut w = World::new(40, 20);
    let d = Draws { left_roll: 9, left_target: 10, right_roll: 9, right_target: 30, ..quiet() };
    w.physics_with(d);
    assert_eq!((w.next_left, w.next_right), (13, 27));
    w.physics_with(d);
    assert_eq!(w.map[0], (13, 27));
    assert_eq!((w.next_left, w.next_right), (10, 30));
    let low = Draws { left_roll: 6, left_target: 1, right_roll: 6, right_target: 1, ..quiet() };
    w.physics_with(low);
    assert_eq!((w.next_left, w.next_right), (10, 30));
}

#[test]
fn close_targets_push_the_right_one() {
    let mut w = World::new(40, 20);
    w.next_left = 15;
    w.next_right = 25;
    let d = Draws { right_roll: 7, right_target: 16, ..quiet() };
    w.physics_with(d);
    assert_eq!((w.next_left, w.next_right), (15, 18));
}

fn all_rows_wide(w: &World) -> bool {
    w.map.iter().all(|&(l, r)| r >= l + 3)
}

#[test]
fn crossed_targets_are_pulled_apart() {
    let mut w = World::new(40, 20);
    w.physics_with(quiet());
    w.physics_with(Draws { left_roll: 9, left_target: 17, right_roll: 9, right_target: 23, ..quiet() });
    assert_eq!((w.next_left, w.next_right), (17, 23));
    for _ in 0..3 {
        w.physics_with(quiet());
    }
    w.physics_with(Draws { left_roll: 9, left_target: 21, right_roll: 9, right_target: 18, ..quiet() });
    assert_eq!(w.map[0], (17, 23));
    assert_eq!((w.next_left, w.next_right), (21, 24));
    for _ in 0..30 {
        w.physics_with(quiet());
        assert!(all_rows_wide(&w));
    }
    assert_eq!(w.map[0], (21, 24));
}

#[test]
fn left_target_stays_below_the_top_of_the_range() {
    let mut w = World::new(40, 2);
    w.map = vec![(65520, 65530); 2];
    w.next_left = 65520;
    w.next_right = 65530;
    w.physics_with(Draws { left_roll: 9, left_target: 65535, right_roll: 9, right_target: 65500, ..quiet() });
    assert_eq!((w.next_left, w.next_right), (65532, 65535));
}

#[test]
fn spawn_column_is_strictly_inside_the_opening() {
    let mut w = World::new(40, 20);
    for _ in 0..300 {
        let d = w.draw_tick();
        let top_left = if w.map[0].0 < w.next_left { w.map[0].0 + 1 } else if w.map[0].0 > w.next_left { w.map[0].0 - 1 } else { w.map[0].0 };
        if d.spawn_roll >= 9 {
            assert!(top_left < d.spawn_col && d.spawn_col < w.map[0].1);
        }
        w.physics_with(d);
        assert!(all_rows_wide(&w));
        assert!(w.next_right >= w.next_left + 3);
        w.player_location.c = (w.map[19].0 + w.map[19].1) / 2;
        w.status = PlayerStatus::Alive;
    }
}

#[test]
fn spawn_needs_a_high_roll() {
    let mut w = World::new(40, 20);
    w.physics_with(Draws { spawn_roll: 8, spawn_col: 18, ..quiet() });
    assert!(w.enemy.is_empty());
    w.physics_with(Draws { spawn_roll: 9, spawn_col: 18, ..quiet() });
    assert_eq!(w.enemy, vec![Enemy { location: Location::new(0, 18) }]);
}

#[test]
fn bullet_flies_and_expires() {
    let mut w = World::new(40, 20);
    w.apply_intent(Intent::Fire);
    w.physics_with(quiet());
    assert_eq!(w.bullet, vec![Bullet { location: Location::new(17, 20), energy: 9 }]);
    for _ in 0..7 {
        w.physics_with(quiet());
    }
    assert_eq!(w.bullet, vec![Bullet { location: Location::new(3, 20), energy: 2 }]);
    w.physics_with(quiet());
    assert_eq!(w.bullet, vec![Bullet { location: Location::new(1, 20), energy: 0 }]);
    w.physics_with(quiet());
    assert!(w.bullet.is_empty());
}

#[test]
fn bullet_hits_enemy_cell_or_just_above() {
    let mut w = World::new(40, 20);
    w.bullet.push(Bullet { location: Location::new(9, 20), energy: 5 });
    w.enemy.push(Enemy { location: Location::new(10, 20) });
    w.enemy.push(Enemy { location: Location::new(9, 20) });
    w.enemy.push(Enemy { location: Location::new(8, 20) });
    w.enemy.push(Enemy { location: Location::new(10, 21) });
    w.physics_with(quiet());
    assert_eq!(
        w.enemy,
        vec![Enemy { location: Location::new(9, 20) }, Enemy { location: Location::new(11, 21) }]
    );
    let ops = w.frame();
    assert!(!ops.iter().any(|op| op.glyph == 'E' && op.row == 11 && op.col == 20));
}

#[test]
fn enemy_on_player_kills() {
    let mut w = World::new(40, 20);
    w.enemy.push(Enemy { location: Location::new(19, 20) });
    w.physics_with(quiet());
    assert_eq!(w.status, PlayerStatus::Dead);
}

#[test]
fn frame_draws_walls_then_entities_then_player() {
    let mut w = World::new(40, 3);
    w.enemy.push(Enemy { location: Location::new(1, 18) });
    w.bullet.push(Bullet { location: Location::new(2, 20), energy: 1 });
    let ops = w.frame();
    let wall = |col, row, len| DrawOp { col, row, glyph: '*', len };
    assert_eq!(
        ops,
        vec![
            wall(0, 0, 15),
            wall(25, 0, 15),
            wall(0, 1, 15),
            wall(25, 1, 15),
            wall(0, 2, 15),
            wall(25, 2, 15),
            DrawOp { col: 18, row: 1, glyph: 'E', len: 1 },
            DrawOp { col: 20, row: 2, glyph: '^', len: 1 },
            DrawOp { col: 20, row: 2, glyph: 'P', len: 1 },
        ]
    );
}

#[test]
fn same_draws_same_world() {
    let ds = vec![
        Draws { left_roll: 8, left_target: 11, spawn_roll: 9, spawn_col: 16, ..quiet() },
        Draws { right_roll: 9, right_target: 29, ..quiet() },
        Draws { left_roll: 7, left_target: 15, spawn_roll: 9, spawn_col: 20, ..quiet() },
    ];
    let mut a = World::new(40, 20);
    let mut b = World::new(40, 20);
    for _ in 0..4 {
        a.run_ticks(&ds);
        b.run_ticks(&ds);
    }
    assert_eq!(a.map, b.map);
    assert_eq!((a.next_left, a.next_right), (b.next_left, b.next_right));
    assert_eq!(a.enemy, b.enemy);
    assert_eq!(a.bullet, b.bullet);
    assert_eq!(a.status, b.status);
}

#[test]
fn random_ticks_keep_draws_in_range() {
    let mut w = World::new(40, 20);
    let mut rolls = Vec::new();
    for _ in 0..200 {
        let d = w.draw_tick();
        rolls.push(d.spawn_roll);
        assert!(d.left_roll < 10 && d.right_roll < 10 && d.spawn_roll < 10);
        if d.left_roll >= 7 {
            let (lo, hi) = (w.next_left.saturating_sub(5), w.next_left.saturating_add(5));
            assert!(lo <= d.left_target && d.left_target < hi);
        }
        if d.right_roll >= 7 {
            let (lo, hi) = (w.next_right.saturating_sub(5), w.next_right.saturating_add(5));
            assert!(lo <= d.right_target && d.right_target < hi);
        }
        w.physics_with(d);
        w.player_location.c = (w.map[19].0 + w.map[19].1) / 2;
        w.status = PlayerStatus::Alive;
    }
    assert_eq!(w.map.len(), 20);
    assert!(rolls.iter().any(|&r| r != 0));
}

#[test]
fn hit_compares_both_coordinates() {
    assert!(Location::new(3, 4).hit(&Location::new(3, 4)));
    assert!(!Location::new(3, 4).hit(&Location::new(4, 3)));
}
