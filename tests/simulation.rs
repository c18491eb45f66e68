use invaders::config::{HEIGHT, KILL_SCORE, LOSS_ROW, WIDTH};
use invaders::{Cell, Entity, Game, Intent, Status};

fn bare_game() -> Game {
    Game {
        player: Entity::new(WIDTH / 2, HEIGHT - 2),
        enemies: Vec::new(),
        player_bullets: Vec::new(),
        enemy_bullets: Vec::new(),
        score: 0,
        game_over: false,
        formation_direction: 1,
        tick_counter: 0,
    }
}

#[test]
fn fresh_game_layout() {
    let g = Game::new();
    assert_eq!(g.player, Entity { x: 30, y: 23, alive: true });
    assert_eq!(g.enemies.len(), 50);
    assert_eq!(g.enemies[0], Entity { x: 5, y: 2, alive: true });
    assert_eq!(g.enemies[9], Entity { x: 50, y: 2, alive: true });
    assert_eq!(g.enemies[49], Entity { x: 50, y: 14, alive: true });
    assert!(g.player_bullets.is_empty() && g.enemy_bullets.is_empty());
    assert_eq!(g.score, 0);
    assert!(!g.game_over);
    assert_eq!(g.status(), Status::Playing);
}

#[test]
fn bullet_passes_between_columns() {
    let mut g = Game::new();
    g.shoot_bullet();
    assert_eq!(g.player_bullets, vec![Entity { x: 30, y: 22, alive: true }]);
    let mut ticks = 0;
    while g.player_bullets.len() == 1 && g.player_bullets[0].y > 14 {
        g.tick();
        ticks += 1;
        assert!(ticks <= 8);
    }
    assert_eq!(ticks, 8);
    assert_eq!(g.player_bullets.len(), 1);
    let b = g.player_bullets[0];
    assert_eq!((b.x, b.y, b.alive), (30, 14, true));
    assert!(g.enemies.iter().all(|e| !(e.x == 30 && e.y == 14)));
    let snap = g.snapshot();
    assert_eq!(snap.cell(30, 14), Cell::Bullet);
}

#[test]
fn bullet_on_enemy_kills_both() {
    let mut g = bare_game();
    g.enemies.push(Entity::new(10, 5));
    g.player_bullets.push(Entity::new(10, 5));
    g.check_collisions();
    assert!(g.enemies.is_empty());
    assert_eq!(g.score, 10);
    assert!(g.player_bullets.is_empty());
    assert_eq!(g.status(), Status::Won);
}

#[test]
fn enemy_bullet_on_player_ends_game() {
    let mut g = bare_game();
    g.enemies.push(Entity::new(10, 5));
    let p = g.player;
    g.enemy_bullets.push(Entity::new(p.x, p.y));
    g.check_collisions();
    assert!(g.game_over);
    assert!(!g.player.alive);
    assert!(g.enemy_bullets.is_empty());
    assert_eq!(g.status(), Status::Lost);
}

#[test]
fn formation_turns_at_right_edge() {
    let mut g = Game::new();
    let mut sweeps = 0;
    loop {
        let before = g.enemies.clone();
        let dir = g.formation_direction;
        for _ in 0..4 {
            g.move_enemies();
            assert_eq!(g.enemies, before);
        }
        g.move_enemies();
        sweeps += 1;
        if g.enemies.iter().any(|e| e.x == WIDTH - 1) {
            assert_eq!(dir, 1);
            assert_eq!(g.formation_direction, -1);
            for (a, b) in before.iter().zip(g.enemies.iter()) {
                assert_eq!(b.y, a.y + 1);
                assert_eq!(b.x, a.x + 1);
            }
            break;
        }
        assert_eq!(g.formation_direction, 1);
        for (a, b) in before.iter().zip(g.enemies.iter()) {
            assert_eq!(b.y, a.y);
        }
    }
    assert_eq!(sweeps, 9);
}

#[test]
fn formation_reaching_loss_row_ends_game() {
    let mut g = Game::new();
    let mut steps = 0;
    while !g.game_over {
        let lowest_before = g.enemies.iter().map(|e| e.y).max().unwrap();
        assert!(lowest_before < LOSS_ROW);
        g.move_enemies();
        let lowest_after = g.enemies.iter().map(|e| e.y).max().unwrap();
        assert_eq!(g.game_over, lowest_after >= LOSS_ROW);
        steps += 1;
        assert!(steps < 10_000);
    }
    assert_eq!(g.enemies.iter().map(|e| e.y).max().unwrap(), LOSS_ROW);
    let frozen = g.enemies.clone();
    g.move_enemies();
    assert_eq!(g.enemies, frozen);
    assert_eq!(g.status(), Status::Lost);
}

#[test]
fn player_stays_off_left_border() {
    let mut g = bare_game();
    g.player.x = 1;
    g.move_player(-1);
    assert_eq!(g.player.x, 1);
    g.move_player(1);
    assert_eq!(g.player.x, 2);
}

#[test]
fn player_stays_off_right_border() {
    let mut g = bare_game();
    g.player.x = WIDTH - 2;
    g.move_player(1);
    assert_eq!(g.player.x, WIDTH - 2);
    g.move_player(-1);
    assert_eq!(g.player.x, WIDTH - 3);
}

#[test]
fn prune_twice_changes_nothing_more() {
    let mut g = bare_game();
    g.enemies = vec![
        Entity::new(1, 1),
        Entity { x: 2, y: 1, alive: false },
        Entity::new(3, 1),
    ];
    g.player_bullets = vec![Entity { x: 4, y: 4, alive: false }, Entity::new(5, 4)];
    g.enemy_bullets = vec![Entity { x: 6, y: 6, alive: false }];
    g.prune();
    assert_eq!(g.enemies, vec![Entity::new(1, 1), Entity::new(3, 1)]);
    assert_eq!(g.player_bullets, vec![Entity::new(5, 4)]);
    assert!(g.enemy_bullets.is_empty());
    let (e, p, b) = (g.enemies.clone(), g.player_bullets.clone(), g.enemy_bullets.clone());
    g.prune();
    assert_eq!((g.enemies, g.player_bullets, g.enemy_bullets), (e, p, b));
}

#[test]
fn first_enemy_in_order_takes_the_hit() {
    let mut g = bare_game();
    g.enemies = vec![Entity::new(7, 3), Entity::new(7, 3), Entity::new(8, 3)];
    g.player_bullets = vec![Entity::new(7, 3)];
    g.check_collisions();
    assert_eq!(g.enemies, vec![Entity::new(7, 3), Entity::new(8, 3)]);
    assert_eq!(g.score, KILL_SCORE);
    assert!(g.player_bullets.is_empty());
}

#[test]
fn each_kill_scores_ten() {
    let mut g = bare_game();
    g.score = 30;
    g.enemies = vec![Entity::new(7, 3), Entity::new(7, 3), Entity::new(9, 3), Entity::new(11, 3)];
    g.player_bullets = vec![Entity::new(7, 3), Entity::new(7, 3), Entity::new(11, 3), Entity::new(12, 3)];
    g.check_collisions();
    assert_eq!(g.score, 60);
    assert_eq!(g.enemies, vec![Entity::new(9, 3)]);
    assert_eq!(g.player_bullets, vec![Entity::new(12, 3)]);
}

#[test]
fn no_bullet_and_enemy_share_a_cell_after_collisions() {
    let mut g = bare_game();
    g.enemies = vec![Entity::new(4, 4), Entity::new(5, 5), Entity::new(6, 6)];
    g.player_bullets = vec![Entity::new(5, 5), Entity::new(6, 6), Entity::new(6, 6), Entity::new(9, 9)];
    g.check_collisions();
    for b in &g.player_bullets {
        for e in &g.enemies {
            assert!(!(b.x == e.x && b.y == e.y));
        }
    }
    assert_eq!(g.player_bullets, vec![Entity::new(6, 6), Entity::new(9, 9)]);
    assert_eq!(g.enemies, vec![Entity::new(4, 4)]);
}

#[test]
fn only_first_enemy_bullet_hits_player() {
    let mut g = bare_game();
    let p = g.player;
    g.enemy_bullets = vec![Entity::new(p.x, p.y), Entity::new(p.x, p.y), Entity::new(0, 0)];
    g.check_collisions();
    assert!(g.game_over && !g.player.alive);
    assert_eq!(g.enemy_bullets, vec![Entity::new(p.x, p.y), Entity::new(0, 0)]);
}

#[test]
fn bullets_leave_at_the_edges() {
    let mut g = bare_game();
    g.player_bullets = vec![Entity::new(3, 0), Entity::new(3, 1)];
    g.enemy_bullets = vec![Entity::new(4, HEIGHT - 1), Entity::new(4, HEIGHT - 2)];
    g.move_bullets();
    assert_eq!(g.player_bullets, vec![Entity { x: 3, y: 0, alive: false }, Entity::new(3, 0)]);
    assert_eq!(
        g.enemy_bullets,
        vec![Entity { x: 4, y: HEIGHT - 1, alive: false }, Entity::new(4, HEIGHT - 1)]
    );
    g.check_collisions();
    assert_eq!(g.player_bullets, vec![Entity::new(3, 0)]);
    assert_eq!(g.enemy_bullets, vec![Entity::new(4, HEIGHT - 1)]);
}

#[test]
fn enemies_fire_where_draws_say() {
    let mut g = bare_game();
    g.enemies = vec![Entity::new(5, 2), Entity { x: 10, y: 2, alive: false }, Entity::new(15, 5)];
    g.enemy_fire(&vec![false, true, true]);
    assert_eq!(g.enemy_bullets, vec![Entity::new(15, 6)]);
    g.enemy_fire(&vec![true, false, true]);
    assert_eq!(g.enemy_bullets, vec![Entity::new(15, 6), Entity::new(5, 3), Entity::new(15, 6)]);
}

#[test]
fn random_fire_lands_below_live_enemies() {
    let mut g = Game::new();
    for _ in 0..20 {
        let before = g.enemy_bullets.len();
        g.enemy_shoot();
        assert!(g.enemy_bullets.len() <= before + g.enemies.len());
        for b in &g.enemy_bullets[before..] {
            assert!(b.alive);
            assert!(g.enemies.iter().any(|e| e.x == b.x && e.y + 1 == b.y));
        }
    }
}

#[test]
fn intents_apply_at_once() {
    let mut g = bare_game();
    assert!(g.apply(Intent::Left));
    assert_eq!(g.player.x, WIDTH / 2 - 1);
    assert!(g.apply(Intent::Right));
    assert!(g.apply(Intent::Right));
    assert_eq!(g.player.x, WIDTH / 2 + 1);
    assert!(g.apply(Intent::Fire));
    assert_eq!(g.player_bullets, vec![Entity::new(WIDTH / 2 + 1, HEIGHT - 3)]);
    assert!(g.apply(Intent::Idle));
    assert!(!g.apply(Intent::Quit));
    assert!(!g.game_over);
}

#[test]
fn loss_wins_over_empty_formation() {
    let mut g = bare_game();
    g.game_over = true;
    assert_eq!(g.status(), Status::Lost);
}

#[test]
fn snapshot_draws_in_write_order() {
    let mut g = bare_game();
    let p = g.player;
    g.enemies = vec![Entity::new(p.x, p.y), Entity::new(2, 2), Entity { x: 3, y: 3, alive: false }];
    g.player_bullets = vec![Entity::new(2, 2)];
    g.enemy_bullets = vec![Entity::new(4, 4)];
    g.score = 40;
    let s = g.snapshot();
    assert_eq!(s.cells.len(), WIDTH * HEIGHT);
    assert_eq!(s.cell(p.x, p.y), Cell::Enemy);
    assert_eq!(s.cell(2, 2), Cell::Bullet);
    assert_eq!(s.cell(3, 3), Cell::Blank);
    assert_eq!(s.cell(4, 4), Cell::Bullet);
    assert_eq!(s.cell(0, 0), Cell::Blank);
    assert_eq!(s.score, 40);
}

#[test]
fn render_text_lines() {
    let mut g = bare_game();
    g.enemies = vec![Entity::new(5, 2)];
    g.player_bullets = vec![Entity::new(7, 2)];
    let text = g.render();
    let lines: Vec<&str> = text.split_terminator('\n').collect();
    assert_eq!(lines.len(), HEIGHT);
    assert!(text.ends_with('\n'));
    assert!(lines.iter().all(|l| l.chars().count() == WIDTH));
    assert_eq!(&lines[2][..8], "     W |");
    assert_eq!(lines[HEIGHT - 2].chars().nth(WIDTH / 2), Some('^'));
    assert_eq!(lines[0], " ".repeat(WIDTH));
}

#[test]
fn dead_player_is_not_drawn() {
    let mut g = bare_game();
    g.player.alive = false;
    let s = g.snapshot();
    assert!(s.cells.iter().all(|c| *c == Cell::Blank));
}

#[test]
fn full_game_ticks_keep_everything_on_grid() {
    let mut g = Game::new();
    let mut last_score = 0;
    for i in 0..300 {
        if i % 3 == 0 {
            g.apply(Intent::Fire);
        }
        g.apply(if i % 20 < 10 { Intent::Left } else { Intent::Right });
        if g.status() != Status::Playing {
            break;
        }
        g.tick();
        assert!(g.score >= last_score);
        assert_eq!((g.score - last_score) % KILL_SCORE, 0);
        last_score = g.score;
        let all = g.enemies.iter().chain(g.player_bullets.iter()).chain(g.enemy_bullets.iter());
        for e in all {
            assert!(e.x < WIDTH && e.y < HEIGHT && e.alive);
        }
    }
}
