use vstd::prelude::*;
use crate::config::{
    WIDTH, HEIGHT, ENEMY_ROWS, ENEMY_COLS, ROW_SPACING, COL_SPACING, LEFT_MARGIN, TOP_MARGIN,
    KILL_SCORE, LOSS_ROW, SWEEP_PERIOD,
};
use crate::entity::{Entity, all_in_grid, all_alive, living, lemma_living_members, lemma_living_in_grid};

verus! {

/// The whole world of one game: the player, the enemy formation, both kinds of
/// bullets, the score and the state of the formation's sweep.
pub struct Game {
    pub player: Entity,
    pub enemies: Vec<Entity>,
    pub player_bullets: Vec<Entity>,
    pub enemy_bullets: Vec<Entity>,
    pub score: usize,
    /// Set when the player is hit or the formation reaches the player's zone; never cleared.
    pub game_over: bool,
    /// `1` while the formation sweeps right, `-1` while it sweeps left.
    pub formation_direction: i32,
    /// Ticks since the last sweep.
    pub tick_counter: usize,
}

/// The enemy at slot `i` of the initial formation, counted row by row.
pub open spec fn formation_slot(i: int) -> Entity {
    Entity {
        x: (LEFT_MARGIN + COL_SPACING * (i % ENEMY_COLS as int)) as usize,
        y: (TOP_MARGIN + ROW_SPACING * (i / ENEMY_COLS as int)) as usize,
        alive: true,
    }
}

/// The initial enemy formation.
pub open spec fn formation() -> Seq<Entity> {
    Seq::new((ENEMY_ROWS * ENEMY_COLS) as nat, |i: int| formation_slot(i))
}

/// A player bullet after one tick: one row up, or dead once it stands on the top row.
pub open spec fn bullet_up(b: Entity) -> Entity {
    if b.y > 0 && b.alive {
        Entity { y: (b.y - 1) as usize, ..b }
    } else {
        b.killed()
    }
}

/// An enemy bullet after one tick: one row down, or dead once it stands on the bottom row.
pub open spec fn bullet_down(b: Entity) -> Entity {
    if b.y < HEIGHT - 1 && b.alive {
        Entity { y: (b.y + 1) as usize, ..b }
    } else {
        b.killed()
    }
}

impl Game {
    /// The invariant of a world in play: everything on the grid, the formation
    /// above the loss row (on it only once the game is lost), and room for the
    /// score of every enemy still present.
    pub open spec fn wf(&self) -> bool {
        &&& self.player.in_grid()
        &&& self.player.y >= 1
        &&& all_in_grid(self.enemies@)
        &&& all_in_grid(self.player_bullets@)
        &&& all_in_grid(self.enemy_bullets@)
        &&& forall|i: int| 0 <= i < self.enemies@.len() ==> (#[trigger] self.enemies@[i]).y <= LOSS_ROW
        &&& !self.game_over ==> forall|i: int|
            0 <= i < self.enemies@.len() ==> (#[trigger] self.enemies@[i]).y < LOSS_ROW
        &&& self.formation_direction == 1 || self.formation_direction == -1
        &&& self.tick_counter < SWEEP_PERIOD
        &&& self.score + KILL_SCORE * self.enemies@.len() <= usize::MAX
    }

    /// A fresh game: the full formation, the player centred one row above the
    /// bottom, no bullets, no score, the formation about to sweep right.
    pub fn new() -> (r: Game)
        ensures
            r.wf(),
            r.player == (Entity { x: WIDTH / 2, y: (HEIGHT - 2) as usize, alive: true }),
            r.enemies@ == formation(),
            r.player_bullets@.len() == 0,
            r.enemy_bullets@.len() == 0,
            r.score == 0,
            !r.game_over,
            r.formation_direction == 1,
            r.tick_counter == 0,
    {
        let mut game = Game {
            player: Entity { x: WIDTH / 2, y: HEIGHT - 2, alive: true },
            enemies: Vec::new(),
            player_bullets: Vec::new(),
            enemy_bullets: Vec::new(),
            score: 0,
            game_over: false,
            formation_direction: 1,
            tick_counter: 0,
        };
        game.spawn_enemies();
        assert(game.enemies@ =~= formation());
        game
    }

    /// Appends the initial formation to `enemies`. Meant to run once, when the
    /// game is created: a second call duplicates the formation.
    pub fn spawn_enemies(&mut self)
        requires
            old(self).enemies@.len() + ENEMY_ROWS * ENEMY_COLS <= usize::MAX,
        ensures
            final(self).enemies@ == old(self).enemies@ + formation(),
            final(self).player == old(self).player,
            final(self).player_bullets == old(self).player_bullets,
            final(self).enemy_bullets == old(self).enemy_bullets,
            final(self).score == old(self).score,
            final(self).game_over == old(self).game_over,
            final(self).formation_direction == old(self).formation_direction,
            final(self).tick_counter == old(self).tick_counter,
    {
        let n: usize = ENEMY_ROWS * ENEMY_COLS;
        let mut i: usize = 0;
        while i < n
            invariant
                n == ENEMY_ROWS * ENEMY_COLS,
                i <= n,
                self.enemies@ == old(self).enemies@ + formation().take(i as int),
                self.player == old(self).player,
                self.player_bullets == old(self).player_bullets,
                self.enemy_bullets == old(self).enemy_bullets,
                self.score == old(self).score,
                self.game_over == old(self).game_over,
                self.formation_direction == old(self).formation_direction,
                self.tick_counter == old(self).tick_counter,
            decreases n - i,
        {
            assert(i / ENEMY_COLS <= ENEMY_ROWS) by (nonlinear_arith)
                requires i < 50;
            let e = Entity {
                x: LEFT_MARGIN + COL_SPACING * (i % ENEMY_COLS),
                y: TOP_MARGIN + ROW_SPACING * (i / ENEMY_COLS),
                alive: true,
            };
            self.enemies.push(e);
            assert(formation().take(i as int + 1) =~= formation().take(i as int).push(e));
            i = i + 1;
        }
        assert(formation().take(n as int) =~= formation());
    }

    /// Moves the player one column by `direction`, unless that would put it on
    /// an outermost column (or off the grid): then nothing changes.
    pub fn move_player(&mut self, direction: i32)
        requires
            old(self).wf(),
        ensures
            final(self).wf(),
            ({
                let nx = old(self).player.x + direction;
                final(self).player.x == if 0 < nx < WIDTH - 1 { nx } else { old(self).player.x as int }
            }),
            final(self).player.y == old(self).player.y,
            final(self).player.alive == old(self).player.alive,
            final(self).enemies == old(self).enemies,
            final(self).player_bullets == old(self).player_bullets,
            final(self).enemy_bullets == old(self).enemy_bullets,
            final(self).score == old(self).score,
            final(self).game_over == old(self).game_over,
            final(self).formation_direction == old(self).formation_direction,
            final(self).tick_counter == old(self).tick_counter,
    {
        let new_x: i64 = self.player.x as i64 + direction as i64;
        if 0 < new_x && new_x < WIDTH as i64 - 1 {
            self.player.x = new_x as usize;
        }
    }

    /// Fires a player bullet from the cell just above the player.
    pub fn shoot_bullet(&mut self)
        requires
            old(self).wf(),
        ensures
            final(self).wf(),
            final(self).player_bullets@ == old(self).player_bullets@.push(
                Entity { x: old(self).player.x, y: (old(self).player.y - 1) as usize, alive: true },
            ),
            final(self).player == old(self).player,
            final(self).enemies == old(self).enemies,
            final(self).enemy_bullets == old(self).enemy_bullets,
            final(self).score == old(self).score,
            final(self).game_over == old(self).game_over,
            final(self).formation_direction == old(self).formation_direction,
            final(self).tick_counter == old(self).tick_counter,
    {
        let b = Entity { x: self.player.x, y: self.player.y - 1, alive: true };
        self.player_bullets.push(b);
    }

    /// Removes every dead entity from the enemies and both bullet collections,
    /// keeping the order of the rest.
    pub fn prune(&mut self)
        requires
            old(self).wf(),
        ensures
            final(self).wf(),
            final(self).enemies@ == living(old(self).enemies@),
            final(self).player_bullets@ == living(old(self).player_bullets@),
            final(self).enemy_bullets@ == living(old(self).enemy_bullets@),
            all_alive(final(self).enemies@),
            all_alive(final(self).player_bullets@),
            all_alive(final(self).enemy_bullets@),
            final(self).player == old(self).player,
            final(self).score == old(self).score,
            final(self).game_over == old(self).game_over,
            final(self).formation_direction == old(self).formation_direction,
            final(self).tick_counter == old(self).tick_counter,
    {
        let e = keep_living(&self.enemies);
        let pb = keep_living(&self.player_bullets);
        let eb = keep_living(&self.enemy_bullets);
        proof {
            lemma_living_members(self.enemies@);
            lemma_living_members(self.player_bullets@);
            lemma_living_members(self.enemy_bullets@);
            lemma_living_in_grid(self.enemies@);
            lemma_living_in_grid(self.player_bullets@);
            lemma_living_in_grid(self.enemy_bullets@);
            let s = self.enemies@;
            assert forall|i: int| 0 <= i < living(s).len() implies (#[trigger] living(s)[i]).y <= LOSS_ROW by {
                let k = choose|k: int| 0 <= k < s.len() && s[k] == living(s)[i];
            }
            assert(!self.game_over ==> forall|i: int| 0 <= i < living(s).len() ==> (#[trigger] living(s)[i]).y < LOSS_ROW) by {
                if !self.game_over {
                    assert forall|i: int| 0 <= i < living(s).len() implies (#[trigger] living(s)[i]).y < LOSS_ROW by {
                        assert(s.contains(living(s)[i]));
                    }
                }
            }
        }
        self.enemies = e;
        self.player_bullets = pb;
        self.enemy_bullets = eb;
    }

    /// Advances every bullet one row: player bullets up, enemy bullets down,
    /// marking dead those that stood on the edge they travel towards.
    pub fn move_bullets(&mut self)
        requires
            old(self).wf(),
        ensures
            final(self).wf(),
            final(self).player_bullets@.len() == old(self).player_bullets@.len(),
            forall|i: int| 0 <= i < old(self).player_bullets@.len() ==>
                #[trigger] final(self).player_bullets@[i] == bullet_up(old(self).player_bullets@[i]),
            final(self).enemy_bullets@.len() == old(self).enemy_bullets@.len(),
            forall|i: int| 0 <= i < old(self).enemy_bullets@.len() ==>
                #[trigger] final(self).enemy_bullets@[i] == bullet_down(old(self).enemy_bullets@[i]),
            final(self).player == old(self).player,
            final(self).enemies == old(self).enemies,
            final(self).score == old(self).score,
            final(self).game_over == old(self).game_over,
            final(self).formation_direction == old(self).formation_direction,
            final(self).tick_counter == old(self).tick_counter,
    {
        let n: usize = self.player_bullets.len();
        let mut i: usize = 0;
        while i < n
            invariant
                n == old(self).player_bullets@.len(),
                i <= n,
                self.player_bullets@.len() == n,
                forall|k: int| 0 <= k < i ==> #[trigger] self.player_bullets@[k] == bullet_up(old(self).player_bullets@[k]),
                forall|k: int| i <= k < n ==> #[trigger] self.player_bullets@[k] == old(self).player_bullets@[k],
                self.player == old(self).player,
                self.enemies == old(self).enemies,
                self.enemy_bullets == old(self).enemy_bullets,
                self.score == old(self).score,
                self.game_over == old(self).game_over,
                self.formation_direction == old(self).formation_direction,
                self.tick_counter == old(self).tick_counter,
                old(self).wf(),
            decreases n - i,
        {
            let mut b = self.player_bullets[i];
            if b.y > 0 && b.alive {
                b.y = b.y - 1;
            } else {
                b.alive = false;
            }
            self.player_bullets.set(i, b);
            i = i + 1;
        }
        let m: usize = self.enemy_bullets.len();
        let mut j: usize = 0;
        while j < m
            invariant
                m == old(self).enemy_bullets@.len(),
                j <= m,
                self.enemy_bullets@.len() == m,
                forall|k: int| 0 <= k < j ==> #[trigger] self.enemy_bullets@[k] == bullet_down(old(self).enemy_bullets@[k]),
                forall|k: int| j <= k < m ==> #[trigger] self.enemy_bullets@[k] == old(self).enemy_bullets@[k],
                self.player_bullets@.len() == old(self).player_bullets@.len(),
                forall|k: int| 0 <= k < old(self).player_bullets@.len() ==>
                    #[trigger] self.player_bullets@[k] == bullet_up(old(self).player_bullets@[k]),
                self.player == old(self).player,
                self.enemies == old(self).enemies,
                self.score == old(self).score,
                self.game_over == old(self).game_over,
                self.formation_direction == old(self).formation_direction,
                self.tick_counter == old(self).tick_counter,
                old(self).wf(),
            decreases m - j,
        {
            let mut b = self.enemy_bullets[j];
            if b.y < HEIGHT - 1 && b.alive {
                b.y = b.y + 1;
            } else {
                b.alive = false;
            }
            self.enemy_bullets.set(j, b);
            j = j + 1;
        }
        assert forall|k: int| 0 <= k < self.player_bullets@.len() implies (#[trigger] self.player_bullets@[k]).in_grid() by {
            assert(old(self).player_bullets@[k].in_grid());
        }
        assert forall|k: int| 0 <= k < self.enemy_bullets@.len() implies (#[trigger] self.enemy_bullets@[k]).in_grid() by {
            assert(old(self).enemy_bullets@[k].in_grid());
        }
    }
}

/// The live entities of `v`, in order.
pub(crate) fn keep_living(v: &Vec<Entity>) -> (r: Vec<Entity>)
    ensures
        r@ == living(v@),
{
    let mut r: Vec<Entity> = Vec::new();
    let mut i: usize = 0;
    while i < v.len()
        invariant
            i <= v@.len(),
            r@ == living(v@.take(i as int)),
        decreases v@.len() - i,
    {
        assert(v@.take(i as int + 1).drop_last() =~= v@.take(i as int));
        if v[i].alive {
            r.push(v[i]);
        }
        i = i + 1;
    }
    assert(v@.take(v@.len() as int) =~= v@);
    r
}

} // verus!
