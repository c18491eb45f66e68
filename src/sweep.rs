use vstd::prelude::*;
use crate::config::{WIDTH, LOSS_ROW, SWEEP_PERIOD};
use crate::entity::{Entity, all_in_grid};
use crate::game::Game;

verus! {

/// `v` clamped to the columns of the grid.
pub open spec fn clamp_col(v: int) -> usize {
    if v < 0 {
        0
    } else if v > WIDTH - 1 {
        (WIDTH - 1) as usize
    } else {
        v as usize
    }
}

/// An enemy after the horizontal step of a sweep in direction `dir`.
pub open spec fn shifted(e: Entity, dir: int) -> Entity {
    if e.alive {
        Entity { x: clamp_col(e.x + dir), ..e }
    } else {
        e
    }
}

/// A live enemy on the leftmost or the rightmost column.
pub open spec fn on_edge(e: Entity) -> bool {
    e.alive && (e.x == 0 || e.x == WIDTH - 1)
}

/// An enemy after the formation drops one row.
pub open spec fn lowered(e: Entity) -> Entity {
    if e.alive {
        Entity { y: (e.y + 1) as usize, ..e }
    } else {
        e
    }
}

/// Whether a sweep of `s` in direction `dir` lands some enemy on an edge column,
/// which turns the formation and drops it a row.
pub open spec fn sweep_turns(s: Seq<Entity>, dir: int) -> bool {
    exists|i: int| 0 <= i < s.len() && #[trigger] on_edge(shifted(s[i], dir))
}

/// The formation after one sweep in direction `dir`.
pub open spec fn swept(s: Seq<Entity>, dir: int) -> Seq<Entity> {
    if sweep_turns(s, dir) {
        s.map_values(|e: Entity| lowered(shifted(e, dir)))
    } else {
        s.map_values(|e: Entity| shifted(e, dir))
    }
}

/// Whether some live enemy of `s` stands on or below the loss row.
pub open spec fn invaded(s: Seq<Entity>) -> bool {
    exists|i: int| 0 <= i < s.len() && #[trigger] s[i].alive && s[i].y >= LOSS_ROW
}

/// How the formation's state (enemies, direction, clock, loss flag) goes
/// from `b` to `a` in one tick; see `Game::move_enemies`.
pub open spec fn sweep_step(b: Game, a: Game) -> bool {
    &&& b.game_over ==> a.enemies == b.enemies && a.formation_direction == b.formation_direction
        && a.tick_counter == b.tick_counter && a.game_over
    &&& !b.game_over && b.tick_counter + 1 < SWEEP_PERIOD ==> a.tick_counter == b.tick_counter + 1
        && a.enemies == b.enemies && a.formation_direction == b.formation_direction && !a.game_over
    &&& !b.game_over && b.tick_counter + 1 >= SWEEP_PERIOD ==> {
        &&& a.tick_counter == 0
        &&& a.enemies@ == swept(b.enemies@, b.formation_direction as int)
        &&& a.formation_direction as int == if sweep_turns(b.enemies@, b.formation_direction as int) {
            -b.formation_direction
        } else {
            b.formation_direction as int
        }
        &&& a.game_over == invaded(a.enemies@)
    }
}

impl Game {
    /// Advances the formation's clock by one tick, and on every
    /// `SWEEP_PERIOD`-th tick sweeps it: each live enemy steps one column in
    /// the formation's direction (clamped to the grid); if one lands on an edge
    /// column the direction turns for the next sweep and every live enemy drops
    /// a row, and the game is lost once a live enemy reaches the loss row.
    /// A lost game's formation stays where it is.
    pub fn move_enemies(&mut self)
        requires
            old(self).wf(),
        ensures
            final(self).wf(),
            sweep_step(*old(self), *final(self)),
            final(self).player == old(self).player,
            final(self).player_bullets == old(self).player_bullets,
            final(self).enemy_bullets == old(self).enemy_bullets,
            final(self).score == old(self).score,
    {
        if self.game_over {
            return;
        }
        if self.tick_counter + 1 < SWEEP_PERIOD {
            self.tick_counter = self.tick_counter + 1;
            return;
        }
        self.tick_counter = 0;
        let dir = self.formation_direction;
        let ghost s0 = self.enemies@;
        let n: usize = self.enemies.len();
        let mut turn = false;
        let ghost mut edge_at: int = 0;
        let mut i: usize = 0;
        while i < n
            invariant
                n == s0.len(),
                i <= n,
                self.enemies@.len() == n,
                dir == 1 || dir == -1,
                forall|k: int| 0 <= k < i ==> #[trigger] self.enemies@[k] == shifted(s0[k], dir as int),
                forall|k: int| i <= k < n ==> #[trigger] self.enemies@[k] == s0[k],
                turn ==> 0 <= edge_at < i && on_edge(shifted(s0[edge_at], dir as int)),
                !turn ==> forall|k: int| 0 <= k < i ==> !#[trigger] on_edge(shifted(s0[k], dir as int)),
                all_in_grid(s0),
                self.player == old(self).player,
                self.player_bullets == old(self).player_bullets,
                self.enemy_bullets == old(self).enemy_bullets,
                self.score == old(self).score,
                self.game_over == old(self).game_over,
                self.tick_counter == 0,
                old(self).wf(),
                s0 == old(self).enemies@,
                dir == old(self).formation_direction,
                self.formation_direction == dir,
            decreases n - i,
        {
            let mut e = self.enemies[i];
            if e.alive {
                let nx: i64 = e.x as i64 + dir as i64;
                e.x = if nx < 0 {
                    0
                } else if nx > WIDTH as i64 - 1 {
                    WIDTH - 1
                } else {
                    nx as usize
                };
                if e.x == 0 || e.x == WIDTH - 1 {
                    turn = true;
                    proof {
                        edge_at = i as int;
                    }
                }
            }
            self.enemies.set(i, e);
            assert(e == shifted(s0[i as int], dir as int));
            assert(on_edge(e) ==> turn);
            i = i + 1;
        }
        assert(turn == sweep_turns(s0, dir as int));
        if turn {
            self.formation_direction = -dir;
            let mut j: usize = 0;
            let mut lost = false;
            let ghost mut low_at: int = 0;
            while j < n
                invariant
                    n == s0.len(),
                    j <= n,
                    self.enemies@.len() == n,
                    forall|k: int| 0 <= k < j ==> #[trigger] self.enemies@[k] == lowered(shifted(s0[k], dir as int)),
                    forall|k: int| j <= k < n ==> #[trigger] self.enemies@[k] == shifted(s0[k], dir as int),
                    lost ==> 0 <= low_at < j && self.enemies@[low_at].alive && self.enemies@[low_at].y >= LOSS_ROW,
                    !lost ==> forall|k: int| 0 <= k < j ==> !(#[trigger] self.enemies@[k].alive && self.enemies@[k].y >= LOSS_ROW),
                    forall|k: int| 0 <= k < n ==> (#[trigger] s0[k]).y < LOSS_ROW,
                    self.player == old(self).player,
                    self.player_bullets == old(self).player_bullets,
                    self.enemy_bullets == old(self).enemy_bullets,
                    self.score == old(self).score,
                    self.game_over == old(self).game_over,
                    self.tick_counter == 0,
                    old(self).wf(),
                    s0 == old(self).enemies@,
                    dir == old(self).formation_direction,
                    self.formation_direction == -dir,
                decreases n - j,
            {
                let mut e = self.enemies[j];
                if e.alive {
                    e.y = e.y + 1;
                    if e.y >= LOSS_ROW {
                        lost = true;
                        proof {
                            low_at = j as int;
                        }
                    }
                }
                self.enemies.set(j, e);
                assert(e == lowered(shifted(s0[j as int], dir as int)));
                assert(self.enemies@[j as int] == e);
                assert(e.alive && e.y >= LOSS_ROW ==> lost);
                j = j + 1;
            }
            self.game_over = lost;
            assert(self.enemies@ =~= swept(s0, dir as int));
            assert(lost == invaded(self.enemies@));
        } else {
            assert(self.enemies@ =~= swept(s0, dir as int));
            assert(!invaded(self.enemies@)) by {
                assert forall|k: int| 0 <= k < n implies !(#[trigger] self.enemies@[k].alive && self.enemies@[k].y >= LOSS_ROW) by {
                    assert(s0[k].y < LOSS_ROW);
                }
            }
        }
        assert forall|k: int| 0 <= k < n implies (#[trigger] self.enemies@[k]).in_grid() && self.enemies@[k].y <= LOSS_ROW
            && (!self.game_over ==> self.enemies@[k].y < LOSS_ROW) by {
            assert(s0[k].in_grid() && s0[k].y < LOSS_ROW);
            if !self.game_over {
                assert(!invaded(self.enemies@));
                assert(!(self.enemies@[k].alive && self.enemies@[k].y >= LOSS_ROW));
            }
        }
    }
}

} // verus!
